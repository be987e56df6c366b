//! Text shaping for the command-line tool: truncation, aligned tables and
//! content types guessed from file names.
use vstd::prelude::*;
use vstd::string::StrSliceExecFns;
use crate::text::{str_eq, to_owned_string};

verus! {

/// `s` cut to at most `max` characters: unchanged when it fits, otherwise
/// its first `max - 3` characters and `...`; a limit under three leaves
/// room only for that many dots.
pub open spec fn truncated(s: Seq<char>, max: nat) -> Seq<char> {
    if s.len() <= max {
        s
    } else if max >= 3 {
        s.subrange(0, max - 3) + "..."@
    } else {
        "..."@.subrange(0, max as int)
    }
}

/// Truncates a string to at most `max` characters, ending a cut one with
/// `...` (with as many dots as fit when `max` is under three).
pub fn truncate(s: &str, max: usize) -> (r: String)
    ensures
        r@ == truncated(s@, max as nat),
{
    let n = s.unicode_len();
    if n <= max {
        to_owned_string(s)
    } else if max >= 3 {
        let mut r = to_owned_string(s.substring_char(0, max - 3));
        r.append("...");
        r
    } else {
        proof { reveal_strlit("..."); }
        to_owned_string("...".substring_char(0, max))
    }
}

/// A truncated string is never longer than its limit, and ends with `...`
/// whenever it was cut with a limit of at least three.
pub proof fn lemma_truncated_fits(s: Seq<char>, max: nat)
    ensures
        truncated(s, max).len() <= max,
        s.len() > max && max >= 3 ==> truncated(s, max).len() >= 3
            && truncated(s, max).subrange(truncated(s, max).len() - 3, truncated(s, max).len() as int) == "..."@,
{
    reveal_strlit("...");
    if s.len() > max && max >= 3 {
        let t = truncated(s, max);
        assert(t.subrange(t.len() - 3, t.len() as int) =~= "..."@);
    }
}

/// The text after the last `.` of a file name, or the whole name.
pub open spec fn extension(name: Seq<char>) -> Seq<char>
    decreases name.len(),
{
    if name.len() == 0 {
        name
    } else if name.last() == '.' {
        Seq::empty()
    } else {
        extension(name.drop_last()).push(name.last())
    }
}

/// The content type guessed from a file's extension.
pub open spec fn content_type_of_extension(ext: Seq<char>) -> Seq<char> {
    if ext == "json"@ { "application/json"@ }
    else if ext == "txt"@ { "text/plain"@ }
    else if ext == "md"@ { "text/markdown"@ }
    else if ext == "py"@ { "text/x-python"@ }
    else if ext == "toml"@ { "application/toml"@ }
    else if ext == "yaml"@ || ext == "yml"@ { "application/yaml"@ }
    else if ext == "png"@ { "image/png"@ }
    else if ext == "jpg"@ || ext == "jpeg"@ { "image/jpeg"@ }
    else if ext == "pdf"@ { "application/pdf"@ }
    else if ext == "csv"@ { "text/csv"@ }
    else { "application/octet-stream"@ }
}

/// A file name with no `.` is its own extension, so a name such as `json`
/// is typed as JSON, as splitting at the last dot gives.
fn last_segment(filename: &str) -> (r: &str)
    ensures
        r@ == extension(filename@),
{
    let n = filename.unicode_len();
    let mut j: usize = n;
    assert(filename@.subrange(0, n as int) =~= filename@);
    assert(filename@ + filename@.subrange(n as int, n as int) =~= filename@);
    while j > 0 && filename.get_char(j - 1) != '.'
        invariant
            n == filename@.len(),
            j <= n,
            extension(filename@) == extension(filename@.subrange(0, j as int)) + filename@.subrange(j as int, n as int),
        decreases j,
    {
        let ghost p = filename@.subrange(0, j as int);
        assert(p.drop_last() =~= filename@.subrange(0, j - 1));
        assert(filename@.subrange(j - 1, n as int) =~= seq![p.last()] + filename@.subrange(j as int, n as int));
        assert(extension(p) == extension(p.drop_last()).push(p.last()));
        assert(extension(p.drop_last()).push(p.last()) + filename@.subrange(j as int, n as int)
            =~= extension(p.drop_last()) + filename@.subrange(j - 1, n as int));
        j = j - 1;
    }
    proof {
        let p = filename@.subrange(0, j as int);
        if j > 0 {
            assert(p.last() == '.');
        }
        assert(extension(p) =~= Seq::<char>::empty());
    }
    if j == 0 {
        assert(filename@.subrange(0, 0).len() == 0);
    }
    filename.substring_char(j, n)
}

/// The content type an uploaded file is sent with, guessed from its
/// extension; `application/octet-stream` when unknown.
pub fn guess_content_type(filename: &str) -> (r: &'static str)
    ensures
        r@ == content_type_of_extension(extension(filename@)),
{
    let ext = last_segment(filename);
    if str_eq(ext, "json") { "application/json" }
    else if str_eq(ext, "txt") { "text/plain" }
    else if str_eq(ext, "md") { "text/markdown" }
    else if str_eq(ext, "py") { "text/x-python" }
    else if str_eq(ext, "toml") { "application/toml" }
    else if str_eq(ext, "yaml") || str_eq(ext, "yml") { "application/yaml" }
    else if str_eq(ext, "png") { "image/png" }
    else if str_eq(ext, "jpg") || str_eq(ext, "jpeg") { "image/jpeg" }
    else if str_eq(ext, "pdf") { "application/pdf" }
    else if str_eq(ext, "csv") { "text/csv" }
    else { "application/octet-stream" }
}

/// The working directory a domain pack uses when it names none.
pub fn default_working_dir() -> (r: String)
    ensures
        r@ == "."@,
{
    to_owned_string(".")
}

/// `n` spaces.
pub open spec fn spaces(n: int) -> Seq<char> {
    Seq::new(if n > 0 { n as nat } else { 0 }, |i: int| ' ')
}

/// A cell padded on the right with spaces to `width` characters.
pub open spec fn padded(cell: Seq<char>, width: int) -> Seq<char> {
    cell + spaces(width - cell.len())
}

/// The cells of a row, each padded to its column's width, separated by two
/// spaces; columns beyond the shorter of the two lists are left out.
pub open spec fn row_text(cells: Seq<Seq<char>>, widths: Seq<usize>) -> Seq<char>
    decreases cells.len(),
{
    let n = if cells.len() < widths.len() { cells.len() } else { widths.len() };
    if n == 0 {
        Seq::empty()
    } else if n == 1 {
        padded(cells[0], widths[0] as int)
    } else {
        row_text(cells.subrange(0, n - 1), widths.subrange(0, n - 1)) + "  "@
            + padded(cells[n - 1], widths[n - 1] as int)
    }
}

fn pad_cell(out: &mut String, cell: &str, width: usize)
    ensures
        final(out)@ == old(out)@ + padded(cell@, width as int),
{
    out.append(cell);
    let n = cell.unicode_len();
    let mut k: usize = n;
    while k < width
        invariant
            n == cell@.len(),
            n <= k <= width || (k == n && width < n),
            out@ == old(out)@ + cell@ + spaces(k - n),
        decreases width - k,
    {
        out.append(" ");
        proof {
            reveal_strlit(" ");
            assert(spaces(k - n).push(' ') =~= spaces(k + 1 - n));
        }
        k = k + 1;
    }
    proof {
        assert(spaces(k - n) =~= spaces(width - n));
    }
}

/// One row of a table: the cells padded to the column widths and joined
/// with two spaces.
pub fn format_row(cells: &[String], widths: &[usize]) -> (r: String)
    ensures
        r@ == row_text(cells@.map_values(|c: String| c@), widths@),
{
    let n = if cells.len() < widths.len() { cells.len() } else { widths.len() };
    let ghost views = cells@.map_values(|c: String| c@);
    let mut out = String::new();
    let mut i: usize = 0;
    while i < n
        invariant
            n <= cells@.len(),
            n <= widths@.len(),
            n == (if cells@.len() < widths@.len() { cells@.len() } else { widths@.len() }),
            views == cells@.map_values(|c: String| c@),
            i <= n,
            out@ == row_text(views.subrange(0, i as int), widths@.subrange(0, i as int)),
        decreases n - i,
    {
        let ghost vs = views.subrange(0, i + 1);
        let ghost ws = widths@.subrange(0, i + 1);
        assert(vs.subrange(0, i as int) =~= views.subrange(0, i as int));
        assert(ws.subrange(0, i as int) =~= widths@.subrange(0, i as int));
        assert(vs[i as int] == cells@[i as int]@);
        if i > 0 {
            out.append("  ");
        }
        pad_cell(&mut out, cells[i].as_str(), widths[i]);
        proof {
            reveal_strlit("  ");
            if i == 0 {
                assert(views.subrange(0, 0).len() == 0);
            }
        }
        i = i + 1;
    }
    proof {
        let m = if views.len() < widths@.len() { views.len() } else { widths@.len() };
        assert(m == n);
        if n < views.len() || n < widths@.len() {
            lemma_row_text_prefix(views, widths@);
        } else {
            assert(views.subrange(0, n as int) =~= views);
            assert(widths@.subrange(0, n as int) =~= widths@);
        }
    }
    out
}

proof fn lemma_row_text_prefix(cells: Seq<Seq<char>>, widths: Seq<usize>)
    ensures
        ({
            let n = if cells.len() < widths.len() { cells.len() } else { widths.len() };
            row_text(cells, widths) == row_text(cells.subrange(0, n as int), widths.subrange(0, n as int))
        }),
{
    let n = if cells.len() < widths.len() { cells.len() } else { widths.len() };
    let c = cells.subrange(0, n as int);
    let w = widths.subrange(0, n as int);
    if n >= 2 {
        assert(c.subrange(0, n - 1) =~= cells.subrange(0, n - 1));
        assert(w.subrange(0, n - 1) =~= widths.subrange(0, n - 1));
    }
}

/// The width of each column: the byte length of its header, widened to
/// the longest cell (in characters) below it; cells beyond the headers are
/// ignored.
pub open spec fn column_width(headers: Seq<&str>, rows: Seq<Vec<String>>, col: int, upto: int) -> int
    decreases upto,
{
    if upto <= 0 {
        crate::text::byte_len(headers[col]@) as int
    } else {
        let prev = column_width(headers, rows, col, upto - 1);
        let row = rows[upto - 1]@;
        if col < row.len() && row[col]@.len() > prev { row[col]@.len() as int } else { prev }
    }
}

/// The column widths of a table.
pub fn column_widths(headers: &[&str], rows: &[Vec<String>]) -> (r: Vec<usize>)
    requires
        forall|k: int, c: int| 0 <= k < rows@.len() && 0 <= c < rows@[k]@.len()
            ==> (#[trigger] rows@[k]@[c])@.len() <= usize::MAX,
    ensures
        r@.len() == headers@.len(),
        forall|c: int| 0 <= c < r@.len() ==> r@[c] == column_width(headers@, rows@, c, rows@.len() as int),
{
    let mut widths: Vec<usize> = Vec::new();
    let mut c: usize = 0;
    while c < headers.len()
        invariant
            c <= headers@.len(),
            widths@.len() == c,
            forall|q: int| 0 <= q < c ==> widths@[q] == column_width(headers@, rows@, q, 0),
        decreases headers@.len() - c,
    {
        widths.push(headers[c].as_bytes().len());
        c = c + 1;
    }
    let mut k: usize = 0;
    while k < rows.len()
        invariant
            k <= rows@.len(),
            widths@.len() == headers@.len(),
            forall|a: int, b: int| 0 <= a < rows@.len() && 0 <= b < rows@[a]@.len()
                ==> (#[trigger] rows@[a]@[b])@.len() <= usize::MAX,
            forall|q: int| 0 <= q < widths@.len() ==> widths@[q] == column_width(headers@, rows@, q, k as int),
        decreases rows@.len() - k,
    {
        let row = &rows[k];
        let mut i: usize = 0;
        while i < widths.len()
            invariant
                k < rows@.len(),
                *row == rows@[k as int],
                i <= widths@.len(),
                widths@.len() == headers@.len(),
                forall|a: int, b: int| 0 <= a < rows@.len() && 0 <= b < rows@[a]@.len()
                    ==> (#[trigger] rows@[a]@[b])@.len() <= usize::MAX,
                forall|q: int| 0 <= q < i ==> widths@[q] == column_width(headers@, rows@, q, k + 1),
                forall|q: int| i <= q < widths@.len() ==> widths@[q] == column_width(headers@, rows@, q, k as int),
            decreases widths@.len() - i,
        {
            if i < row.len() {
                let w = row[i].as_str().unicode_len();
                let cur = widths[i];
                if w > cur {
                    widths.set(i, w);
                }
            }
            i = i + 1;
        }
        k = k + 1;
    }
    widths
}

/// `n` box-drawing rules, the separator under a column of width `n`.
pub open spec fn rule(n: nat) -> Seq<char> {
    Seq::new(n, |i: int| '─')
}

/// The lines of a table: the header row, a rule under each column, then
/// one line per row.
pub fn table_lines(headers: &[&str], rows: &[Vec<String>]) -> (r: Vec<String>)
    requires
        forall|k: int, c: int| 0 <= k < rows@.len() && 0 <= c < rows@[k]@.len()
            ==> (#[trigger] rows@[k]@[c])@.len() <= usize::MAX,
    ensures
        r@.len() == rows@.len() + 2,
        ({
            let widths = Seq::new(headers@.len(), |c: int| column_width(headers@, rows@, c, rows@.len() as int) as usize);
            &&& r@[0]@ == row_text(headers@.map_values(|h: &str| h@), widths)
            &&& r@[1]@ == row_text(widths.map_values(|w: usize| rule(w as nat)), widths)
            &&& forall|k: int| 0 <= k < rows@.len() ==> (#[trigger] r@[k + 2])@
                == row_text(rows@[k]@.map_values(|c: String| c@), widths)
        }),
{
    let widths = column_widths(headers, rows);
    let ghost wspec = Seq::new(headers@.len(), |c: int| column_width(headers@, rows@, c, rows@.len() as int) as usize);
    assert(widths@ =~= wspec);
    let mut header_cells: Vec<String> = Vec::new();
    let mut sep_cells: Vec<String> = Vec::new();
    let mut c: usize = 0;
    while c < headers.len()
        invariant
            c <= headers@.len(),
            widths@.len() == headers@.len(),
            header_cells@.len() == c,
            sep_cells@.len() == c,
            forall|q: int| 0 <= q < c ==> (#[trigger] header_cells@[q])@ == headers@[q]@,
            forall|q: int| 0 <= q < c ==> (#[trigger] sep_cells@[q])@ == rule(widths@[q] as nat),
        decreases headers@.len() - c,
    {
        header_cells.push(to_owned_string(headers[c]));
        let mut s = String::new();
        let mut j: usize = 0;
        while j < widths[c]
            invariant
                c < widths@.len(),
                j <= widths@[c as int],
                s@ == rule(j as nat),
            decreases widths@[c as int] - j,
        {
            s.append("─");
            proof {
                reveal_strlit("─");
                assert(rule(j as nat).push('─') =~= rule((j + 1) as nat));
            }
            j = j + 1;
        }
        sep_cells.push(s);
        c = c + 1;
    }
    assert(header_cells@.map_values(|h: String| h@) =~= headers@.map_values(|h: &str| h@));
    assert(sep_cells@.map_values(|h: String| h@) =~= widths@.map_values(|w: usize| rule(w as nat)));
    let mut out: Vec<String> = Vec::new();
    out.push(format_row(header_cells.as_slice(), widths.as_slice()));
    out.push(format_row(sep_cells.as_slice(), widths.as_slice()));
    let mut k: usize = 0;
    while k < rows.len()
        invariant
            k <= rows@.len(),
            widths@ == wspec,
            out@.len() == k + 2,
            out@[0]@ == row_text(headers@.map_values(|h: &str| h@), wspec),
            out@[1]@ == row_text(wspec.map_values(|w: usize| rule(w as nat)), wspec),
            forall|q: int| 0 <= q < k ==> (#[trigger] out@[q + 2])@ == row_text(rows@[q]@.map_values(|c: String| c@), wspec),
        decreases rows@.len() - k,
    {
        out.push(format_row(rows[k].as_slice(), widths.as_slice()));
        k = k + 1;
    }
    out
}

} // verus!
