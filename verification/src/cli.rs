//! The command-line grammar of the `asenix` tool: subcommands, long and
//! short options, positional arguments, defaults and the `ASENIX_HUB`
//! environment default for `--hub`.
use vstd::prelude::*;
use crate::text::{str_eq, to_owned_string};

verus! {

// ───────────────────────── parsed commands ─────────────────────────

/// A parsed command line.
#[derive(Debug)]
pub struct Cli {
    pub command: Commands,
}

/// Top-level commands.
#[derive(Debug)]
pub enum Commands {
    Up,
    Down,
    Status { hub: String },
    Agent { subcommand: AgentCommands },
    Domain { subcommand: DomainCommands },
    Bounty { subcommand: BountyCommands },
    Queue { hub: String },
    Login { hub: String },
    Logs { n: Option<usize> },
    Reset { hub: String },
    Project { subcommand: ProjectCommands },
}

/// `asenix agent ...`
#[derive(Debug)]
pub enum AgentCommands {
    Run { hub: String, project: String, n: usize },
    Stop { project: Option<String>, n: Option<usize> },
    List,
}

/// `asenix project ...`
#[derive(Debug)]
pub enum ProjectCommands {
    Create { hub: String, name: String, slug: String, description: Option<String> },
    List { hub: String },
    Show { hub: String, slug: String },
    Delete { hub: String, slug: String },
    Protocol { subcommand: ProtocolCommands },
    Files { subcommand: FilesCommands },
    Requirements { subcommand: RequirementsCommands },
    SeedBounty { subcommand: SeedBountyCommands },
}

/// `asenix project protocol ...`
#[derive(Debug)]
pub enum ProtocolCommands {
    SetValue { hub: String, slug: String, file: Option<String> },
    Show { hub: String, slug: String },
}

/// `asenix project files ...`
#[derive(Debug)]
pub enum FilesCommands {
    Upload { hub: String, slug: String, filepath: String, name: Option<String> },
    List { hub: String, slug: String },
    Download { hub: String, slug: String, filename: String, out: Option<String> },
    Delete { hub: String, slug: String, filename: String },
}

/// `asenix project requirements ...`
#[derive(Debug)]
pub enum RequirementsCommands {
    SetValue { hub: String, slug: String, file: Option<String> },
    Show { hub: String, slug: String },
}

/// `asenix project seed-bounty ...`
#[derive(Debug)]
pub enum SeedBountyCommands {
    SetValue { hub: String, slug: String, file: Option<String> },
    Show { hub: String, slug: String },
}

/// `asenix domain ...`
#[derive(Debug)]
pub enum DomainCommands {
    Install { path: String },
    List,
}

/// `asenix bounty ...`
#[derive(Debug)]
pub enum BountyCommands {
    Post { hub: String, domain: String },
    List { hub: String, domain: Option<String> },
}

/// Why a command line was not accepted. `DisplayHelp` and `DisplayVersion`
/// ask for the help text or the version instead of a command.
#[derive(Debug, Clone, Copy, PartialEq, Eq, Structural)]
pub enum CliErrorKind {
    DisplayHelp,
    DisplayVersion,
    MissingSubcommand,
    InvalidSubcommand,
    UnknownArgument,
    MissingRequiredArgument,
    ArgumentConflict,
    InvalidValue,
}

// ───────────────────────── the abstract command ─────────────────────────

/// A parsed command with its values as character sequences.
pub ghost enum CmdModel {
    Up,
    Down,
    Status { hub: Seq<char> },
    AgentRun { hub: Seq<char>, project: Seq<char>, n: usize },
    AgentStop { project: Option<Seq<char>>, n: Option<usize> },
    AgentList,
    DomainInstall { path: Seq<char> },
    DomainList,
    BountyPost { hub: Seq<char>, domain: Seq<char> },
    BountyList { hub: Seq<char>, domain: Option<Seq<char>> },
    Queue { hub: Seq<char> },
    Login { hub: Seq<char> },
    Logs { n: Option<usize> },
    Reset { hub: Seq<char> },
    ProjectCreate { hub: Seq<char>, name: Seq<char>, slug: Seq<char>, description: Option<Seq<char>> },
    ProjectList { hub: Seq<char> },
    ProjectShow { hub: Seq<char>, slug: Seq<char> },
    ProjectDelete { hub: Seq<char>, slug: Seq<char> },
    ProtocolSet { hub: Seq<char>, slug: Seq<char>, file: Option<Seq<char>> },
    ProtocolShow { hub: Seq<char>, slug: Seq<char> },
    FilesUpload { hub: Seq<char>, slug: Seq<char>, filepath: Seq<char>, name: Option<Seq<char>> },
    FilesList { hub: Seq<char>, slug: Seq<char> },
    FilesDownload { hub: Seq<char>, slug: Seq<char>, filename: Seq<char>, out: Option<Seq<char>> },
    FilesDelete { hub: Seq<char>, slug: Seq<char>, filename: Seq<char> },
    RequirementsSet { hub: Seq<char>, slug: Seq<char>, file: Option<Seq<char>> },
    RequirementsShow { hub: Seq<char>, slug: Seq<char> },
    SeedBountySet { hub: Seq<char>, slug: Seq<char>, file: Option<Seq<char>> },
    SeedBountyShow { hub: Seq<char>, slug: Seq<char> },
}

/// The character sequence inside an optional string.
pub open spec fn opt_view(o: Option<String>) -> Option<Seq<char>> {
    match o {
        Some(s) => Some(s@),
        None => None,
    }
}

impl View for Commands {
    type V = CmdModel;

    open spec fn view(&self) -> CmdModel {
        match self {
            Commands::Up => CmdModel::Up,
            Commands::Down => CmdModel::Down,
            Commands::Status { hub } => CmdModel::Status { hub: hub@ },
            Commands::Agent { subcommand } => match subcommand {
                AgentCommands::Run { hub, project, n } => CmdModel::AgentRun { hub: hub@, project: project@, n: *n },
                AgentCommands::Stop { project, n } => CmdModel::AgentStop { project: opt_view(*project), n: *n },
                AgentCommands::List => CmdModel::AgentList,
            },
            Commands::Domain { subcommand } => match subcommand {
                DomainCommands::Install { path } => CmdModel::DomainInstall { path: path@ },
                DomainCommands::List => CmdModel::DomainList,
            },
            Commands::Bounty { subcommand } => match subcommand {
                BountyCommands::Post { hub, domain } => CmdModel::BountyPost { hub: hub@, domain: domain@ },
                BountyCommands::List { hub, domain } => CmdModel::BountyList { hub: hub@, domain: opt_view(*domain) },
            },
            Commands::Queue { hub } => CmdModel::Queue { hub: hub@ },
            Commands::Login { hub } => CmdModel::Login { hub: hub@ },
            Commands::Logs { n } => CmdModel::Logs { n: *n },
            Commands::Reset { hub } => CmdModel::Reset { hub: hub@ },
            Commands::Project { subcommand } => match subcommand {
                ProjectCommands::Create { hub, name, slug, description } => CmdModel::ProjectCreate {
                    hub: hub@, name: name@, slug: slug@, description: opt_view(*description) },
                ProjectCommands::List { hub } => CmdModel::ProjectList { hub: hub@ },
                ProjectCommands::Show { hub, slug } => CmdModel::ProjectShow { hub: hub@, slug: slug@ },
                ProjectCommands::Delete { hub, slug } => CmdModel::ProjectDelete { hub: hub@, slug: slug@ },
                ProjectCommands::Protocol { subcommand } => match subcommand {
                    ProtocolCommands::SetValue { hub, slug, file } => CmdModel::ProtocolSet { hub: hub@, slug: slug@, file: opt_view(*file) },
                    ProtocolCommands::Show { hub, slug } => CmdModel::ProtocolShow { hub: hub@, slug: slug@ },
                },
                ProjectCommands::Files { subcommand } => match subcommand {
                    FilesCommands::Upload { hub, slug, filepath, name } => CmdModel::FilesUpload {
                        hub: hub@, slug: slug@, filepath: filepath@, name: opt_view(*name) },
                    FilesCommands::List { hub, slug } => CmdModel::FilesList { hub: hub@, slug: slug@ },
                    FilesCommands::Download { hub, slug, filename, out } => CmdModel::FilesDownload {
                        hub: hub@, slug: slug@, filename: filename@, out: opt_view(*out) },
                    FilesCommands::Delete { hub, slug, filename } => CmdModel::FilesDelete {
                        hub: hub@, slug: slug@, filename: filename@ },
                },
                ProjectCommands::Requirements { subcommand } => match subcommand {
                    RequirementsCommands::SetValue { hub, slug, file } => CmdModel::RequirementsSet { hub: hub@, slug: slug@, file: opt_view(*file) },
                    RequirementsCommands::Show { hub, slug } => CmdModel::RequirementsShow { hub: hub@, slug: slug@ },
                },
                ProjectCommands::SeedBounty { subcommand } => match subcommand {
                    SeedBountyCommands::SetValue { hub, slug, file } => CmdModel::SeedBountySet { hub: hub@, slug: slug@, file: opt_view(*file) },
                    SeedBountyCommands::Show { hub, slug } => CmdModel::SeedBountyShow { hub: hub@, slug: slug@ },
                },
            },
        }
    }
}

// ───────────────────────── the grammar ─────────────────────────

/// Commands that take no further subcommand.
#[derive(Debug, Clone, Copy, PartialEq, Eq, Structural)]
pub enum LeafKind {
    Up, Down, Status, AgentRun, AgentStop, AgentList, DomainInstall, DomainList,
    BountyPost, BountyList, Queue, Login, Logs, Reset,
    ProjectCreate, ProjectList, ProjectShow, ProjectDelete,
    ProtocolSet, ProtocolShow, FilesUpload, FilesList, FilesDownload, FilesDelete,
    RequirementsSet, RequirementsShow, SeedBountySet, SeedBountyShow,
}

/// Commands that take a subcommand.
#[derive(Debug, Clone, Copy, PartialEq, Eq, Structural)]
pub enum GroupKind {
    Top, Agent, Domain, Bounty, Project, Protocol, Files, Requirements, SeedBounty,
}

/// What a subcommand name leads to.
#[derive(Debug, Clone, Copy, PartialEq, Eq, Structural)]
pub enum Node {
    Leaf(LeafKind),
    Group(GroupKind),
}

/// The subcommand of `g` named `x`.
pub open spec fn child(g: GroupKind, x: Seq<char>) -> Option<Node> {
    match g {
        GroupKind::Top =>
            if x == "up"@ { Some(Node::Leaf(LeafKind::Up)) }
            else if x == "down"@ { Some(Node::Leaf(LeafKind::Down)) }
            else if x == "status"@ { Some(Node::Leaf(LeafKind::Status)) }
            else if x == "agent"@ { Some(Node::Group(GroupKind::Agent)) }
            else if x == "domain"@ { Some(Node::Group(GroupKind::Domain)) }
            else if x == "bounty"@ { Some(Node::Group(GroupKind::Bounty)) }
            else if x == "queue"@ { Some(Node::Leaf(LeafKind::Queue)) }
            else if x == "login"@ { Some(Node::Leaf(LeafKind::Login)) }
            else if x == "logs"@ { Some(Node::Leaf(LeafKind::Logs)) }
            else if x == "reset"@ { Some(Node::Leaf(LeafKind::Reset)) }
            else if x == "project"@ { Some(Node::Group(GroupKind::Project)) }
            else { None },
        GroupKind::Agent =>
            if x == "run"@ { Some(Node::Leaf(LeafKind::AgentRun)) }
            else if x == "stop"@ { Some(Node::Leaf(LeafKind::AgentStop)) }
            else if x == "list"@ { Some(Node::Leaf(LeafKind::AgentList)) }
            else { None },
        GroupKind::Domain =>
            if x == "install"@ { Some(Node::Leaf(LeafKind::DomainInstall)) }
            else if x == "list"@ { Some(Node::Leaf(LeafKind::DomainList)) }
            else { None },
        GroupKind::Bounty =>
            if x == "post"@ { Some(Node::Leaf(LeafKind::BountyPost)) }
            else if x == "list"@ { Some(Node::Leaf(LeafKind::BountyList)) }
            else { None },
        GroupKind::Project =>
            if x == "create"@ { Some(Node::Leaf(LeafKind::ProjectCreate)) }
            else if x == "list"@ { Some(Node::Leaf(LeafKind::ProjectList)) }
            else if x == "show"@ { Some(Node::Leaf(LeafKind::ProjectShow)) }
            else if x == "delete"@ { Some(Node::Leaf(LeafKind::ProjectDelete)) }
            else if x == "protocol"@ { Some(Node::Group(GroupKind::Protocol)) }
            else if x == "files"@ { Some(Node::Group(GroupKind::Files)) }
            else if x == "requirements"@ { Some(Node::Group(GroupKind::Requirements)) }
            else if x == "seed-bounty"@ { Some(Node::Group(GroupKind::SeedBounty)) }
            else { None },
        GroupKind::Protocol =>
            if x == "set"@ { Some(Node::Leaf(LeafKind::ProtocolSet)) }
            else if x == "show"@ { Some(Node::Leaf(LeafKind::ProtocolShow)) }
            else { None },
        GroupKind::Files =>
            if x == "upload"@ { Some(Node::Leaf(LeafKind::FilesUpload)) }
            else if x == "list"@ { Some(Node::Leaf(LeafKind::FilesList)) }
            else if x == "download"@ { Some(Node::Leaf(LeafKind::FilesDownload)) }
            else if x == "delete"@ { Some(Node::Leaf(LeafKind::FilesDelete)) }
            else { None },
        GroupKind::Requirements =>
            if x == "set"@ { Some(Node::Leaf(LeafKind::RequirementsSet)) }
            else if x == "show"@ { Some(Node::Leaf(LeafKind::RequirementsShow)) }
            else { None },
        GroupKind::SeedBounty =>
            if x == "set"@ { Some(Node::Leaf(LeafKind::SeedBountySet)) }
            else if x == "show"@ { Some(Node::Leaf(LeafKind::SeedBountyShow)) }
            else { None },
    }
}

/// A token that asks for help.
pub open spec fn is_help_token(x: Seq<char>) -> bool {
    x == "-h"@ || x == "--help"@
}

/// A token that looks like an option (a dash followed by something).
pub open spec fn looks_like_flag(x: Seq<char>) -> bool {
    x.len() >= 2 && x[0] == '-'
}

/// Follows subcommand names from position `i` of `toks`, starting in group
/// `g`: the command reached and the position of its first argument.
pub open spec fn resolve(toks: Seq<Seq<char>>, i: nat, g: GroupKind) -> Result<(LeafKind, nat), CliErrorKind>
    decreases toks.len() - i,
{
    if i >= toks.len() {
        Err(CliErrorKind::MissingSubcommand)
    } else {
        let x = toks[i as int];
        if is_help_token(x) || x == "help"@ {
            Err(CliErrorKind::DisplayHelp)
        } else if g == GroupKind::Top && (x == "-V"@ || x == "--version"@) {
            Err(CliErrorKind::DisplayVersion)
        } else {
            match child(g, x) {
                Some(Node::Leaf(k)) => Ok((k, i + 1)),
                Some(Node::Group(g2)) => resolve(toks, i + 1, g2),
                None => if looks_like_flag(x) {
                    Err(CliErrorKind::UnknownArgument)
                } else {
                    Err(CliErrorKind::InvalidSubcommand)
                },
            }
        }
    }
}

/// An option: its long name and, for some, a one-letter short name.
pub type OptDesc = (Seq<char>, Option<char>);

/// The options of each command, in a fixed order; `--hub`, where present,
/// comes first.
pub open spec fn leaf_opts(k: LeafKind) -> Seq<OptDesc> {
    let hub: OptDesc = ("hub"@, None);
    match k {
        LeafKind::Status | LeafKind::Queue | LeafKind::Login | LeafKind::Reset
        | LeafKind::ProjectList | LeafKind::ProjectShow | LeafKind::ProjectDelete
        | LeafKind::ProtocolShow | LeafKind::FilesList | LeafKind::FilesDelete
        | LeafKind::RequirementsShow | LeafKind::SeedBountyShow => seq![hub],
        LeafKind::AgentRun => seq![hub, ("project"@, None), ("n"@, Some('n'))],
        LeafKind::AgentStop => seq![("project"@, None), ("n"@, Some('n'))],
        LeafKind::BountyPost | LeafKind::BountyList => seq![hub, ("domain"@, None)],
        LeafKind::ProjectCreate => seq![hub, ("name"@, None), ("slug"@, None), ("description"@, None)],
        LeafKind::ProtocolSet | LeafKind::RequirementsSet | LeafKind::SeedBountySet => seq![hub, ("file"@, None)],
        LeafKind::FilesUpload => seq![hub, ("name"@, None)],
        LeafKind::FilesDownload => seq![hub, ("out"@, None)],
        _ => Seq::empty(),
    }
}

/// How many positional arguments each command takes.
pub open spec fn leaf_npos(k: LeafKind) -> nat {
    match k {
        LeafKind::Logs | LeafKind::DomainInstall | LeafKind::ProjectShow | LeafKind::ProjectDelete
        | LeafKind::ProtocolSet | LeafKind::ProtocolShow | LeafKind::FilesList
        | LeafKind::RequirementsSet | LeafKind::RequirementsShow
        | LeafKind::SeedBountySet | LeafKind::SeedBountyShow => 1,
        LeafKind::FilesUpload | LeafKind::FilesDownload | LeafKind::FilesDelete => 2,
        _ => 0,
    }
}

/// Options and positional arguments collected so far.
pub ghost struct ScanState {
    pub vals: Seq<Option<Seq<char>>>,
    pub pos: Seq<Seq<char>>,
    pub raw: bool,
}

/// Index of the first `=` at or after `from`, or -1.
pub open spec fn first_eq(s: Seq<char>, from: int) -> int
    decreases s.len() - from,
{
    if from >= s.len() || from < 0 {
        -1
    } else if s[from] == '=' {
        from
    } else {
        first_eq(s, from + 1)
    }
}

/// Index of the first option from `k` on with long name `name`, or -1.
pub open spec fn find_long(opts: Seq<OptDesc>, name: Seq<char>, k: int) -> int
    decreases opts.len() - k,
{
    if k >= opts.len() || k < 0 {
        -1
    } else if opts[k].0 == name {
        k
    } else {
        find_long(opts, name, k + 1)
    }
}

/// Index of the first option from `k` on with short name `c`, or -1.
pub open spec fn find_short(opts: Seq<OptDesc>, c: char, k: int) -> int
    decreases opts.len() - k,
{
    if k >= opts.len() || k < 0 {
        -1
    } else if opts[k].1 == Some(c) {
        k
    } else {
        find_short(opts, c, k + 1)
    }
}

/// Records the value of option `k`, or takes the next token as the value.
pub open spec fn take_value(toks: Seq<Seq<char>>, opts: Seq<OptDesc>, npos: nat, i: nat, st: ScanState, k: int, inline: Option<Seq<char>>) -> Result<ScanState, CliErrorKind>
    decreases toks.len() - i, 0nat,
{
    if i >= toks.len() || k < 0 || k >= st.vals.len() {
        Err(CliErrorKind::UnknownArgument)
    } else if st.vals[k] is Some {
        Err(CliErrorKind::ArgumentConflict)
    } else {
        match inline {
            Some(v) => scan(toks, opts, npos, i + 1, ScanState { vals: st.vals.update(k, Some(v)), ..st }),
            None => if i + 1 < toks.len() && !looks_like_flag(toks[i + 1 as int]) {
                scan(toks, opts, npos, i + 2, ScanState { vals: st.vals.update(k, Some(toks[i + 1 as int])), ..st })
            } else {
                Err(CliErrorKind::InvalidValue)
            },
        }
    }
}

/// Reads the arguments of a command from position `i` on.
pub open spec fn scan(toks: Seq<Seq<char>>, opts: Seq<OptDesc>, npos: nat, i: nat, st: ScanState) -> Result<ScanState, CliErrorKind>
    decreases toks.len() - i, 1nat,
{
    if i >= toks.len() {
        Ok(st)
    } else {
        let t = toks[i as int];
        if st.raw || !looks_like_flag(t) {
            if st.pos.len() < npos {
                scan(toks, opts, npos, i + 1, ScanState { pos: st.pos.push(t), ..st })
            } else {
                Err(CliErrorKind::UnknownArgument)
            }
        } else if t == "--"@ {
            scan(toks, opts, npos, i + 1, ScanState { raw: true, ..st })
        } else if is_help_token(t) {
            Err(CliErrorKind::DisplayHelp)
        } else if t[1] == '-' {
            let e = first_eq(t, 2);
            let name = if e < 0 { t.subrange(2, t.len() as int) } else { t.subrange(2, e) };
            let inline = if e < 0 { None } else { Some(t.subrange(e + 1, t.len() as int)) };
            take_value(toks, opts, npos, i, st, find_long(opts, name, 0), inline)
        } else {
            let rest = t.subrange(2, t.len() as int);
            let inline = if rest.len() == 0 { None } else if rest[0] == '=' { Some(rest.drop_first()) } else { Some(rest) };
            take_value(toks, opts, npos, i, st, find_short(opts, t[1], 0), inline)
        }
    }
}

/// Value of a string of decimal digits.
pub open spec fn digits_val(s: Seq<char>) -> nat
    decreases s.len(),
{
    if s.len() == 0 {
        0
    } else {
        digits_val(s.drop_last()) * 10 + ((s.last() as nat) - ('0' as nat)) as nat
    }
}

/// All characters are decimal digits, and there is at least one.
pub open spec fn all_digits(s: Seq<char>) -> bool {
    s.len() > 0 && forall|i: int| 0 <= i < s.len() ==> '0' <= #[trigger] s[i] <= '9'
}

/// A `usize` written in decimal, with an optional leading `+`.
pub open spec fn spec_parse_usize(s: Seq<char>) -> Option<usize> {
    let d = if s.len() > 0 && s[0] == '+' { s.drop_first() } else { s };
    if all_digits(d) && digits_val(d) <= usize::MAX {
        Some(digits_val(d) as usize)
    } else {
        None
    }
}

/// The default hub address.
pub open spec fn default_hub() -> Seq<char> {
    "http://localhost:3000"@
}

/// The hub: the `--hub` value, else the environment's, else the default.
pub open spec fn hub_value(v: Option<Seq<char>>, env: Option<Seq<char>>) -> Seq<char> {
    match v {
        Some(h) => h,
        None => match env {
            Some(e) => e,
            None => default_hub(),
        },
    }
}

/// The command built from its collected arguments.
pub open spec fn build(k: LeafKind, st: ScanState, env: Option<Seq<char>>) -> Result<CmdModel, CliErrorKind> {
    let v = st.vals;
    let p = st.pos;
    let hub = hub_value(v[0], env);
    match k {
        LeafKind::Up => Ok(CmdModel::Up),
        LeafKind::Down => Ok(CmdModel::Down),
        LeafKind::Status => Ok(CmdModel::Status { hub }),
        LeafKind::Queue => Ok(CmdModel::Queue { hub }),
        LeafKind::Login => Ok(CmdModel::Login { hub }),
        LeafKind::Reset => Ok(CmdModel::Reset { hub }),
        LeafKind::AgentRun =>
            if v[1] is None {
                Err(CliErrorKind::MissingRequiredArgument)
            } else {
                match v[2] {
                    None => Ok(CmdModel::AgentRun { hub, project: v[1]->0, n: 1 }),
                    Some(t) => match spec_parse_usize(t) {
                        Some(n) => Ok(CmdModel::AgentRun { hub, project: v[1]->0, n }),
                        None => Err(CliErrorKind::InvalidValue),
                    },
                }
            },
        LeafKind::AgentStop =>
            match v[1] {
                None => Ok(CmdModel::AgentStop { project: v[0], n: None }),
                Some(t) => match spec_parse_usize(t) {
                    Some(n) => Ok(CmdModel::AgentStop { project: v[0], n: Some(n) }),
                    None => Err(CliErrorKind::InvalidValue),
                },
            },
        LeafKind::AgentList => Ok(CmdModel::AgentList),
        LeafKind::DomainInstall =>
            if p.len() < 1 { Err(CliErrorKind::MissingRequiredArgument) }
            else { Ok(CmdModel::DomainInstall { path: p[0] }) },
        LeafKind::DomainList => Ok(CmdModel::DomainList),
        LeafKind::BountyPost => Ok(CmdModel::BountyPost {
            hub,
            domain: match v[1] { Some(d) => d, None => "general"@ },
        }),
        LeafKind::BountyList => Ok(CmdModel::BountyList { hub, domain: v[1] }),
        LeafKind::Logs =>
            if p.len() < 1 {
                Ok(CmdModel::Logs { n: None })
            } else {
                match spec_parse_usize(p[0]) {
                    Some(n) => Ok(CmdModel::Logs { n: Some(n) }),
                    None => Err(CliErrorKind::InvalidValue),
                }
            },
        LeafKind::ProjectCreate =>
            if v[1] is None || v[2] is None { Err(CliErrorKind::MissingRequiredArgument) }
            else { Ok(CmdModel::ProjectCreate { hub, name: v[1]->0, slug: v[2]->0, description: v[3] }) },
        LeafKind::ProjectList => Ok(CmdModel::ProjectList { hub }),
        LeafKind::ProjectShow =>
            if p.len() < 1 { Err(CliErrorKind::MissingRequiredArgument) }
            else { Ok(CmdModel::ProjectShow { hub, slug: p[0] }) },
        LeafKind::ProjectDelete =>
            if p.len() < 1 { Err(CliErrorKind::MissingRequiredArgument) }
            else { Ok(CmdModel::ProjectDelete { hub, slug: p[0] }) },
        LeafKind::ProtocolSet =>
            if p.len() < 1 { Err(CliErrorKind::MissingRequiredArgument) }
            else { Ok(CmdModel::ProtocolSet { hub, slug: p[0], file: v[1] }) },
        LeafKind::ProtocolShow =>
            if p.len() < 1 { Err(CliErrorKind::MissingRequiredArgument) }
            else { Ok(CmdModel::ProtocolShow { hub, slug: p[0] }) },
        LeafKind::RequirementsSet =>
            if p.len() < 1 { Err(CliErrorKind::MissingRequiredArgument) }
            else { Ok(CmdModel::RequirementsSet { hub, slug: p[0], file: v[1] }) },
        LeafKind::RequirementsShow =>
            if p.len() < 1 { Err(CliErrorKind::MissingRequiredArgument) }
            else { Ok(CmdModel::RequirementsShow { hub, slug: p[0] }) },
        LeafKind::SeedBountySet =>
            if p.len() < 1 { Err(CliErrorKind::MissingRequiredArgument) }
            else { Ok(CmdModel::SeedBountySet { hub, slug: p[0], file: v[1] }) },
        LeafKind::SeedBountyShow =>
            if p.len() < 1 { Err(CliErrorKind::MissingRequiredArgument) }
            else { Ok(CmdModel::SeedBountyShow { hub, slug: p[0] }) },
        LeafKind::FilesUpload =>
            if p.len() < 2 { Err(CliErrorKind::MissingRequiredArgument) }
            else { Ok(CmdModel::FilesUpload { hub, slug: p[0], filepath: p[1], name: v[1] }) },
        LeafKind::FilesList =>
            if p.len() < 1 { Err(CliErrorKind::MissingRequiredArgument) }
            else { Ok(CmdModel::FilesList { hub, slug: p[0] }) },
        LeafKind::FilesDownload =>
            if p.len() < 2 { Err(CliErrorKind::MissingRequiredArgument) }
            else { Ok(CmdModel::FilesDownload { hub, slug: p[0], filename: p[1], out: v[1] }) },
        LeafKind::FilesDelete =>
            if p.len() < 2 { Err(CliErrorKind::MissingRequiredArgument) }
            else { Ok(CmdModel::FilesDelete { hub, slug: p[0], filename: p[1] }) },
    }
}

/// No option given yet, no positional argument yet.
pub open spec fn initial_state(nopts: nat) -> ScanState {
    ScanState { vals: Seq::new(nopts, |i: int| None::<Seq<char>>), pos: Seq::empty(), raw: false }
}

/// The meaning of a whole command line (`args[0]` is the program name),
/// with `env` the value of `ASENIX_HUB` if it is set.
pub open spec fn spec_parse(args: Seq<Seq<char>>, env: Option<Seq<char>>) -> Result<CmdModel, CliErrorKind> {
    let toks = if args.len() == 0 { args } else { args.drop_first() };
    match resolve(toks, 0, GroupKind::Top) {
        Err(e) => Err(e),
        Ok((k, i)) => match scan(toks, leaf_opts(k), leaf_npos(k), i, initial_state(leaf_opts(k).len())) {
            Err(e) => Err(e),
            Ok(st) => build(k, st, env),
        },
    }
}


/// `project create` takes the value given to `--name` as the project's
/// name and the value given to `--slug` as its slug, whichever of the two
/// comes first; without `--hub` (and no `ASENIX_HUB`) the default hub is
/// used, and without `--description` there is none.
pub proof fn lemma_project_create_options(prog: Seq<char>, name: Seq<char>, slug: Seq<char>)
    requires
        !looks_like_flag(name),
        !looks_like_flag(slug),
    ensures
        spec_parse(seq![prog, "project"@, "create"@, "--name"@, name, "--slug"@, slug], None)
            == Ok::<CmdModel, CliErrorKind>(CmdModel::ProjectCreate { hub: default_hub(), name, slug, description: None }),
        spec_parse(seq![prog, "project"@, "create"@, "--slug"@, slug, "--name"@, name], None)
            == Ok::<CmdModel, CliErrorKind>(CmdModel::ProjectCreate { hub: default_hub(), name, slug, description: None }),
{
    reveal_strlit("project"); reveal_strlit("create"); reveal_strlit("--name"); reveal_strlit("--slug");
    reveal_strlit("name"); reveal_strlit("slug"); reveal_strlit("hub"); reveal_strlit("description");
    reveal_strlit("-h"); reveal_strlit("--help"); reveal_strlit("help"); reveal_strlit("-V");
    reveal_strlit("--version"); reveal_strlit("--");
    reveal_strlit("up"); reveal_strlit("down"); reveal_strlit("status"); reveal_strlit("agent");
    reveal_strlit("domain"); reveal_strlit("bounty"); reveal_strlit("queue"); reveal_strlit("login");
    reveal_strlit("logs"); reveal_strlit("reset");
    reveal_with_fuel(first_eq, 6);
    reveal_with_fuel(find_long, 4);
    let opts = leaf_opts(LeafKind::ProjectCreate);
    let t_name = "--name"@;
    let t_slug = "--slug"@;
    assert(t_name.subrange(2, t_name.len() as int) =~= "name"@);
    assert(t_slug.subrange(2, t_slug.len() as int) =~= "slug"@);
    assert(first_eq(t_name, 2) == -1);
    assert(first_eq(t_slug, 2) == -1);
    assert(find_long(opts, "name"@, 0) == 1);
    assert("slug"@ != "hub"@ && "slug"@[0] != "name"@[0]);
    assert(find_long(opts, "slug"@, 2) == 2);
    assert(find_long(opts, "slug"@, 1) == 2);
    assert(find_long(opts, "slug"@, 0) == 2);
    let init = initial_state(4);
    let toks1 = seq![prog, "project"@, "create"@, "--name"@, name, "--slug"@, slug].drop_first();
    let toks2 = seq![prog, "project"@, "create"@, "--slug"@, slug, "--name"@, name].drop_first();
    assert(toks1 =~= seq!["project"@, "create"@, "--name"@, name, "--slug"@, slug]);
    assert(toks2 =~= seq!["project"@, "create"@, "--slug"@, slug, "--name"@, name]);
    let pr = "project"@;
    assert(pr[0] != "up"@[0] && pr[0] != "down"@[0] && pr[0] != "status"@[0] && pr[0] != "agent"@[0]
        && pr[0] != "domain"@[0] && pr[0] != "bounty"@[0] && pr[0] != "queue"@[0] && pr[0] != "login"@[0]
        && pr[0] != "logs"@[0] && pr[0] != "reset"@[0]);
    assert(pr != "up"@ && pr != "down"@ && pr != "status"@ && pr != "agent"@ && pr != "domain"@
        && pr != "bounty"@ && pr != "queue"@ && pr != "login"@ && pr != "logs"@ && pr != "reset"@);
    assert(child(GroupKind::Top, "project"@) == Some(Node::Group(GroupKind::Project)));
    assert(child(GroupKind::Project, "create"@) == Some(Node::Leaf(LeafKind::ProjectCreate)));
    let cr = "create"@;
    assert(cr[0] != "-h"@[0] && cr[0] != "--help"@[0] && cr[0] != "help"@[0]);
    assert(!is_help_token(cr) && cr != "help"@);
    assert(pr[0] != "-h"@[0] && pr[0] != "--help"@[0] && pr[0] != "help"@[0] && pr[0] != "-V"@[0] && pr[0] != "--version"@[0]);
    assert(!is_help_token(pr) && pr != "help"@ && pr != "-V"@ && pr != "--version"@);
    assert(toks1[0] == pr && toks1[1] == cr && toks2[0] == pr && toks2[1] == cr);
    assert(resolve(toks1, 1, GroupKind::Project) == Ok::<(LeafKind, nat), CliErrorKind>((LeafKind::ProjectCreate, 2nat)));
    assert(resolve(toks1, 0, GroupKind::Top) == Ok::<(LeafKind, nat), CliErrorKind>((LeafKind::ProjectCreate, 2nat)));
    assert(resolve(toks2, 1, GroupKind::Project) == Ok::<(LeafKind, nat), CliErrorKind>((LeafKind::ProjectCreate, 2nat)));
    assert(resolve(toks2, 0, GroupKind::Top) == Ok::<(LeafKind, nat), CliErrorKind>((LeafKind::ProjectCreate, 2nat)));
    let both = ScanState { vals: init.vals.update(1, Some(name)).update(2, Some(slug)), ..init };
    let both2 = ScanState { vals: init.vals.update(2, Some(slug)).update(1, Some(name)), ..init };
    assert(both2.vals =~= both.vals);
    // --name n --slug s
    let s1 = ScanState { vals: init.vals.update(1, Some(name)), ..init };
    assert(scan(toks1, opts, 0, 6, both) == Ok::<ScanState, CliErrorKind>(both));
    assert(take_value(toks1, opts, 0, 4, s1, 2, None) == scan(toks1, opts, 0, 6, both));
    assert(scan(toks1, opts, 0, 4, s1) == take_value(toks1, opts, 0, 4, s1, 2, None));
    assert(take_value(toks1, opts, 0, 2, init, 1, None) == scan(toks1, opts, 0, 4, s1));
    assert(scan(toks1, opts, 0, 2, init) == take_value(toks1, opts, 0, 2, init, 1, None));
    // --slug s --name n
    let s2 = ScanState { vals: init.vals.update(2, Some(slug)), ..init };
    assert(scan(toks2, opts, 0, 6, both2) == Ok::<ScanState, CliErrorKind>(both2));
    assert(take_value(toks2, opts, 0, 4, s2, 1, None) == scan(toks2, opts, 0, 6, both2));
    assert(scan(toks2, opts, 0, 4, s2) == take_value(toks2, opts, 0, 4, s2, 1, None));
    assert(take_value(toks2, opts, 0, 2, init, 2, None) == scan(toks2, opts, 0, 4, s2));
    assert(scan(toks2, opts, 0, 2, init) == take_value(toks2, opts, 0, 2, init, 2, None));
    assert(both2 == both);
}

/// The file commands of a project take the project's slug first and the
/// file second, in the order given, and each option's value lands in the
/// field of the same name: `--out` the download's destination, `--name`
/// the upload's stored name.
pub proof fn lemma_project_files_arguments(prog: Seq<char>, slug: Seq<char>, file: Seq<char>, opt: Seq<char>)
    requires
        !looks_like_flag(slug),
        !looks_like_flag(file),
        !looks_like_flag(opt),
    ensures
        spec_parse(seq![prog, "project"@, "files"@, "download"@, slug, file, "--out"@, opt], None)
            == Ok::<CmdModel, CliErrorKind>(CmdModel::FilesDownload { hub: default_hub(), slug, filename: file, out: Some(opt) }),
        spec_parse(seq![prog, "project"@, "files"@, "upload"@, slug, file, "--name"@, opt], None)
            == Ok::<CmdModel, CliErrorKind>(CmdModel::FilesUpload { hub: default_hub(), slug, filepath: file, name: Some(opt) }),
        spec_parse(seq![prog, "project"@, "files"@, "delete"@, slug, file], None)
            == Ok::<CmdModel, CliErrorKind>(CmdModel::FilesDelete { hub: default_hub(), slug, filename: file }),
{
    reveal_strlit("project"); reveal_strlit("files"); reveal_strlit("download"); reveal_strlit("upload");
    reveal_strlit("delete"); reveal_strlit("--out"); reveal_strlit("--name"); reveal_strlit("out"); reveal_strlit("name");
    reveal_strlit("hub");
    reveal_strlit("-h"); reveal_strlit("--help"); reveal_strlit("help"); reveal_strlit("-V");
    reveal_strlit("--version"); reveal_strlit("--");
    reveal_strlit("up"); reveal_strlit("down"); reveal_strlit("status"); reveal_strlit("agent");
    reveal_strlit("domain"); reveal_strlit("bounty"); reveal_strlit("queue"); reveal_strlit("login");
    reveal_strlit("logs"); reveal_strlit("reset");
    reveal_strlit("create"); reveal_strlit("list"); reveal_strlit("show"); reveal_strlit("protocol");
    reveal_with_fuel(first_eq, 6);
    reveal_with_fuel(find_long, 3);
    let pr = "project"@;
    let fi = "files"@;
    assert(pr[0] != "up"@[0] && pr[0] != "down"@[0] && pr[0] != "status"@[0] && pr[0] != "agent"@[0]
        && pr[0] != "domain"@[0] && pr[0] != "bounty"@[0] && pr[0] != "queue"@[0] && pr[0] != "login"@[0]
        && pr[0] != "logs"@[0] && pr[0] != "reset"@[0]);
    assert(pr != "up"@ && pr != "down"@ && pr != "status"@ && pr != "agent"@ && pr != "domain"@
        && pr != "bounty"@ && pr != "queue"@ && pr != "login"@ && pr != "logs"@ && pr != "reset"@);
    assert(pr[0] != "-h"@[0] && pr[0] != "--help"@[0] && pr[0] != "help"@[0] && pr[0] != "-V"@[0] && pr[0] != "--version"@[0]);
    assert(!is_help_token(pr) && pr != "help"@ && pr != "-V"@ && pr != "--version"@);
    assert(child(GroupKind::Top, pr) == Some(Node::Group(GroupKind::Project)));
    assert(fi[0] != "create"@[0] && fi[0] != "list"@[0] && fi[0] != "show"@[0] && fi[0] != "delete"@[0]
        && fi[0] != "protocol"@[0]);
    assert(fi != "create"@ && fi != "list"@ && fi != "show"@ && fi != "delete"@ && fi != "protocol"@);
    assert(fi[0] != "-h"@[0] && fi[0] != "--help"@[0] && fi[0] != "help"@[0]);
    assert(!is_help_token(fi) && fi != "help"@);
    assert(child(GroupKind::Project, fi) == Some(Node::Group(GroupKind::Files)));
    let dl = "download"@;
    let up = "upload"@;
    let de = "delete"@;
    assert(dl[0] != "upload"@[0] && dl[0] != "list"@[0] && dl != "upload"@ && dl != "list"@);
    assert(de[0] != "upload"@[0] && de[0] != "list"@[0] && de[1] != "download"@[1]);
    assert(de != "upload"@ && de != "list"@ && de != "download"@);
    assert(child(GroupKind::Files, dl) == Some(Node::Leaf(LeafKind::FilesDownload)));
    assert(child(GroupKind::Files, up) == Some(Node::Leaf(LeafKind::FilesUpload)));
    assert(child(GroupKind::Files, de) == Some(Node::Leaf(LeafKind::FilesDelete)));
    assert(dl[0] != "-h"@[0] && dl[0] != "--help"@[0] && dl[0] != "help"@[0]);
    assert(up[0] != "-h"@[0] && up[0] != "--help"@[0] && up[0] != "help"@[0]);
    assert(de[0] != "-h"@[0] && de[0] != "--help"@[0] && de[0] != "help"@[0]);
    assert(!is_help_token(dl) && dl != "help"@ && !is_help_token(up) && up != "help"@ && !is_help_token(de) && de != "help"@);
    let t_out = "--out"@;
    let t_name = "--name"@;
    assert(t_out.subrange(2, t_out.len() as int) =~= "out"@);
    assert(t_name.subrange(2, t_name.len() as int) =~= "name"@);
    assert(first_eq(t_out, 2) == -1);
    assert(first_eq(t_name, 2) == -1);
    let od = leaf_opts(LeafKind::FilesDownload);
    let ou = leaf_opts(LeafKind::FilesUpload);
    assert("out"@[0] != "hub"@[0] && "name"@ != "hub"@);
    assert(find_long(od, "out"@, 0) == 1);
    assert(find_long(ou, "name"@, 0) == 1);
    let init1 = initial_state(2);
    let init0 = initial_state(1);
    // download
    let td = seq![prog, pr, fi, dl, slug, file, t_out, opt].drop_first();
    assert(td =~= seq![pr, fi, dl, slug, file, t_out, opt]);
    assert(resolve(td, 2, GroupKind::Files) == Ok::<(LeafKind, nat), CliErrorKind>((LeafKind::FilesDownload, 3nat)));
    assert(resolve(td, 1, GroupKind::Project) == Ok::<(LeafKind, nat), CliErrorKind>((LeafKind::FilesDownload, 3nat)));
    assert(resolve(td, 0, GroupKind::Top) == Ok::<(LeafKind, nat), CliErrorKind>((LeafKind::FilesDownload, 3nat)));
    let d1 = ScanState { pos: seq![slug], ..init1 };
    let d2 = ScanState { pos: seq![slug, file], ..init1 };
    let d3 = ScanState { vals: init1.vals.update(1, Some(opt)), ..d2 };
    assert(seq![slug].push(file) =~= seq![slug, file]);
    assert(init1.pos.push(slug) =~= seq![slug]);
    assert(scan(td, od, 2, 7, d3) == Ok::<ScanState, CliErrorKind>(d3));
    assert(take_value(td, od, 2, 5, d2, 1, None) == scan(td, od, 2, 7, d3));
    assert(scan(td, od, 2, 5, d2) == take_value(td, od, 2, 5, d2, 1, None));
    assert(scan(td, od, 2, 4, d1) == scan(td, od, 2, 5, d2));
    assert(scan(td, od, 2, 3, init1) == scan(td, od, 2, 4, d1));
    // upload
    let tu = seq![prog, pr, fi, up, slug, file, t_name, opt].drop_first();
    assert(tu =~= seq![pr, fi, up, slug, file, t_name, opt]);
    assert(resolve(tu, 2, GroupKind::Files) == Ok::<(LeafKind, nat), CliErrorKind>((LeafKind::FilesUpload, 3nat)));
    assert(resolve(tu, 1, GroupKind::Project) == Ok::<(LeafKind, nat), CliErrorKind>((LeafKind::FilesUpload, 3nat)));
    assert(resolve(tu, 0, GroupKind::Top) == Ok::<(LeafKind, nat), CliErrorKind>((LeafKind::FilesUpload, 3nat)));
    assert(scan(tu, ou, 2, 7, d3) == Ok::<ScanState, CliErrorKind>(d3));
    assert(take_value(tu, ou, 2, 5, d2, 1, None) == scan(tu, ou, 2, 7, d3));
    assert(scan(tu, ou, 2, 5, d2) == take_value(tu, ou, 2, 5, d2, 1, None));
    assert(scan(tu, ou, 2, 4, d1) == scan(tu, ou, 2, 5, d2));
    assert(scan(tu, ou, 2, 3, init1) == scan(tu, ou, 2, 4, d1));
    // delete
    let tx = seq![prog, pr, fi, de, slug, file].drop_first();
    assert(tx =~= seq![pr, fi, de, slug, file]);
    let ox = leaf_opts(LeafKind::FilesDelete);
    assert(resolve(tx, 2, GroupKind::Files) == Ok::<(LeafKind, nat), CliErrorKind>((LeafKind::FilesDelete, 3nat)));
    assert(resolve(tx, 1, GroupKind::Project) == Ok::<(LeafKind, nat), CliErrorKind>((LeafKind::FilesDelete, 3nat)));
    assert(resolve(tx, 0, GroupKind::Top) == Ok::<(LeafKind, nat), CliErrorKind>((LeafKind::FilesDelete, 3nat)));
    let x1 = ScanState { pos: seq![slug], ..init0 };
    let x2 = ScanState { pos: seq![slug, file], ..init0 };
    assert(init0.pos.push(slug) =~= seq![slug]);
    assert(scan(tx, ox, 2, 5, x2) == Ok::<ScanState, CliErrorKind>(x2));
    assert(scan(tx, ox, 2, 4, x1) == scan(tx, ox, 2, 5, x2));
    assert(scan(tx, ox, 2, 3, init0) == scan(tx, ox, 2, 4, x1));
}

/// `agent run` takes its project from `--project` and its hub from
/// `--hub`, and starts one agent unless told otherwise; `bounty post` takes
/// its domain from `--domain` and posts to `general` without one.
pub proof fn lemma_agent_run_and_bounty_options(prog: Seq<char>, project: Seq<char>, hub: Seq<char>, domain: Seq<char>)
    requires
        !looks_like_flag(project),
        !looks_like_flag(hub),
        !looks_like_flag(domain),
    ensures
        spec_parse(seq![prog, "agent"@, "run"@, "--project"@, project, "--hub"@, hub], None)
            == Ok::<CmdModel, CliErrorKind>(CmdModel::AgentRun { hub, project, n: 1 }),
        spec_parse(seq![prog, "bounty"@, "post"@, "--domain"@, domain], None)
            == Ok::<CmdModel, CliErrorKind>(CmdModel::BountyPost { hub: default_hub(), domain }),
        spec_parse(seq![prog, "bounty"@, "post"@], None)
            == Ok::<CmdModel, CliErrorKind>(CmdModel::BountyPost { hub: default_hub(), domain: "general"@ }),
{
    reveal_strlit("agent"); reveal_strlit("run"); reveal_strlit("bounty"); reveal_strlit("post");
    reveal_strlit("--project"); reveal_strlit("--hub"); reveal_strlit("--domain");
    reveal_strlit("project"); reveal_strlit("hub"); reveal_strlit("domain"); reveal_strlit("n");
    reveal_strlit("-h"); reveal_strlit("--help"); reveal_strlit("help"); reveal_strlit("-V");
    reveal_strlit("--version"); reveal_strlit("--");
    reveal_strlit("up"); reveal_strlit("down"); reveal_strlit("status");
    reveal_with_fuel(first_eq, 11);
    reveal_with_fuel(find_long, 3);
    let ag = "agent"@;
    let bo = "bounty"@;
    let ru = "run"@;
    let po = "post"@;
    assert(ag[0] != "up"@[0] && ag[0] != "down"@[0] && ag[0] != "status"@[0]);
    assert(ag != "up"@ && ag != "down"@ && ag != "status"@);
    assert(bo[0] != "up"@[0] && bo[0] != "down"@[0] && bo[0] != "status"@[0] && bo[0] != ag[0] && bo[0] != "domain"@[0]);
    assert(bo != "up"@ && bo != "down"@ && bo != "status"@ && bo != ag && bo != "domain"@);
    assert(child(GroupKind::Top, ag) == Some(Node::Group(GroupKind::Agent)));
    assert(child(GroupKind::Top, bo) == Some(Node::Group(GroupKind::Bounty)));
    assert(child(GroupKind::Agent, ru) == Some(Node::Leaf(LeafKind::AgentRun)));
    assert(child(GroupKind::Bounty, po) == Some(Node::Leaf(LeafKind::BountyPost)));
    assert(ag[0] != "-h"@[0] && ag[0] != "--help"@[0] && ag[0] != "help"@[0] && ag[0] != "-V"@[0] && ag[0] != "--version"@[0]);
    assert(bo[0] != "-h"@[0] && bo[0] != "--help"@[0] && bo[0] != "help"@[0] && bo[0] != "-V"@[0] && bo[0] != "--version"@[0]);
    assert(ru[0] != "-h"@[0] && ru[0] != "--help"@[0] && ru[0] != "help"@[0]);
    assert(po[0] != "-h"@[0] && po[0] != "--help"@[0] && po[0] != "help"@[0]);
    assert(!is_help_token(ag) && ag != "help"@ && ag != "-V"@ && ag != "--version"@);
    assert(!is_help_token(bo) && bo != "help"@ && bo != "-V"@ && bo != "--version"@);
    assert(!is_help_token(ru) && ru != "help"@ && !is_help_token(po) && po != "help"@);
    let t_project = "--project"@;
    let t_hub = "--hub"@;
    let t_domain = "--domain"@;
    assert(t_project.subrange(2, t_project.len() as int) =~= "project"@);
    assert(t_hub.subrange(2, t_hub.len() as int) =~= "hub"@);
    assert(t_domain.subrange(2, t_domain.len() as int) =~= "domain"@);
    assert(first_eq(t_project, 2) == -1);
    assert(first_eq(t_hub, 2) == -1);
    assert(first_eq(t_domain, 2) == -1);
    let oa = leaf_opts(LeafKind::AgentRun);
    let ob = leaf_opts(LeafKind::BountyPost);
    assert("project"@ != "hub"@ && "domain"@ != "hub"@);
    assert(find_long(oa, "project"@, 0) == 1);
    assert(find_long(oa, "hub"@, 0) == 0);
    assert(find_long(ob, "domain"@, 0) == 1);
    // agent run
    let ta = seq![prog, ag, ru, t_project, project, t_hub, hub].drop_first();
    assert(ta =~= seq![ag, ru, t_project, project, t_hub, hub]);
    assert(resolve(ta, 1, GroupKind::Agent) == Ok::<(LeafKind, nat), CliErrorKind>((LeafKind::AgentRun, 2nat)));
    assert(resolve(ta, 0, GroupKind::Top) == Ok::<(LeafKind, nat), CliErrorKind>((LeafKind::AgentRun, 2nat)));
    let i3 = initial_state(3);
    let a1 = ScanState { vals: i3.vals.update(1, Some(project)), ..i3 };
    let a2 = ScanState { vals: a1.vals.update(0, Some(hub)), ..a1 };
    assert(scan(ta, oa, 0, 6, a2) == Ok::<ScanState, CliErrorKind>(a2));
    assert(take_value(ta, oa, 0, 4, a1, 0, None) == scan(ta, oa, 0, 6, a2));
    assert(scan(ta, oa, 0, 4, a1) == take_value(ta, oa, 0, 4, a1, 0, None));
    assert(take_value(ta, oa, 0, 2, i3, 1, None) == scan(ta, oa, 0, 4, a1));
    assert(scan(ta, oa, 0, 2, i3) == take_value(ta, oa, 0, 2, i3, 1, None));
    // bounty post
    let i2 = initial_state(2);
    let tb = seq![prog, bo, po, t_domain, domain].drop_first();
    assert(tb =~= seq![bo, po, t_domain, domain]);
    assert(resolve(tb, 1, GroupKind::Bounty) == Ok::<(LeafKind, nat), CliErrorKind>((LeafKind::BountyPost, 2nat)));
    assert(resolve(tb, 0, GroupKind::Top) == Ok::<(LeafKind, nat), CliErrorKind>((LeafKind::BountyPost, 2nat)));
    let b1 = ScanState { vals: i2.vals.update(1, Some(domain)), ..i2 };
    assert(scan(tb, ob, 0, 4, b1) == Ok::<ScanState, CliErrorKind>(b1));
    assert(take_value(tb, ob, 0, 2, i2, 1, None) == scan(tb, ob, 0, 4, b1));
    assert(scan(tb, ob, 0, 2, i2) == take_value(tb, ob, 0, 2, i2, 1, None));
    let tc = seq![prog, bo, po].drop_first();
    assert(tc =~= seq![bo, po]);
    assert(resolve(tc, 1, GroupKind::Bounty) == Ok::<(LeafKind, nat), CliErrorKind>((LeafKind::BountyPost, 2nat)));
    assert(resolve(tc, 0, GroupKind::Top) == Ok::<(LeafKind, nat), CliErrorKind>((LeafKind::BountyPost, 2nat)));
    assert(scan(tc, ob, 0, 2, i2) == Ok::<ScanState, CliErrorKind>(i2));
}

/// The character sequences of the given arguments.
pub open spec fn arg_views(args: Seq<&str>) -> Seq<Seq<char>> {
    args.map_values(|a: &str| a@)
}

// ───────────────────────── the parser ─────────────────────────

fn child_exec(g: GroupKind, x: &str) -> (r: Option<Node>)
    ensures
        r == child(g, x@),
{
    match g {
        GroupKind::Top =>
            if str_eq(x, "up") { Some(Node::Leaf(LeafKind::Up)) }
            else if str_eq(x, "down") { Some(Node::Leaf(LeafKind::Down)) }
            else if str_eq(x, "status") { Some(Node::Leaf(LeafKind::Status)) }
            else if str_eq(x, "agent") { Some(Node::Group(GroupKind::Agent)) }
            else if str_eq(x, "domain") { Some(Node::Group(GroupKind::Domain)) }
            else if str_eq(x, "bounty") { Some(Node::Group(GroupKind::Bounty)) }
            else if str_eq(x, "queue") { Some(Node::Leaf(LeafKind::Queue)) }
            else if str_eq(x, "login") { Some(Node::Leaf(LeafKind::Login)) }
            else if str_eq(x, "logs") { Some(Node::Leaf(LeafKind::Logs)) }
            else if str_eq(x, "reset") { Some(Node::Leaf(LeafKind::Reset)) }
            else if str_eq(x, "project") { Some(Node::Group(GroupKind::Project)) }
            else { None },
        GroupKind::Agent =>
            if str_eq(x, "run") { Some(Node::Leaf(LeafKind::AgentRun)) }
            else if str_eq(x, "stop") { Some(Node::Leaf(LeafKind::AgentStop)) }
            else if str_eq(x, "list") { Some(Node::Leaf(LeafKind::AgentList)) }
            else { None },
        GroupKind::Domain =>
            if str_eq(x, "install") { Some(Node::Leaf(LeafKind::DomainInstall)) }
            else if str_eq(x, "list") { Some(Node::Leaf(LeafKind::DomainList)) }
            else { None },
        GroupKind::Bounty =>
            if str_eq(x, "post") { Some(Node::Leaf(LeafKind::BountyPost)) }
            else if str_eq(x, "list") { Some(Node::Leaf(LeafKind::BountyList)) }
            else { None },
        GroupKind::Project =>
            if str_eq(x, "create") { Some(Node::Leaf(LeafKind::ProjectCreate)) }
            else if str_eq(x, "list") { Some(Node::Leaf(LeafKind::ProjectList)) }
            else if str_eq(x, "show") { Some(Node::Leaf(LeafKind::ProjectShow)) }
            else if str_eq(x, "delete") { Some(Node::Leaf(LeafKind::ProjectDelete)) }
            else if str_eq(x, "protocol") { Some(Node::Group(GroupKind::Protocol)) }
            else if str_eq(x, "files") { Some(Node::Group(GroupKind::Files)) }
            else if str_eq(x, "requirements") { Some(Node::Group(GroupKind::Requirements)) }
            else if str_eq(x, "seed-bounty") { Some(Node::Group(GroupKind::SeedBounty)) }
            else { None },
        GroupKind::Protocol =>
            if str_eq(x, "set") { Some(Node::Leaf(LeafKind::ProtocolSet)) }
            else if str_eq(x, "show") { Some(Node::Leaf(LeafKind::ProtocolShow)) }
            else { None },
        GroupKind::Files =>
            if str_eq(x, "upload") { Some(Node::Leaf(LeafKind::FilesUpload)) }
            else if str_eq(x, "list") { Some(Node::Leaf(LeafKind::FilesList)) }
            else if str_eq(x, "download") { Some(Node::Leaf(LeafKind::FilesDownload)) }
            else if str_eq(x, "delete") { Some(Node::Leaf(LeafKind::FilesDelete)) }
            else { None },
        GroupKind::Requirements =>
            if str_eq(x, "set") { Some(Node::Leaf(LeafKind::RequirementsSet)) }
            else if str_eq(x, "show") { Some(Node::Leaf(LeafKind::RequirementsShow)) }
            else { None },
        GroupKind::SeedBounty =>
            if str_eq(x, "set") { Some(Node::Leaf(LeafKind::SeedBountySet)) }
            else if str_eq(x, "show") { Some(Node::Leaf(LeafKind::SeedBountyShow)) }
            else { None },
    }
}

fn looks_like_flag_exec(x: &str) -> (r: bool)
    ensures
        r == looks_like_flag(x@),
{
    x.unicode_len() >= 2 && x.get_char(0) == '-'
}

fn is_help_exec(x: &str) -> (r: bool)
    ensures
        r == is_help_token(x@),
{
    str_eq(x, "-h") || str_eq(x, "--help")
}

/// Follows subcommand names from `args[1]`: the command and the index of
/// its first argument in `args`.
fn resolve_exec(args: &[&str]) -> (r: Result<(LeafKind, usize), CliErrorKind>)
    requires
        args@.len() >= 1,
    ensures
        match r {
            Ok((k, i)) => resolve(arg_views(args@).drop_first(), 0, GroupKind::Top) == Ok::<(LeafKind, nat), CliErrorKind>((k, (i - 1) as nat))
                && 1 <= i <= args@.len(),
            Err(e) => resolve(arg_views(args@).drop_first(), 0, GroupKind::Top) == Err::<(LeafKind, nat), CliErrorKind>(e),
        },
{
    let ghost toks = arg_views(args@).drop_first();
    let mut g = GroupKind::Top;
    let mut i: usize = 1;
    loop
        invariant
            1 <= i <= args@.len(),
            toks == arg_views(args@).drop_first(),
            toks.len() + 1 == args@.len(),
            resolve(toks, 0, GroupKind::Top) == resolve(toks, (i - 1) as nat, g),
        decreases args@.len() - i,
    {
        if i >= args.len() {
            return Err(CliErrorKind::MissingSubcommand);
        }
        let x = args[i];
        assert(toks[i - 1] == x@);
        if is_help_exec(x) || str_eq(x, "help") {
            return Err(CliErrorKind::DisplayHelp);
        }
        if g == GroupKind::Top && (str_eq(x, "-V") || str_eq(x, "--version")) {
            return Err(CliErrorKind::DisplayVersion);
        }
        match child_exec(g, x) {
            Some(Node::Leaf(k)) => {
                return Ok((k, i + 1));
            },
            Some(Node::Group(g2)) => {
                g = g2;
                i = i + 1;
            },
            None => {
                if looks_like_flag_exec(x) {
                    return Err(CliErrorKind::UnknownArgument);
                } else {
                    return Err(CliErrorKind::InvalidSubcommand);
                }
            },
        }
    }
}

fn leaf_opts_exec(k: LeafKind) -> (r: Vec<(&'static str, Option<char>)>)
    ensures
        r@.map_values(|o: (&str, Option<char>)| (o.0@, o.1)) == leaf_opts(k),
{
    let mut r: Vec<(&'static str, Option<char>)> = Vec::new();
    match k {
        LeafKind::Status | LeafKind::Queue | LeafKind::Login | LeafKind::Reset
        | LeafKind::ProjectList | LeafKind::ProjectShow | LeafKind::ProjectDelete
        | LeafKind::ProtocolShow | LeafKind::FilesList | LeafKind::FilesDelete
        | LeafKind::RequirementsShow | LeafKind::SeedBountyShow => {
            r.push(("hub", None));
        },
        LeafKind::AgentRun => {
            r.push(("hub", None));
            r.push(("project", None));
            r.push(("n", Some('n')));
        },
        LeafKind::AgentStop => {
            r.push(("project", None));
            r.push(("n", Some('n')));
        },
        LeafKind::BountyPost | LeafKind::BountyList => {
            r.push(("hub", None));
            r.push(("domain", None));
        },
        LeafKind::ProjectCreate => {
            r.push(("hub", None));
            r.push(("name", None));
            r.push(("slug", None));
            r.push(("description", None));
        },
        LeafKind::ProtocolSet | LeafKind::RequirementsSet | LeafKind::SeedBountySet => {
            r.push(("hub", None));
            r.push(("file", None));
        },
        LeafKind::FilesUpload => {
            r.push(("hub", None));
            r.push(("name", None));
        },
        LeafKind::FilesDownload => {
            r.push(("hub", None));
            r.push(("out", None));
        },
        _ => {},
    }
    assert(r@.map_values(|o: (&str, Option<char>)| (o.0@, o.1)) =~= leaf_opts(k));
    r
}

fn leaf_npos_exec(k: LeafKind) -> (r: usize)
    ensures
        r == leaf_npos(k),
{
    match k {
        LeafKind::Logs | LeafKind::DomainInstall | LeafKind::ProjectShow | LeafKind::ProjectDelete
        | LeafKind::ProtocolSet | LeafKind::ProtocolShow | LeafKind::FilesList
        | LeafKind::RequirementsSet | LeafKind::RequirementsShow
        | LeafKind::SeedBountySet | LeafKind::SeedBountyShow => 1,
        LeafKind::FilesUpload | LeafKind::FilesDownload | LeafKind::FilesDelete => 2,
        _ => 0,
    }
}

fn first_eq_exec(s: &str, from: usize) -> (r: Option<usize>)
    ensures
        match r {
            None => first_eq(s@, from as int) == -1,
            Some(e) => first_eq(s@, from as int) == e as int && from <= e < s@.len(),
        },
{
    proof {
        lemma_first_eq_range(s@, from as int);
    }
    let len = s.unicode_len();
    let mut j = from;
    if j >= len {
        return None;
    }
    while j < len
        invariant
            from <= j <= len,
            len == s@.len(),
            first_eq(s@, from as int) == first_eq(s@, j as int),
        decreases len - j,
    {
        if s.get_char(j) == '=' {
            return Some(j);
        }
        j = j + 1;
    }
    None
}

/// The first `=` found from `from` on lies at or after `from`.
proof fn lemma_first_eq_range(s: Seq<char>, from: int)
    ensures
        first_eq(s, from) == -1 || (from <= first_eq(s, from) < s.len() && s[first_eq(s, from)] == '='),
    decreases s.len() - from,
{
    if 0 <= from < s.len() && s[from] != '=' {
        lemma_first_eq_range(s, from + 1);
    }
}

fn find_long_exec(opts: &Vec<(&'static str, Option<char>)>, name: &str) -> (r: Option<usize>)
    ensures
        match r {
            None => find_long(opts@.map_values(|o: (&str, Option<char>)| (o.0@, o.1)), name@, 0) == -1,
            Some(k) => find_long(opts@.map_values(|o: (&str, Option<char>)| (o.0@, o.1)), name@, 0) == k as int
                && k < opts@.len(),
        },
{
    let ghost ov = opts@.map_values(|o: (&str, Option<char>)| (o.0@, o.1));
    let mut k: usize = 0;
    while k < opts.len()
        invariant
            k <= opts@.len(),
            ov == opts@.map_values(|o: (&str, Option<char>)| (o.0@, o.1)),
            find_long(ov, name@, 0) == find_long(ov, name@, k as int),
        decreases opts@.len() - k,
    {
        if str_eq(opts[k].0, name) {
            return Some(k);
        }
        k = k + 1;
    }
    None
}

fn find_short_exec(opts: &Vec<(&'static str, Option<char>)>, c: char) -> (r: Option<usize>)
    ensures
        match r {
            None => find_short(opts@.map_values(|o: (&str, Option<char>)| (o.0@, o.1)), c, 0) == -1,
            Some(k) => find_short(opts@.map_values(|o: (&str, Option<char>)| (o.0@, o.1)), c, 0) == k as int
                && k < opts@.len(),
        },
{
    let ghost ov = opts@.map_values(|o: (&str, Option<char>)| (o.0@, o.1));
    let mut k: usize = 0;
    while k < opts.len()
        invariant
            k <= opts@.len(),
            ov == opts@.map_values(|o: (&str, Option<char>)| (o.0@, o.1)),
            find_short(ov, c, 0) == find_short(ov, c, k as int),
        decreases opts@.len() - k,
    {
        let matches = match opts[k].1 {
            Some(d) => d == c,
            None => false,
        };
        if matches {
            return Some(k);
        }
        k = k + 1;
    }
    None
}

/// The character sequences of a list of optional strings.
pub open spec fn opt_views(v: Seq<Option<String>>) -> Seq<Option<Seq<char>>> {
    v.map_values(|o: Option<String>| opt_view(o))
}

/// The character sequences of a list of strings.
pub open spec fn str_views(v: Seq<String>) -> Seq<Seq<char>> {
    v.map_values(|s: String| s@)
}

/// Collects the arguments of command `k` from `args[start..]`.
fn scan_exec(args: &[&str], start: usize, opts: &Vec<(&'static str, Option<char>)>, npos: usize)
    -> (r: Result<(Vec<Option<String>>, Vec<String>), CliErrorKind>)
    requires
        1 <= start <= args@.len(),
    ensures
        ({
            let toks = arg_views(args@).drop_first();
            let ov = opts@.map_values(|o: (&str, Option<char>)| (o.0@, o.1));
            let sp = scan(toks, ov, npos as nat, (start - 1) as nat, initial_state(ov.len()));
            match r {
                Ok((vals, pos)) => sp is Ok && sp->Ok_0.vals == opt_views(vals@) && sp->Ok_0.pos == str_views(pos@),
                Err(e) => sp == Err::<ScanState, CliErrorKind>(e),
            }
        }),
{
    let ghost toks = arg_views(args@).drop_first();
    let ghost ov = opts@.map_values(|o: (&str, Option<char>)| (o.0@, o.1));
    let mut vals: Vec<Option<String>> = Vec::new();
    let mut j: usize = 0;
    while j < opts.len()
        invariant
            j <= opts@.len(),
            vals@.len() == j,
            forall|q: int| 0 <= q < j ==> vals@[q] is None,
        decreases opts@.len() - j,
    {
        vals.push(None);
        j = j + 1;
    }
    let mut pos: Vec<String> = Vec::new();
    let mut raw = false;
    let mut i = start;
    proof {
        assert(opt_views(vals@) =~= initial_state(ov.len()).vals);
        assert(str_views(pos@) =~= Seq::<Seq<char>>::empty());
    }
    let ghost goal = scan(toks, ov, npos as nat, (start - 1) as nat, initial_state(ov.len()));
    loop
        invariant
            1 <= i <= args@.len(),
            toks == arg_views(args@).drop_first(),
            toks.len() + 1 == args@.len(),
            ov == opts@.map_values(|o: (&str, Option<char>)| (o.0@, o.1)),
            vals@.len() == opts@.len(),
            goal == scan(toks, ov, npos as nat, (start - 1) as nat, initial_state(ov.len())),
            goal == scan(toks, ov, npos as nat, (i - 1) as nat,
                ScanState { vals: opt_views(vals@), pos: str_views(pos@), raw }),
        decreases args@.len() - i,
    {
        if i >= args.len() {
            return Ok((vals, pos));
        }
        let t = args[i];
        let ghost st = ScanState { vals: opt_views(vals@), pos: str_views(pos@), raw };
        assert(toks[i - 1] == t@);
        if raw || !looks_like_flag_exec(t) {
            if pos.len() < npos {
                pos.push(to_owned_string(t));
                proof {
                    assert(str_views(pos@) =~= st.pos.push(t@));
                }
                i = i + 1;
            } else {
                return Err(CliErrorKind::UnknownArgument);
            }
        } else if str_eq(t, "--") {
            raw = true;
            i = i + 1;
        } else if is_help_exec(t) {
            return Err(CliErrorKind::DisplayHelp);
        } else {
            let len = t.unicode_len();
            let k_opt;
            let inline: Option<String>;
            let ghost kk: int;
            let ghost inl: Option<Seq<char>>;
            if t.get_char(1) == '-' {
                let e = first_eq_exec(t, 2);
                match e {
                    None => {
                        let name = t.substring_char(2, len);
                        k_opt = find_long_exec(opts, name);
                        inline = None;
                        proof {
                            kk = find_long(ov, name@, 0);
                            inl = None;
                        }
                    },
                    Some(e) => {
                        let name = t.substring_char(2, e);
                        k_opt = find_long_exec(opts, name);
                        inline = Some(to_owned_string(t.substring_char(e + 1, len)));
                        proof {
                            kk = find_long(ov, name@, 0);
                            inl = Some(t@.subrange(e + 1, len as int));
                        }
                    },
                }
            } else {
                k_opt = find_short_exec(opts, t.get_char(1));
                proof {
                    kk = find_short(ov, t@[1], 0);
                }
                if len == 2 {
                    inline = None;
                    proof {
                        inl = None;
                        assert(t@.subrange(2, len as int).len() == 0);
                    }
                } else if t.get_char(2) == '=' {
                    inline = Some(to_owned_string(t.substring_char(3, len)));
                    proof {
                        assert(t@.subrange(3, len as int) =~= t@.subrange(2, len as int).drop_first());
                        inl = Some(t@.subrange(3, len as int));
                    }
                } else {
                    inline = Some(to_owned_string(t.substring_char(2, len)));
                    proof {
                        inl = Some(t@.subrange(2, len as int));
                    }
                }
            }
            assert(opt_view(inline) == inl);
            assert(scan(toks, ov, npos as nat, (i - 1) as nat, st)
                == take_value(toks, ov, npos as nat, (i - 1) as nat, st, kk, inl));
            match k_opt {
                None => {
                    return Err(CliErrorKind::UnknownArgument);
                },
                Some(k) => {
                    assert(kk == k as int);
                    assert(st.vals[k as int] == opt_view(vals@[k as int]));
                    if vals[k].is_some() {
                        return Err(CliErrorKind::ArgumentConflict);
                    }
                    match inline {
                        Some(v) => {
                            let ghost vv = v@;
                            vals.set(k, Some(v));
                            proof {
                                assert(opt_views(vals@) =~= st.vals.update(k as int, Some(vv)));
                            }
                            i = i + 1;
                        },
                        None => {
                            if i + 1 < args.len() && !looks_like_flag_exec(args[i + 1]) {
                                assert(toks[i as int] == args@[i + 1]@);
                                vals.set(k, Some(to_owned_string(args[i + 1])));
                                proof {
                                    assert(opt_views(vals@) =~= st.vals.update(k as int, Some(toks[i as int])));
                                }
                                i = i + 2;
                            } else {
                                return Err(CliErrorKind::InvalidValue);
                            }
                        },
                    }
                },
            }
        }
    }
}

/// Reads a `usize` in decimal, with an optional leading `+`.
pub fn parse_usize(s: &str) -> (r: Option<usize>)
    ensures
        r == spec_parse_usize(s@),
{
    let len = s.unicode_len();
    let mut j: usize = 0;
    if len > 0 && s.get_char(0) == '+' {
        j = 1;
    }
    let ghost d = if s@.len() > 0 && s@[0] == '+' { s@.drop_first() } else { s@ };
    let ghost off = j as int;
    if j >= len {
        assert(!all_digits(d));
        return None;
    }
    let mut acc: usize = 0;
    while j < len
        invariant
            off <= j <= len,
            len == s@.len(),
            off == 0 || off == 1,
            d == (if s@.len() > 0 && s@[0] == '+' { s@.drop_first() } else { s@ }),
            off == (if s@.len() > 0 && s@[0] == '+' { 1int } else { 0int }),
            d == s@.subrange(off, len as int),
            off < len,
            forall|q: int| off <= q < j ==> '0' <= #[trigger] s@[q] <= '9',
            acc as nat == digits_val(s@.subrange(off, j as int)),
        decreases len - j,
    {
        let c = s.get_char(j);
        if c < '0' || c > '9' {
            assert(d[j - off] == c);
            assert(!all_digits(d));
            return None;
        }
        let dig = (c as u32 - '0' as u32) as usize;
        assert(s@.subrange(off, j + 1).drop_last() =~= s@.subrange(off, j as int));
        assert(s@.subrange(off, j + 1).last() == c);
        assert(dig as nat == (c as nat) - ('0' as nat));
        assert(digits_val(s@.subrange(off, j + 1)) == acc * 10 + dig);
        match acc.checked_mul(10) {
            None => {
                proof {
                    lemma_digits_val_prefix(d, (j + 1 - off) as nat);
                    assert(d.subrange(0, j + 1 - off) =~= s@.subrange(off, j + 1));
                    lemma_digits_all_from_prefix(s@, off, j as int, len as int);
                }
                return None;
            },
            Some(m) => match m.checked_add(dig) {
                None => {
                    proof {
                        lemma_digits_val_prefix(d, (j + 1 - off) as nat);
                        assert(d.subrange(0, j + 1 - off) =~= s@.subrange(off, j + 1));
                        lemma_digits_all_from_prefix(s@, off, j as int, len as int);
                    }
                    return None;
                },
                Some(v) => {
                    acc = v;
                },
            },
        }
        j = j + 1;
    }
    assert(s@.subrange(off, len as int) =~= d);
    Some(acc)
}

/// A prefix of a digit string is worth no more than the whole string.
proof fn lemma_digits_val_prefix(d: Seq<char>, m: nat)
    requires
        m <= d.len(),
    ensures
        digits_val(d.subrange(0, m as int)) <= digits_val(d),
    decreases d.len() - m,
{
    if m < d.len() {
        lemma_digits_val_prefix(d, m + 1);
        let p = d.subrange(0, m as int);
        let q = d.subrange(0, m + 1 as int);
        assert(q.drop_last() =~= p);
        assert(digits_val(q) == digits_val(p) * 10 + ((q.last() as nat) - ('0' as nat)) as nat);
    } else {
        assert(d.subrange(0, m as int) =~= d);
    }
}

/// If a string fails to be all digits at or after position `j`, or its
/// prefix up to `j + 1` is too big, it does not parse.
proof fn lemma_digits_all_from_prefix(s: Seq<char>, off: int, j: int, len: int)
    requires
        0 <= off <= j < len,
        len == s.len(),
        digits_val(s.subrange(off, j + 1)) > usize::MAX,
    ensures
        ({
            let d = s.subrange(off, len);
            !(all_digits(d) && digits_val(d) <= usize::MAX)
        }),
{
    let d = s.subrange(off, len);
    lemma_digits_val_prefix(d, (j + 1 - off) as nat);
    assert(d.subrange(0, j + 1 - off) =~= s.subrange(off, j + 1));
}

fn clone_opt(o: &Option<String>) -> (r: Option<String>)
    ensures
        opt_view(r) == opt_view(*o),
{
    match o {
        Some(s) => Some(s.clone()),
        None => None,
    }
}

fn hub_exec(v: &Option<String>, env: &Option<String>) -> (r: String)
    ensures
        r@ == hub_value(opt_view(*v), opt_view(*env)),
{
    match v {
        Some(h) => h.clone(),
        None => match env {
            Some(e) => e.clone(),
            None => to_owned_string("http://localhost:3000"),
        },
    }
}

/// Builds command `k` from its collected arguments.
fn build_exec(k: LeafKind, vals: &Vec<Option<String>>, pos: &Vec<String>, env: &Option<String>) -> (r: Result<Commands, CliErrorKind>)
    requires
        vals@.len() == leaf_opts(k).len(),
        pos@.len() <= leaf_npos(k),
    ensures
        ({
            let sp = build(k, ScanState { vals: opt_views(vals@), pos: str_views(pos@), raw: false }, opt_view(*env));
            match r {
                Ok(c) => sp == Ok::<CmdModel, CliErrorKind>(c@),
                Err(e) => sp == Err::<CmdModel, CliErrorKind>(e),
            }
        }),
{
    let ghost v = opt_views(vals@);
    let ghost p = str_views(pos@);
    proof {
        assert(forall|q: int| 0 <= q < vals@.len() ==> v[q] == opt_view(#[trigger] vals@[q]));
        assert(forall|q: int| 0 <= q < pos@.len() ==> p[q] == (#[trigger] pos@[q])@);
    }
    match k {
        LeafKind::Up => Ok(Commands::Up),
        LeafKind::Down => Ok(Commands::Down),
        LeafKind::Status => Ok(Commands::Status { hub: hub_exec(&vals[0], env) }),
        LeafKind::Queue => Ok(Commands::Queue { hub: hub_exec(&vals[0], env) }),
        LeafKind::Login => Ok(Commands::Login { hub: hub_exec(&vals[0], env) }),
        LeafKind::Reset => Ok(Commands::Reset { hub: hub_exec(&vals[0], env) }),
        LeafKind::AgentRun => {
            match &vals[1] {
                None => Err(CliErrorKind::MissingRequiredArgument),
                Some(project) => {
                    let n = match &vals[2] {
                        None => 1,
                        Some(t) => match parse_usize(t.as_str()) {
                            Some(n) => n,
                            None => { return Err(CliErrorKind::InvalidValue); },
                        },
                    };
                    Ok(Commands::Agent { subcommand: AgentCommands::Run {
                        hub: hub_exec(&vals[0], env), project: project.clone(), n } })
                },
            }
        },
        LeafKind::AgentStop => {
            let n = match &vals[1] {
                None => None,
                Some(t) => match parse_usize(t.as_str()) {
                    Some(n) => Some(n),
                    None => { return Err(CliErrorKind::InvalidValue); },
                },
            };
            Ok(Commands::Agent { subcommand: AgentCommands::Stop { project: clone_opt(&vals[0]), n } })
        },
        LeafKind::AgentList => Ok(Commands::Agent { subcommand: AgentCommands::List }),
        LeafKind::DomainInstall => {
            if pos.len() < 1 {
                Err(CliErrorKind::MissingRequiredArgument)
            } else {
                Ok(Commands::Domain { subcommand: DomainCommands::Install { path: pos[0].clone() } })
            }
        },
        LeafKind::DomainList => Ok(Commands::Domain { subcommand: DomainCommands::List }),
        LeafKind::BountyPost => {
            let domain = match &vals[1] {
                Some(d) => d.clone(),
                None => to_owned_string("general"),
            };
            Ok(Commands::Bounty { subcommand: BountyCommands::Post { hub: hub_exec(&vals[0], env), domain } })
        },
        LeafKind::BountyList => Ok(Commands::Bounty { subcommand: BountyCommands::List {
            hub: hub_exec(&vals[0], env), domain: clone_opt(&vals[1]) } }),
        LeafKind::Logs => {
            if pos.len() < 1 {
                Ok(Commands::Logs { n: None })
            } else {
                match parse_usize(pos[0].as_str()) {
                    Some(n) => Ok(Commands::Logs { n: Some(n) }),
                    None => Err(CliErrorKind::InvalidValue),
                }
            }
        },
        LeafKind::ProjectCreate => {
            match (&vals[1], &vals[2]) {
                (Some(name), Some(slug)) => Ok(Commands::Project { subcommand: ProjectCommands::Create {
                    hub: hub_exec(&vals[0], env), name: name.clone(), slug: slug.clone(),
                    description: clone_opt(&vals[3]) } }),
                _ => Err(CliErrorKind::MissingRequiredArgument),
            }
        },
        LeafKind::ProjectList => Ok(Commands::Project { subcommand: ProjectCommands::List { hub: hub_exec(&vals[0], env) } }),
        LeafKind::ProjectShow => {
            if pos.len() < 1 { Err(CliErrorKind::MissingRequiredArgument) } else {
                Ok(Commands::Project { subcommand: ProjectCommands::Show { hub: hub_exec(&vals[0], env), slug: pos[0].clone() } })
            }
        },
        LeafKind::ProjectDelete => {
            if pos.len() < 1 { Err(CliErrorKind::MissingRequiredArgument) } else {
                Ok(Commands::Project { subcommand: ProjectCommands::Delete { hub: hub_exec(&vals[0], env), slug: pos[0].clone() } })
            }
        },
        LeafKind::ProtocolSet => {
            if pos.len() < 1 { Err(CliErrorKind::MissingRequiredArgument) } else {
                Ok(Commands::Project { subcommand: ProjectCommands::Protocol { subcommand: ProtocolCommands::SetValue {
                    hub: hub_exec(&vals[0], env), slug: pos[0].clone(), file: clone_opt(&vals[1]) } } })
            }
        },
        LeafKind::ProtocolShow => {
            if pos.len() < 1 { Err(CliErrorKind::MissingRequiredArgument) } else {
                Ok(Commands::Project { subcommand: ProjectCommands::Protocol { subcommand: ProtocolCommands::Show {
                    hub: hub_exec(&vals[0], env), slug: pos[0].clone() } } })
            }
        },
        LeafKind::RequirementsSet => {
            if pos.len() < 1 { Err(CliErrorKind::MissingRequiredArgument) } else {
                Ok(Commands::Project { subcommand: ProjectCommands::Requirements { subcommand: RequirementsCommands::SetValue {
                    hub: hub_exec(&vals[0], env), slug: pos[0].clone(), file: clone_opt(&vals[1]) } } })
            }
        },
        LeafKind::RequirementsShow => {
            if pos.len() < 1 { Err(CliErrorKind::MissingRequiredArgument) } else {
                Ok(Commands::Project { subcommand: ProjectCommands::Requirements { subcommand: RequirementsCommands::Show {
                    hub: hub_exec(&vals[0], env), slug: pos[0].clone() } } })
            }
        },
        LeafKind::SeedBountySet => {
            if pos.len() < 1 { Err(CliErrorKind::MissingRequiredArgument) } else {
                Ok(Commands::Project { subcommand: ProjectCommands::SeedBounty { subcommand: SeedBountyCommands::SetValue {
                    hub: hub_exec(&vals[0], env), slug: pos[0].clone(), file: clone_opt(&vals[1]) } } })
            }
        },
        LeafKind::SeedBountyShow => {
            if pos.len() < 1 { Err(CliErrorKind::MissingRequiredArgument) } else {
                Ok(Commands::Project { subcommand: ProjectCommands::SeedBounty { subcommand: SeedBountyCommands::Show {
                    hub: hub_exec(&vals[0], env), slug: pos[0].clone() } } })
            }
        },
        LeafKind::FilesUpload => {
            if pos.len() < 2 { Err(CliErrorKind::MissingRequiredArgument) } else {
                Ok(Commands::Project { subcommand: ProjectCommands::Files { subcommand: FilesCommands::Upload {
                    hub: hub_exec(&vals[0], env), slug: pos[0].clone(), filepath: pos[1].clone(), name: clone_opt(&vals[1]) } } })
            }
        },
        LeafKind::FilesList => {
            if pos.len() < 1 { Err(CliErrorKind::MissingRequiredArgument) } else {
                Ok(Commands::Project { subcommand: ProjectCommands::Files { subcommand: FilesCommands::List {
                    hub: hub_exec(&vals[0], env), slug: pos[0].clone() } } })
            }
        },
        LeafKind::FilesDownload => {
            if pos.len() < 2 { Err(CliErrorKind::MissingRequiredArgument) } else {
                Ok(Commands::Project { subcommand: ProjectCommands::Files { subcommand: FilesCommands::Download {
                    hub: hub_exec(&vals[0], env), slug: pos[0].clone(), filename: pos[1].clone(), out: clone_opt(&vals[1]) } } })
            }
        },
        LeafKind::FilesDelete => {
            if pos.len() < 2 { Err(CliErrorKind::MissingRequiredArgument) } else {
                Ok(Commands::Project { subcommand: ProjectCommands::Files { subcommand: FilesCommands::Delete {
                    hub: hub_exec(&vals[0], env), slug: pos[0].clone(), filename: pos[1].clone() } } })
            }
        },
    }
}

/// The scan never collects more positional arguments than the command takes,
/// and keeps one value slot per option.
proof fn lemma_scan_shape(toks: Seq<Seq<char>>, opts: Seq<OptDesc>, npos: nat, i: nat, st: ScanState)
    requires
        st.pos.len() <= npos,
        st.vals.len() == opts.len(),
    ensures
        scan(toks, opts, npos, i, st) matches Ok(r) ==> r.pos.len() <= npos && r.vals.len() == opts.len(),
    decreases toks.len() - i, 1nat,
{
    if i < toks.len() {
        let t = toks[i as int];
        if st.raw || !looks_like_flag(t) {
            if st.pos.len() < npos {
                lemma_scan_shape(toks, opts, npos, i + 1, ScanState { pos: st.pos.push(t), ..st });
            }
        } else if t == "--"@ {
            lemma_scan_shape(toks, opts, npos, i + 1, ScanState { raw: true, ..st });
        } else if is_help_token(t) {
        } else if t[1] == '-' {
            let e = first_eq(t, 2);
            lemma_first_eq_range(t, 2);
            let name = if e < 0 { t.subrange(2, t.len() as int) } else { t.subrange(2, e) };
            let inline = if e < 0 { None } else { Some(t.subrange(e + 1, t.len() as int)) };
            lemma_take_shape(toks, opts, npos, i, st, find_long(opts, name, 0), inline);
        } else {
            let rest = t.subrange(2, t.len() as int);
            let inline = if rest.len() == 0 { None } else if rest[0] == '=' { Some(rest.drop_first()) } else { Some(rest) };
            lemma_take_shape(toks, opts, npos, i, st, find_short(opts, t[1], 0), inline);
        }
    }
}

proof fn lemma_take_shape(toks: Seq<Seq<char>>, opts: Seq<OptDesc>, npos: nat, i: nat, st: ScanState, k: int, inline: Option<Seq<char>>)
    requires
        st.pos.len() <= npos,
        st.vals.len() == opts.len(),
    ensures
        take_value(toks, opts, npos, i, st, k, inline) matches Ok(r) ==> r.pos.len() <= npos && r.vals.len() == opts.len(),
    decreases toks.len() - i, 0nat,
{
    if i < toks.len() && 0 <= k < st.vals.len() && st.vals[k] is None {
        match inline {
            Some(v) => {
                lemma_scan_shape(toks, opts, npos, i + 1, ScanState { vals: st.vals.update(k, Some(v)), ..st });
            },
            None => {
                if i + 1 < toks.len() {
                    lemma_scan_shape(toks, opts, npos, i + 2, ScanState { vals: st.vals.update(k, Some(toks[i + 1 as int])), ..st });
                }
            },
        }
    }
}

impl Cli {
    /// Parses a command line (`args[0]` is the program name), with `env_hub`
    /// the value of the `ASENIX_HUB` environment variable if it is set.
    pub fn try_parse_from_env(args: &[&str], env_hub: Option<&str>) -> (r: Result<Cli, CliErrorKind>)
        ensures
            ({
                let env = match env_hub { Some(e) => Some(e@), None => None::<Seq<char>> };
                match r {
                    Ok(c) => spec_parse(arg_views(args@), env) == Ok::<CmdModel, CliErrorKind>(c.command@),
                    Err(e) => spec_parse(arg_views(args@), env) == Err::<CmdModel, CliErrorKind>(e),
                }
            }),
    {
        if args.len() == 0 {
            assert(arg_views(args@).len() == 0);
            assert(resolve(arg_views(args@), 0, GroupKind::Top) == Err::<(LeafKind, nat), CliErrorKind>(CliErrorKind::MissingSubcommand));
            return Err(CliErrorKind::MissingSubcommand);
        }
        let env: Option<String> = match env_hub {
            Some(e) => Some(to_owned_string(e)),
            None => None,
        };
        let (k, start) = match resolve_exec(args) {
            Ok(p) => p,
            Err(e) => { return Err(e); },
        };
        let opts = leaf_opts_exec(k);
        let npos = leaf_npos_exec(k);
        let (vals, pos) = match scan_exec(args, start, &opts, npos) {
            Ok(p) => p,
            Err(e) => { return Err(e); },
        };
        proof {
            let toks = arg_views(args@).drop_first();
            lemma_scan_shape(toks, leaf_opts(k), leaf_npos(k), (start - 1) as nat, initial_state(leaf_opts(k).len()));
            assert(opt_views(vals@).len() == vals@.len());
            assert(str_views(pos@).len() == pos@.len());
        }
        let command = match build_exec(k, &vals, &pos, &env) {
            Ok(c) => c,
            Err(e) => { return Err(e); },
        };
        Ok(Cli { command })
    }

    /// Parses a command line (`args[0]` is the program name) with
    /// `ASENIX_HUB` unset.
    pub fn try_parse_from(args: &[&str]) -> (r: Result<Cli, CliErrorKind>)
        ensures
            match r {
                Ok(c) => spec_parse(arg_views(args@), None) == Ok::<CmdModel, CliErrorKind>(c.command@),
                Err(e) => spec_parse(arg_views(args@), None) == Err::<CmdModel, CliErrorKind>(e),
            },
    {
        Self::try_parse_from_env(args, None)
    }
}

} // verus!
