//! The hub's domain records beyond atoms: the condition registry, lifecycle
//! transitions, edges between atoms and the message an agent signs to claim
//! a direction.
use vstd::prelude::*;
use vstd::string::StrSliceExecFns;
use crate::atom::Lifecycle;
use crate::error::MoteError;
use crate::json::JsonValue;
use crate::text::{str_eq, to_owned_string, concat2, byte_len, all_alnum_or, chars_all_alnum_or,
    usize_to_decimal, decimal};

verus! {

/// The type of the values a condition key takes.
#[derive(Debug, Clone, Copy, PartialEq, Eq, Structural)]
pub enum ValueType {
    Int,
    Float,
    String,
    Enum,
}

/// A comparison a condition predicate makes.
#[derive(Debug, Clone, Copy, PartialEq, Eq, Structural)]
pub enum ConditionOperator {
    Equals,
    NotEquals,
    GreaterThan,
    LessThan,
    GreaterThanOrEqual,
    LessThanOrEqual,
    Contains,
    NotContains,
}

/// A registered condition key of a domain: its value type, unit and
/// whether atoms must give it.
#[derive(Debug, Clone)]
pub struct ConditionRegistry {
    pub domain: String,
    pub key_name: String,
    pub value_type: ValueType,
    pub unit: Option<String>,
    pub required: bool,
}

/// Counts over the condition registry.
#[derive(Debug, Clone, Copy)]
pub struct RegistryStats {
    pub total_conditions: i64,
    pub unique_domains: i64,
    pub unique_types: i64,
    pub required_conditions: i64,
    pub conditions_with_units: i64,
}

/// The stored name of a value type.
pub open spec fn value_type_name(t: ValueType) -> Seq<char> {
    match t {
        ValueType::Int => "int"@,
        ValueType::Float => "float"@,
        ValueType::String => "string"@,
        ValueType::Enum => "enum"@,
    }
}

/// `str::to_lowercase`: the Unicode lower-case mapping of the text.
pub uninterp spec fn spec_to_lowercase(s: Seq<char>) -> Seq<char>;

/// All characters are ASCII.
pub open spec fn all_ascii(s: Seq<char>) -> bool {
    forall|i: int| 0 <= i < s.len() ==> (#[trigger] s[i]) < '\u{80}'
}

/// `str::to_lowercase`. On ASCII text, Unicode lower-casing maps `A`..`Z`
/// to `a`..`z` and leaves every other character.
#[verifier::external_body]
pub(crate) fn to_lowercase(s: &str) -> (r: String)
    ensures
        r@ == spec_to_lowercase(s@),
        all_ascii(s@) ==> r@ == s@.map_values(|c: char| crate::text::ascii_lower(c)),
{
    s.to_lowercase()
}

/// The value type a registry row names, read without regard to case:
/// `int`/`integer`, `float`/`double`/`real`, `string`/`text`,
/// `enum`/`enumeration`.
pub open spec fn value_type_of_name(lower: Seq<char>) -> Option<ValueType> {
    if lower == "int"@ || lower == "integer"@ {
        Some(ValueType::Int)
    } else if lower == "float"@ || lower == "double"@ || lower == "real"@ {
        Some(ValueType::Float)
    } else if lower == "string"@ || lower == "text"@ {
        Some(ValueType::String)
    } else if lower == "enum"@ || lower == "enumeration"@ {
        Some(ValueType::Enum)
    } else {
        None
    }
}

/// Reads a value type from its name in any case; anything else is an
/// internal error `"Invalid value type: <name>"`.
pub fn parse_value_type(value_type: &str) -> (r: Result<ValueType, MoteError>)
    ensures
        match value_type_of_name(spec_to_lowercase(value_type@)) {
            Some(t) => r == Ok::<ValueType, MoteError>(t),
            None => r is Err && (r->Err_0 matches MoteError::Internal(m) && m@ == "Invalid value type: "@ + value_type@),
        },
{
    let lower = to_lowercase(value_type);
    let l = lower.as_str();
    if str_eq(l, "int") || str_eq(l, "integer") {
        Ok(ValueType::Int)
    } else if str_eq(l, "float") || str_eq(l, "double") || str_eq(l, "real") {
        Ok(ValueType::Float)
    } else if str_eq(l, "string") || str_eq(l, "text") {
        Ok(ValueType::String)
    } else if str_eq(l, "enum") || str_eq(l, "enumeration") {
        Ok(ValueType::Enum)
    } else {
        Err(MoteError::Internal(concat2("Invalid value type: ", value_type)))
    }
}

/// The stored name of a value type.
pub fn value_type_to_string(value_type: &ValueType) -> (r: String)
    ensures
        r@ == value_type_name(*value_type),
{
    match value_type {
        ValueType::Int => to_owned_string("int"),
        ValueType::Float => to_owned_string("float"),
        ValueType::String => to_owned_string("string"),
        ValueType::Enum => to_owned_string("enum"),
    }
}

/// Every value type reads back from the name it is stored under.
pub proof fn lemma_value_type_name_roundtrip(t: ValueType)
    ensures
        all_ascii(value_type_name(t)),
        value_type_name(t).map_values(|c: char| crate::text::ascii_lower(c)) == value_type_name(t),
        value_type_of_name(value_type_name(t)) == Some(t),
{
    reveal_strlit("int");
    reveal_strlit("integer");
    reveal_strlit("float");
    reveal_strlit("double");
    reveal_strlit("real");
    reveal_strlit("string");
    reveal_strlit("text");
    reveal_strlit("enum");
    reveal_strlit("enumeration");
    let n = value_type_name(t);
    assert(n.map_values(|c: char| crate::text::ascii_lower(c)) =~= n);
    assert("int"@.len() == 3 && "integer"@.len() == 7 && "float"@.len() == 5 && "double"@.len() == 6);
    assert("real"@.len() == 4 && "string"@.len() == 6 && "text"@.len() == 4 && "enum"@.len() == 4);
    assert("enumeration"@.len() == 11);
    assert("string"@[0] != "double"@[0]);
    assert("enum"@[0] != "real"@[0] && "enum"@[0] != "text"@[0]);
}

/// The problems of a registry row, in the order they are checked.
pub open spec fn registry_problems(r: ConditionRegistry) -> Seq<Seq<char>> {
    let p1: Seq<Seq<char>> = if r.domain@.len() == 0 { seq!["Domain cannot be empty"@] } else { seq![] };
    let p2: Seq<Seq<char>> = if r.key_name@.len() == 0 { seq!["Key name cannot be empty"@] } else { seq![] };
    let p3: Seq<Seq<char>> = if !all_alnum_or(r.domain@, "_-"@) { seq!["Domain contains invalid characters"@] } else { seq![] };
    let p4: Seq<Seq<char>> = if r.domain@.len() > 100 { seq!["Domain too long (maximum 100 characters)"@] } else { seq![] };
    let p5: Seq<Seq<char>> = if !all_alnum_or(r.key_name@, "_-"@) { seq!["Key name contains invalid characters"@] } else { seq![] };
    let p6: Seq<Seq<char>> = match r.unit {
        Some(u) => if u@.len() > 50 { seq!["Unit too long (maximum 50 characters)"@] } else { seq![] },
        None => seq![],
    };
    p1 + p2 + p3 + p4 + p5 + p6
}

fn push_if(out: &mut Vec<String>, cond: bool, msg: &str)
    ensures
        final(out)@.map_values(|s: String| s@) == old(out)@.map_values(|s: String| s@)
            + (if cond { seq![msg@] } else { Seq::<Seq<char>>::empty() }),
{
    let ghost before = out@.map_values(|s: String| s@);
    if cond {
        out.push(to_owned_string(msg));
        assert(out@.map_values(|s: String| s@) =~= before + seq![msg@]);
    } else {
        assert(out@.map_values(|s: String| s@) =~= before + Seq::<Seq<char>>::empty());
    }
}

/// The warnings about a registry row; an empty list means it is valid.
pub fn validate_registry(registry: &ConditionRegistry) -> (r: Vec<String>)
    ensures
        r@.map_values(|s: String| s@) == registry_problems(*registry),
{
    proof {
        reveal_strlit("Domain cannot be empty");
        reveal_strlit("Key name cannot be empty");
        reveal_strlit("Domain contains invalid characters");
        reveal_strlit("Domain too long (maximum 100 characters)");
        reveal_strlit("Key name contains invalid characters");
        reveal_strlit("Unit too long (maximum 50 characters)");
    }
    let mut out: Vec<String> = Vec::new();
    assert(out@.map_values(|s: String| s@) =~= Seq::<Seq<char>>::empty());
    push_if(&mut out, registry.domain.as_str().is_empty(), "Domain cannot be empty");
    push_if(&mut out, registry.key_name.as_str().is_empty(), "Key name cannot be empty");
    push_if(&mut out, !chars_all_alnum_or(registry.domain.as_str(), "_-"), "Domain contains invalid characters");
    push_if(&mut out, registry.domain.as_str().unicode_len() > 100, "Domain too long (maximum 100 characters)");
    push_if(&mut out, !chars_all_alnum_or(registry.key_name.as_str(), "_-"), "Key name contains invalid characters");
    let unit_long = match &registry.unit {
        Some(u) => u.as_str().unicode_len() > 50,
        None => false,
    };
    push_if(&mut out, unit_long, "Unit too long (maximum 50 characters)");
    proof {
        let p = registry_problems(*registry);
        assert(out@.map_values(|s: String| s@) =~= p);
    }
    out
}

impl ConditionRegistry {
    /// An empty registry row: no domain or key, string-valued, no unit,
    /// optional.
    pub fn new() -> (r: Self)
        ensures
            r.domain@.len() == 0,
            r.key_name@.len() == 0,
            r.value_type == ValueType::String,
            r.unit is None,
            !r.required,
    {
        ConditionRegistry {
            domain: String::new(),
            key_name: String::new(),
            value_type: ValueType::String,
            unit: None,
            required: false,
        }
    }

    /// Whether a value suits the key's type: any number for a float, an
    /// integer that fits `i64` for an int, a string otherwise.
    pub fn validate_value(&self, value: &JsonValue) -> (r: bool)
        ensures
            r == match self.value_type {
                ValueType::Float => value.spec_is_number(),
                ValueType::Int => value.spec_is_i64(),
                _ => value is Str,
            },
    {
        match self.value_type {
            ValueType::Float => value.is_number(),
            ValueType::Int => value.is_i64(),
            ValueType::String | ValueType::Enum => value.is_string(),
        }
    }
}

/// A stored row of the condition registry, its value type by name.
#[derive(Debug, Clone)]
pub struct RegistryRow {
    pub domain: String,
    pub key_name: String,
    pub value_type: String,
    pub unit: Option<String>,
    pub required: bool,
}

/// The value type a stored row names, if it names one.
pub open spec fn row_value_type(row: RegistryRow) -> Option<ValueType> {
    value_type_of_name(spec_to_lowercase(row.value_type@))
}

/// The unit text of an optional unit.
pub open spec fn unit_text(u: Option<String>) -> Option<Seq<char>> {
    match u {
        Some(t) => Some(t@),
        None => None,
    }
}

/// The registry the stored rows load into: every row's value type is
/// read in turn, and the first that names none is an internal error
/// `"Invalid value type: <name>"`; otherwise the registry holds the last
/// row, or is empty (as `ConditionRegistry::new` makes it) when there are
/// no rows.
pub fn registry_from_rows(rows: &[RegistryRow]) -> (r: Result<ConditionRegistry, MoteError>)
    ensures
        r is Ok <==> forall|k: int| 0 <= k < rows@.len() ==> (#[trigger] row_value_type(rows@[k])) is Some,
        r is Err ==> exists|i: int| 0 <= i < rows@.len()
            && (#[trigger] row_value_type(rows@[i])) is None
            && (forall|k: int| 0 <= k < i ==> (#[trigger] row_value_type(rows@[k])) is Some)
            && (r->Err_0 matches MoteError::Internal(m) && m@ == "Invalid value type: "@ + rows@[i].value_type@),
        r matches Ok(g) ==> (rows@.len() == 0 ==> g.domain@.len() == 0 && g.key_name@.len() == 0
            && g.value_type == ValueType::String && g.unit is None && !g.required),
        r matches Ok(g) ==> (rows@.len() > 0 ==> {
            let last = rows@[rows@.len() - 1];
            &&& g.domain@ == last.domain@
            &&& g.key_name@ == last.key_name@
            &&& Some(g.value_type) == row_value_type(last)
            &&& unit_text(g.unit) == unit_text(last.unit)
            &&& g.required == last.required
        }),
{
    let mut registry = ConditionRegistry::new();
    let mut i: usize = 0;
    while i < rows.len()
        invariant
            i <= rows@.len(),
            forall|k: int| 0 <= k < i ==> (#[trigger] row_value_type(rows@[k])) is Some,
            i == 0 ==> registry.domain@.len() == 0 && registry.key_name@.len() == 0
                && registry.value_type == ValueType::String && registry.unit is None && !registry.required,
            i > 0 ==> {
                let last = rows@[i - 1];
                &&& registry.domain@ == last.domain@
                &&& registry.key_name@ == last.key_name@
                &&& Some(registry.value_type) == row_value_type(last)
                &&& unit_text(registry.unit) == unit_text(last.unit)
                &&& registry.required == last.required
            },
        decreases rows@.len() - i,
    {
        let row = &rows[i];
        let value_type = match parse_value_type(row.value_type.as_str()) {
            Ok(t) => t,
            Err(e) => {
                assert(row_value_type(rows@[i as int]) is None);
                return Err(e);
            },
        };
        registry.domain = to_owned_string(row.domain.as_str());
        registry.key_name = to_owned_string(row.key_name.as_str());
        registry.value_type = value_type;
        registry.unit = match &row.unit {
            Some(u) => Some(to_owned_string(u.as_str())),
            None => None,
        };
        registry.required = row.required;
        i = i + 1;
    }
    Ok(registry)
}

/// The conditions a fresh registry starts with, all in the domain
/// `environmental`: key, value type, unit and whether atoms must give it.
pub open spec fn default_conditions() -> Seq<(Seq<char>, Seq<char>, Seq<char>, bool)> {
    seq![
        ("temperature"@, "float"@, "celsius"@, true),
        ("pressure"@, "float"@, "pascal"@, true),
        ("humidity"@, "float"@, "percent"@, false),
        ("ph"@, "float"@, "ph_units"@, true),
        ("conductivity"@, "float"@, "siemens_per_meter"@, false),
        ("color"@, "string"@, "color_code"@, false),
        ("texture"@, "enum"@, "texture_type"@, false),
        ("odor"@, "enum"@, "odor_intensity"@, false),
    ]
}

/// A row stands for a condition: domain, key, value type, unit, required.
pub open spec fn row_is(row: RegistryRow, domain: Seq<char>, c: (Seq<char>, Seq<char>, Seq<char>, bool)) -> bool {
    &&& row.domain@ == domain
    &&& row.key_name@ == c.0
    &&& row.value_type@ == c.1
    &&& unit_text(row.unit) == Some(c.2)
    &&& row.required == c.3
}

fn default_row(key: &str, value_type: &str, unit: &str, required: bool) -> (r: RegistryRow)
    ensures
        r.domain@ == "environmental"@,
        r.key_name@ == key@,
        r.value_type@ == value_type@,
        unit_text(r.unit) == Some(unit@),
        r.required == required,
{
    RegistryRow {
        domain: to_owned_string("environmental"),
        key_name: to_owned_string(key),
        value_type: to_owned_string(value_type),
        unit: Some(to_owned_string(unit)),
        required,
    }
}

/// The rows a registry migration inserts: none when the registry already
/// holds conditions, the default conditions otherwise.
pub fn migration_rows(existing_count: i64) -> (r: Vec<RegistryRow>)
    ensures
        existing_count > 0 ==> r@.len() == 0,
        existing_count <= 0 ==> r@.len() == default_conditions().len()
            && forall|i: int| 0 <= i < r@.len() ==> row_is(#[trigger] r@[i], "environmental"@, default_conditions()[i]),
{
    if existing_count > 0 {
        return Vec::new();
    }
    let r = vec![
        default_row("temperature", "float", "celsius", true),
        default_row("pressure", "float", "pascal", true),
        default_row("humidity", "float", "percent", false),
        default_row("ph", "float", "ph_units", true),
        default_row("conductivity", "float", "siemens_per_meter", false),
        default_row("color", "string", "color_code", false),
        default_row("texture", "enum", "texture_type", false),
        default_row("odor", "enum", "odor_intensity", false),
    ];
    assert forall|i: int| 0 <= i < r@.len() implies row_is(#[trigger] r@[i], "environmental"@, default_conditions()[i]) by {
        if i == 0 {} else if i == 1 {} else if i == 2 {} else if i == 3 {} else if i == 4 {} else if i == 5 {} else if i == 6 {} else {}
    }
    r
}

/// What decides whether two sets of conditions agree on a registered key.
#[derive(Debug)]
pub enum Equivalence<'a> {
    /// They agree, or they do not.
    Decided(bool),
    /// Both give the float-valued key a number: they agree when the two
    /// numbers lie within the caller's tolerance of each other.
    WithinTolerance(&'a JsonValue, &'a JsonValue),
}

/// The text of a string value, none for another value.
pub open spec fn text_of(v: JsonValue) -> Option<Seq<char>> {
    match v {
        JsonValue::Str(t) => Some(t@),
        _ => None,
    }
}

/// Whether two sets of conditions agree on a registered key, when that can
/// be decided without the float tolerance; none when both give a float key
/// a number. An optional key never separates them; a required one agrees
/// when both leave it out, and otherwise by its type: integers (that fit
/// `i64`) must be equal, strings and enums must have the same text (two
/// values that are not strings agree). A key one set gives and the other
/// does not, or a non-number or non-integer where one is needed, separates
/// them.
pub open spec fn equivalence_outcome(reg: ConditionRegistry, c1: JsonValue, c2: JsonValue) -> Option<bool> {
    if !reg.required {
        Some(true)
    } else {
        match (c1.spec_get(reg.key_name@), c2.spec_get(reg.key_name@)) {
            (Some(v1), Some(v2)) => match reg.value_type {
                ValueType::Float => if v1.spec_is_number() && v2.spec_is_number() { None } else { Some(false) },
                ValueType::Int => Some(crate::publish::json_i64(v1) is Some
                    && crate::publish::json_i64(v1) == crate::publish::json_i64(v2)),
                _ => Some(text_of(v1) == text_of(v2)),
            },
            (None, None) => Some(true),
            _ => Some(false),
        }
    }
}

/// Which sets of conditions an absent key separates: an optional key never
/// separates two sets; a required one agrees when both leave it out and
/// separates them when only one gives it; two numbers of a required float
/// key are left to the tolerance comparison, and nothing else is.
pub proof fn lemma_presence_decides(reg: ConditionRegistry, c1: JsonValue, c2: JsonValue)
    ensures
        !reg.required ==> equivalence_outcome(reg, c1, c2) == Some(true),
        reg.required && c1.spec_get(reg.key_name@) is None && c2.spec_get(reg.key_name@) is None
            ==> equivalence_outcome(reg, c1, c2) == Some(true),
        reg.required && (c1.spec_get(reg.key_name@) is None) != (c2.spec_get(reg.key_name@) is None)
            ==> equivalence_outcome(reg, c1, c2) == Some(false),
        equivalence_outcome(reg, c1, c2) is None <==> (reg.required && reg.value_type == ValueType::Float
            && (c1.spec_get(reg.key_name@) matches Some(v1) && v1.spec_is_number())
            && (c2.spec_get(reg.key_name@) matches Some(v2) && v2.spec_is_number())),
{
}

/// A required string or enum key given as a string by both sets of
/// conditions: the sets agree on it exactly when the two strings are equal
/// (an enum is compared like a string, by its text).
pub proof fn lemma_text_keys_compare_text(reg: ConditionRegistry, c1: JsonValue, c2: JsonValue, a: String, b: String)
    requires
        reg.required,
        reg.value_type == ValueType::String || reg.value_type == ValueType::Enum,
        c1.spec_get(reg.key_name@) == Some(JsonValue::Str(a)),
        c2.spec_get(reg.key_name@) == Some(JsonValue::Str(b)),
    ensures
        equivalence_outcome(reg, c1, c2) == Some(a@ == b@),
{
}

/// A required integer key given by both sets as integers that fit `i64`:
/// they agree exactly when the two integers are equal.
pub proof fn lemma_int_keys_compare_value(reg: ConditionRegistry, c1: JsonValue, c2: JsonValue,
    v1: JsonValue, v2: JsonValue, x: i64, y: i64)
    requires
        reg.required,
        reg.value_type == ValueType::Int,
        c1.spec_get(reg.key_name@) == Some(v1),
        c2.spec_get(reg.key_name@) == Some(v2),
        crate::publish::json_i64(v1) == Some(x),
        crate::publish::json_i64(v2) == Some(y),
    ensures
        equivalence_outcome(reg, c1, c2) == Some(x == y),
{
}

/// Equivalence is symmetric: swapping the two sets of conditions gives the
/// same verdict (and, for a float key, the same two numbers to compare).
pub proof fn lemma_equivalence_symmetric(reg: ConditionRegistry, c1: JsonValue, c2: JsonValue)
    ensures
        equivalence_outcome(reg, c1, c2) == equivalence_outcome(reg, c2, c1),
{
}

impl ConditionRegistry {
    /// Whether two sets of conditions agree on this key (see
    /// [`equivalence_outcome`]); two numbers of a float key are handed back
    /// to be compared against the tolerance by the caller.
    pub fn equivalence<'a>(&self, conditions1: &'a JsonValue, conditions2: &'a JsonValue) -> (r: Equivalence<'a>)
        ensures
            match equivalence_outcome(*self, *conditions1, *conditions2) {
                Some(b) => r == Equivalence::Decided(b),
                None => r matches Equivalence::WithinTolerance(a, b)
                    && Some(*a) == conditions1.spec_get(self.key_name@)
                    && Some(*b) == conditions2.spec_get(self.key_name@),
            },
    {
        if !self.required {
            return Equivalence::Decided(true);
        }
        let key = self.key_name.as_str();
        match (conditions1.get(key), conditions2.get(key)) {
            (Some(v1), Some(v2)) => match self.value_type {
                ValueType::Float => if v1.is_number() && v2.is_number() {
                    Equivalence::WithinTolerance(v1, v2)
                } else {
                    Equivalence::Decided(false)
                },
                ValueType::Int => {
                    let i1 = int_of(v1);
                    let i2 = int_of(v2);
                    match (i1, i2) {
                        (Some(a), Some(b)) => Equivalence::Decided(a == b),
                        _ => Equivalence::Decided(false),
                    }
                },
                _ => {
                    let same = match (v1.as_str(), v2.as_str()) {
                        (Some(a), Some(b)) => str_eq(a, b),
                        (None, None) => true,
                        _ => false,
                    };
                    Equivalence::Decided(same)
                },
            },
            (None, None) => Equivalence::Decided(true),
            _ => Equivalence::Decided(false),
        }
    }
}

fn int_of(v: &JsonValue) -> (r: Option<i64>)
    ensures
        r == crate::publish::json_i64(*v),
{
    match v {
        JsonValue::PosInt(u) => if *u <= 0x7fff_ffff_ffff_ffff { Some(*u as i64) } else { None },
        JsonValue::NegInt(i) => Some(*i),
        _ => None,
    }
}

/// A change of an atom's lifecycle stage.
#[derive(Debug, Clone, Copy, PartialEq, Eq, Structural)]
pub enum LifecycleTransition {
    ProvisionalToReplicated,
    ReplicatedToCore,
    ToContested,
    ContestedToResolved,
    ToRetracted,
}

/// The stored name of the stage a transition leads to.
pub open spec fn transition_target_name(t: LifecycleTransition) -> Seq<char> {
    match t {
        LifecycleTransition::ProvisionalToReplicated => "replicated"@,
        LifecycleTransition::ReplicatedToCore => "core"@,
        LifecycleTransition::ToContested => "contested"@,
        LifecycleTransition::ContestedToResolved => "resolved"@,
        LifecycleTransition::ToRetracted => "retracted"@,
    }
}

impl LifecycleTransition {
    /// The stored name of the stage this transition leads to.
    pub fn new_lifecycle_str(&self) -> (r: &'static str)
        ensures
            r@ == transition_target_name(*self),
    {
        match self {
            LifecycleTransition::ProvisionalToReplicated => "replicated",
            LifecycleTransition::ReplicatedToCore => "core",
            LifecycleTransition::ToContested => "contested",
            LifecycleTransition::ContestedToResolved => "resolved",
            LifecycleTransition::ToRetracted => "retracted",
        }
    }
}

/// The transition an atom undergoes, from its stage, its exact replication
/// count, the counts of contradicting and replicating edges and whether its
/// disagreement pheromone is above the threshold. Contradiction with high
/// disagreement contests a provisional or replicated atom; replication
/// promotes it (one threshold for replicated, another for core); a
/// contested atom is resolved once replicated to the core threshold with
/// more than twice as many replicating as contradicting edges. Core atoms
/// do not move.
pub open spec fn lifecycle_step(
    lifecycle: Lifecycle,
    repl_exact: i32,
    contradicts: i64,
    replicates: i64,
    disagreement_high: bool,
    threshold_replicated: i32,
    threshold_core: i32,
) -> Option<LifecycleTransition> {
    match lifecycle {
        Lifecycle::Provisional => {
            if contradicts > 0 && disagreement_high {
                Some(LifecycleTransition::ToContested)
            } else if repl_exact >= threshold_replicated {
                Some(LifecycleTransition::ProvisionalToReplicated)
            } else {
                None
            }
        },
        Lifecycle::Replicated => {
            if contradicts > 0 && disagreement_high {
                Some(LifecycleTransition::ToContested)
            } else if repl_exact >= threshold_core {
                Some(LifecycleTransition::ReplicatedToCore)
            } else {
                None
            }
        },
        Lifecycle::Contested => {
            if repl_exact >= threshold_core && replicates > contradicts * 2 {
                Some(LifecycleTransition::ContestedToResolved)
            } else {
                None
            }
        },
        Lifecycle::Core => None,
    }
}

/// A contested atom is resolved only once its exact replications reach the
/// core threshold and its replicating edges outnumber twice its
/// contradicting ones; below the core threshold it stays contested, and
/// resolution is the only way out of that stage.
pub proof fn lemma_contested_resolution_needs_core(
    repl_exact: i32,
    contradicts: i64,
    replicates: i64,
    disagreement_high: bool,
    threshold_replicated: i32,
    threshold_core: i32,
)
    ensures
        repl_exact < threshold_core ==> lifecycle_step(Lifecycle::Contested, repl_exact, contradicts, replicates,
            disagreement_high, threshold_replicated, threshold_core) is None,
        replicates <= contradicts * 2 ==> lifecycle_step(Lifecycle::Contested, repl_exact, contradicts, replicates,
            disagreement_high, threshold_replicated, threshold_core) is None,
        lifecycle_step(Lifecycle::Contested, repl_exact, contradicts, replicates, disagreement_high,
            threshold_replicated, threshold_core) matches Some(t) ==> t == LifecycleTransition::ContestedToResolved,
{
}

/// Promotion goes one stage at a time and each stage has its own
/// threshold: a provisional atom is promoted to replicated only at the
/// replicated threshold, a replicated one to core only at the core
/// threshold; either is contested, before any promotion, exactly when it
/// has a contradicting edge and high disagreement.
pub proof fn lemma_promotion_thresholds(
    repl_exact: i32,
    contradicts: i64,
    replicates: i64,
    disagreement_high: bool,
    threshold_replicated: i32,
    threshold_core: i32,
)
    ensures
        ({
            let p = lifecycle_step(Lifecycle::Provisional, repl_exact, contradicts, replicates,
                disagreement_high, threshold_replicated, threshold_core);
            &&& (p == Some(LifecycleTransition::ToContested) <==> (contradicts > 0 && disagreement_high))
            &&& (p == Some(LifecycleTransition::ProvisionalToReplicated)
                <==> (!(contradicts > 0 && disagreement_high) && repl_exact >= threshold_replicated))
            &&& (p is None <==> (!(contradicts > 0 && disagreement_high) && repl_exact < threshold_replicated))
        }),
        ({
            let q = lifecycle_step(Lifecycle::Replicated, repl_exact, contradicts, replicates,
                disagreement_high, threshold_replicated, threshold_core);
            &&& (q == Some(LifecycleTransition::ToContested) <==> (contradicts > 0 && disagreement_high))
            &&& (q == Some(LifecycleTransition::ReplicatedToCore)
                <==> (!(contradicts > 0 && disagreement_high) && repl_exact >= threshold_core))
            &&& (q is None <==> (!(contradicts > 0 && disagreement_high) && repl_exact < threshold_core))
        }),
{
}

/// Decides an atom's next lifecycle transition (see [`lifecycle_step`]).
pub fn evaluate_lifecycle(
    lifecycle: Lifecycle,
    repl_exact: i32,
    contradicts_edge_count: i64,
    replicates_edge_count: i64,
    disagreement_high: bool,
    threshold_replicated: i32,
    threshold_core: i32,
) -> (r: Option<LifecycleTransition>)
    requires
        lifecycle is Contested ==> i64::MIN <= contradicts_edge_count * 2 <= i64::MAX,
    ensures
        r == lifecycle_step(lifecycle, repl_exact, contradicts_edge_count, replicates_edge_count,
            disagreement_high, threshold_replicated, threshold_core),
{
    match lifecycle {
        Lifecycle::Provisional => {
            if contradicts_edge_count > 0 && disagreement_high {
                Some(LifecycleTransition::ToContested)
            } else if repl_exact >= threshold_replicated {
                Some(LifecycleTransition::ProvisionalToReplicated)
            } else {
                None
            }
        },
        Lifecycle::Replicated => {
            if contradicts_edge_count > 0 && disagreement_high {
                Some(LifecycleTransition::ToContested)
            } else if repl_exact >= threshold_core {
                Some(LifecycleTransition::ReplicatedToCore)
            } else {
                None
            }
        },
        Lifecycle::Contested => {
            if repl_exact >= threshold_core && replicates_edge_count > contradicts_edge_count * 2 {
                Some(LifecycleTransition::ContestedToResolved)
            } else {
                None
            }
        },
        Lifecycle::Core => None,
    }
}

/// A core atom never changes stage; a transition out of a stage always
/// leads to a stage named differently from the one it left.
pub proof fn lemma_lifecycle_core_terminal(
    repl_exact: i32,
    contradicts: i64,
    replicates: i64,
    disagreement_high: bool,
    threshold_replicated: i32,
    threshold_core: i32,
)
    ensures
        lifecycle_step(Lifecycle::Core, repl_exact, contradicts, replicates, disagreement_high,
            threshold_replicated, threshold_core) is None,
        lifecycle_step(Lifecycle::Provisional, repl_exact, contradicts, replicates, disagreement_high,
            threshold_replicated, threshold_core) != Some(LifecycleTransition::ReplicatedToCore),
{
}

/// Contradiction with high disagreement contests a provisional or
/// replicated atom whatever its replication count.
pub proof fn lemma_contradiction_contests(
    lifecycle: Lifecycle,
    repl_exact: i32,
    contradicts: i64,
    replicates: i64,
    threshold_replicated: i32,
    threshold_core: i32,
)
    requires
        lifecycle is Provisional || lifecycle is Replicated,
        contradicts > 0,
    ensures
        lifecycle_step(lifecycle, repl_exact, contradicts, replicates, true, threshold_replicated, threshold_core)
            == Some(LifecycleTransition::ToContested),
{
}

/// The kind of an edge between two atoms.
#[derive(Debug, Clone, Copy, PartialEq, Eq, Structural)]
pub enum EdgeType {
    DerivedFrom,
    InspiredBy,
    Contradicts,
    Replicates,
    Summarizes,
    Supersedes,
    Retracts,
}

/// How a replication relates to the atom it replicates.
#[derive(Debug, Clone, Copy, PartialEq, Eq, Structural)]
pub enum ReplicationType {
    Exact,
    Conceptual,
    Extension,
}

/// An edge to publish; `SELF:N` as an end names the Nth atom of the batch.
#[derive(Debug, Clone)]
pub struct EdgeInput {
    pub source_id: String,
    pub target_id: String,
    pub edge_type: EdgeType,
    pub repl_type: Option<ReplicationType>,
}

/// The text `{:?}` gives for a list of bytes: `[1, 2, 3]`.
pub open spec fn bytes_debug(b: Seq<u8>) -> Seq<char> {
    seq!['['] + bytes_debug_items(b) + seq![']']
}

/// The decimal bytes, separated by `", "`.
pub open spec fn bytes_debug_items(b: Seq<u8>) -> Seq<char>
    decreases b.len(),
{
    if b.len() == 0 {
        Seq::empty()
    } else if b.len() == 1 {
        decimal(b[0] as nat)
    } else {
        bytes_debug_items(b.drop_last()) + ", "@ + decimal(b.last() as nat)
    }
}

/// The message an agent signs to claim a direction:
/// `<domain>:<conditions JSON>:<signature bytes as a list>`.
pub fn create_claim_message(domain: &str, conditions_json: &str, signature: &[u8]) -> (r: String)
    ensures
        r@ == domain@ + ":"@ + conditions_json@ + ":"@ + bytes_debug(signature@),
{
    let mut items = String::new();
    let mut i: usize = 0;
    while i < signature.len()
        invariant
            i <= signature@.len(),
            items@ == bytes_debug_items(signature@.subrange(0, i as int)),
        decreases signature@.len() - i,
    {
        let ghost t = signature@.subrange(0, i + 1);
        assert(t.drop_last() =~= signature@.subrange(0, i as int));
        if i > 0 {
            items.append(", ");
        } else {
            assert(signature@.subrange(0, 0).len() == 0);
        }
        let d = usize_to_decimal(signature[i] as usize);
        items.append(d.as_str());
        i = i + 1;
    }
    assert(signature@.subrange(0, signature@.len() as int) =~= signature@);
    proof {
        reveal_strlit(":");
        reveal_strlit(":[");
        reveal_strlit("]");
    }
    let mut out = concat2(domain, ":");
    out.append(conditions_json);
    out.append(":[");
    out.append(items.as_str());
    out.append("]");
    assert(out@ =~= domain@ + ":"@ + conditions_json@ + ":"@ + bytes_debug(signature@));
    out
}


/// Whether larger values of a metric are better: unless the metrics mark
/// it `"<name>_direction": "lower"`, they are.
pub open spec fn higher_is_better(metrics: JsonValue, name: Seq<char>) -> bool {
    match metrics.spec_get(name + "_direction"@) {
        Some(JsonValue::Str(d)) => d@ != "lower"@,
        _ => true,
    }
}

/// Reads a metric's direction from the metrics object.
pub fn is_higher_better(metrics: &JsonValue, metric_name: &str) -> (r: bool)
    ensures
        r == higher_is_better(*metrics, metric_name@),
{
    let key = concat2(metric_name, "_direction");
    match metrics.get(key.as_str()) {
        Some(JsonValue::Str(d)) => !str_eq(d.as_str(), "lower"),
        _ => true,
    }
}

} // verus!
