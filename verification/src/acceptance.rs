//! The acceptance pipeline: the rules an atom passes before it is stored,
//! tried in order of priority.
use vstd::prelude::*;
use vstd::string::StrSliceExecFns;
use crate::atom::{AtomInput, AtomType};
use crate::error::{MoteError, validation_error_with};
use crate::json::JsonValue;
use crate::text::{str_eq, to_owned_string, concat3, all_alnum_or, chars_all_alnum_or};

verus! {

/// What the pipeline decides about an atom.
#[derive(Debug, Clone)]
pub enum AcceptanceDecision {
    Accept,
    Reject(String),
    Queue(String),
}

/// A decision with its reason as a character sequence.
pub ghost enum DecisionView {
    Accept,
    Reject(Seq<char>),
    Queue(Seq<char>),
}

impl View for AcceptanceDecision {
    type V = DecisionView;

    open spec fn view(&self) -> DecisionView {
        match self {
            AcceptanceDecision::Accept => DecisionView::Accept,
            AcceptanceDecision::Reject(s) => DecisionView::Reject(s@),
            AcceptanceDecision::Queue(s) => DecisionView::Queue(s@),
        }
    }
}

/// A named rule of the pipeline; rules of higher priority run first.
#[derive(Debug, Clone)]
pub struct AcceptanceRule {
    pub name: String,
    pub enabled: bool,
    pub priority: u32,
}

/// The pipeline: its rules, kept in order of decreasing priority.
pub struct AcceptancePipeline {
    rules: Vec<AcceptanceRule>,
}

/// The verdict of the rule `statement_length`: the statement's length
/// in characters lies in 10..=10000.
pub open spec fn statement_length_outcome(a: AtomInput) -> DecisionView {
    let n = a.statement@.len();
    if n < 10 {
        DecisionView::Reject("Statement too short (minimum 10 characters)"@)
    } else if n > 10000 {
        DecisionView::Reject("Statement too long (maximum 10000 characters)"@)
    } else {
        DecisionView::Accept
    }
}

/// The verdict of the rule `required_fields`: domain, statement and
/// signature are present.
pub open spec fn required_fields_outcome(a: AtomInput) -> DecisionView {
    if a.domain@.len() == 0 {
        DecisionView::Reject("Domain is required"@)
    } else if a.statement@.len() == 0 {
        DecisionView::Reject("Statement is required"@)
    } else if a.signature@.len() == 0 {
        DecisionView::Reject("Signature is required"@)
    } else {
        DecisionView::Accept
    }
}

/// The verdict of the rule `domain_validation`: the domain is made of
/// alphanumerics, `_` and `-`, at most 100 characters long.
pub open spec fn domain_validation_outcome(a: AtomInput) -> DecisionView {
    if !all_alnum_or(a.domain@, "_-"@) {
        DecisionView::Reject("Domain contains invalid characters"@)
    } else if a.domain@.len() > 100 {
        DecisionView::Reject("Domain too long (maximum 100 characters)"@)
    } else {
        DecisionView::Accept
    }
}

/// The verdict of the rule `atom_type_limits`: a hypothesis without
/// conditions, or a finding without metrics, waits for review.
pub open spec fn atom_type_limits_outcome(a: AtomInput) -> DecisionView {
    match a.atom_type {
        AtomType::Hypothesis => {
            if !(a.conditions matches JsonValue::Object(m) && m@.len() > 0) {
                DecisionView::Queue("Hypothesis without conditions queued for review"@)
            } else {
                DecisionView::Accept
            }
        },
        AtomType::Finding => {
            if a.metrics is None {
                DecisionView::Queue("Finding without metrics queued for review"@)
            } else {
                DecisionView::Accept
            }
        },
        _ => DecisionView::Accept,
    }
}

/// The verdict of the rule called `name`; a name the pipeline does not
/// know accepts.
pub open spec fn rule_outcome(name: Seq<char>, a: AtomInput) -> DecisionView {
    if name == "statement_length"@ {
        statement_length_outcome(a)
    } else if name == "required_fields"@ {
        required_fields_outcome(a)
    } else if name == "domain_validation"@ {
        domain_validation_outcome(a)
    } else if name == "atom_type_limits"@ {
        atom_type_limits_outcome(a)
    } else {
        DecisionView::Accept
    }
}

/// The verdict of a list of rules tried in order: the first enabled rule
/// that does not accept decides; if none, the atom is accepted.
pub open spec fn pipeline_outcome(rules: Seq<AcceptanceRule>, a: AtomInput) -> DecisionView
    decreases rules.len(),
{
    if rules.len() == 0 {
        DecisionView::Accept
    } else {
        let d = rule_outcome(rules[0].name@, a);
        if rules[0].enabled && !(d is Accept) {
            d
        } else {
            pipeline_outcome(rules.drop_first(), a)
        }
    }
}

/// The rules of a new pipeline, by name and priority, in the order they run.
pub open spec fn default_rule(i: int) -> (Seq<char>, u32) {
    if i == 0 {
        ("statement_length"@, 300u32)
    } else if i == 1 {
        ("required_fields"@, 200u32)
    } else if i == 2 {
        ("domain_validation"@, 150u32)
    } else {
        ("atom_type_limits"@, 100u32)
    }
}

/// `rules` are the four rules of the pipeline, in order of priority, each
/// enabled or not.
pub open spec fn rules_wf(rules: Seq<AcceptanceRule>) -> bool {
    &&& rules.len() == 4
    &&& forall|i: int| 0 <= i < 4 ==> (#[trigger] rules[i]).name@ == default_rule(i).0
        && rules[i].priority == default_rule(i).1
}

/// `rules` with the `enabled` flag of the rule called `name` set to `flag`.
pub open spec fn with_flag(rules: Seq<AcceptanceRule>, name: Seq<char>, flag: bool) -> Seq<AcceptanceRule> {
    rules.map_values(|r: AcceptanceRule|
        if r.name@ == name { AcceptanceRule { name: r.name, enabled: flag, priority: r.priority } } else { r })
}

/// Some rule of `rules` is called `name`.
pub open spec fn has_rule(rules: Seq<AcceptanceRule>, name: Seq<char>) -> bool {
    exists|i: int| 0 <= i < rules.len() && (#[trigger] rules[i]).name@ == name
}

proof fn lemma_default_names_distinct()
    ensures
        forall|i: int, j: int| 0 <= i < 4 && 0 <= j < 4 && i != j ==> default_rule(i).0 != default_rule(j).0,
{
    reveal_strlit("statement_length");
    reveal_strlit("required_fields");
    reveal_strlit("domain_validation");
    reveal_strlit("atom_type_limits");
    assert("statement_length"@[0] != "required_fields"@[0]);
    assert("statement_length"@[0] != "domain_validation"@[0]);
    assert("statement_length"@[0] != "atom_type_limits"@[0]);
    assert("required_fields"@[0] != "domain_validation"@[0]);
    assert("required_fields"@[0] != "atom_type_limits"@[0]);
    assert("domain_validation"@[0] != "atom_type_limits"@[0]);
}

fn make_rule(name: &str, priority: u32) -> (r: AcceptanceRule)
    ensures
        r.name@ == name@,
        r.enabled,
        r.priority == priority,
{
    AcceptanceRule { name: to_owned_string(name), enabled: true, priority }
}

impl View for AcceptancePipeline {
    type V = Seq<AcceptanceRule>;

    closed spec fn view(&self) -> Seq<AcceptanceRule> {
        self.rules@
    }
}

impl AcceptancePipeline {
    /// The pipeline's rules are its four rules in order of priority.
    pub open spec fn wf(&self) -> bool {
        rules_wf(self@)
    }

    /// A pipeline with its four rules, all enabled: `statement_length`
    /// (300), `required_fields` (200), `domain_validation` (150) and
    /// `atom_type_limits` (100).
    pub fn new() -> (r: Self)
        ensures
            r.wf(),
            forall|i: int| 0 <= i < 4 ==> (#[trigger] r@[i]).enabled,
    {
        let mut rules: Vec<AcceptanceRule> = Vec::new();
        rules.push(make_rule("statement_length", 300));
        rules.push(make_rule("required_fields", 200));
        rules.push(make_rule("domain_validation", 150));
        rules.push(make_rule("atom_type_limits", 100));
        let r = AcceptancePipeline { rules };
        assert(r@ == rules@);
        r
    }

    fn apply_rule(&self, rule_name: &str, atom_input: &AtomInput) -> (r: AcceptanceDecision)
        ensures
            r@ == rule_outcome(rule_name@, *atom_input),
    {
        if str_eq(rule_name, "statement_length") {
            check_statement_length(atom_input)
        } else if str_eq(rule_name, "required_fields") {
            check_required_fields(atom_input)
        } else if str_eq(rule_name, "domain_validation") {
            check_domain_validation(atom_input)
        } else if str_eq(rule_name, "atom_type_limits") {
            check_atom_type_limits(atom_input)
        } else {
            AcceptanceDecision::Accept
        }
    }

    /// Runs the enabled rules in order of priority; the first that rejects
    /// or queues the atom decides, and an atom that passes them all is
    /// accepted.
    pub fn evaluate_atom(&self, atom_input: &AtomInput) -> (r: AcceptanceDecision)
        requires
            self.wf(),
        ensures
            r@ == pipeline_outcome(self@, *atom_input),
    {
        let n = self.rules.len();
        let mut i: usize = 0;
        assert(self@.subrange(0, n as int) =~= self@);
        while i < n
            invariant
                n == self@.len(),
                i <= n,
                self@ == self.rules@,
                pipeline_outcome(self@, *atom_input) == pipeline_outcome(self@.subrange(i as int, n as int), *atom_input),
            decreases n - i,
        {
            let rule = &self.rules[i];
            proof {
                assert(self@.subrange(i as int, n as int)[0] == self@[i as int]);
                assert(self@.subrange(i as int, n as int).drop_first() =~= self@.subrange(i + 1, n as int));
            }
            if rule.enabled {
                let d = self.apply_rule(rule.name.as_str(), atom_input);
                match d {
                    AcceptanceDecision::Accept => {},
                    _ => {
                        return d;
                    },
                }
            }
            i = i + 1;
        }
        proof {
            assert(self@.subrange(n as int, n as int).len() == 0);
        }
        AcceptanceDecision::Accept
    }

    fn index_of_rule(&self, rule_name: &str) -> (r: Option<usize>)
        requires
            self.wf(),
        ensures
            r is Some <==> has_rule(self@, rule_name@),
            r is Some ==> r->0 < self@.len() && self@[r->0 as int].name@ == rule_name@,
    {
        let mut i: usize = 0;
        while i < self.rules.len()
            invariant
                i <= self@.len(),
                self@ == self.rules@,
                forall|k: int| 0 <= k < i ==> (#[trigger] self@[k]).name@ != rule_name@,
            decreases self@.len() - i,
        {
            if str_eq(self.rules[i].name.as_str(), rule_name) {
                return Some(i);
            }
            i = i + 1;
        }
        None
    }

    fn set_flag(&mut self, rule_name: &str, flag: bool) -> (r: Result<(), MoteError>)
        requires
            old(self).wf(),
        ensures
            final(self).wf(),
            has_rule(old(self)@, rule_name@) ==> r is Ok && final(self)@ == with_flag(old(self)@, rule_name@, flag),
            !has_rule(old(self)@, rule_name@) ==> r is Err && final(self)@ == old(self)@
                && validation_error_with(r->Err_0, "Rule '"@ + rule_name@ + "' not found"@),
    {
        match self.index_of_rule(rule_name) {
            Some(i) => {
                let ghost before = self@;
                let mut rule = self.rules.remove(i);
                rule.enabled = flag;
                self.rules.insert(i, rule);
                proof {
                    lemma_default_names_distinct();
                    assert forall|k: int| 0 <= k < 4 implies (#[trigger] self@[k]) == with_flag(before, rule_name@, flag)[k] by {
                        if k != i {
                            assert(before[k].name@ == default_rule(k).0);
                            assert(before[i as int].name@ == default_rule(i as int).0);
                        }
                    }
                    assert(self@ =~= with_flag(before, rule_name@, flag));
                }
                Ok(())
            },
            None => Err(MoteError::Validation(concat3("Rule '", rule_name, "' not found"))),
        }
    }

    /// Enables the rule called `rule_name`; a name the pipeline does not
    /// know is a validation error `"Rule '<name>' not found"`.
    pub fn enable_rule(&mut self, rule_name: &str) -> (r: Result<(), MoteError>)
        requires
            old(self).wf(),
        ensures
            final(self).wf(),
            has_rule(old(self)@, rule_name@) ==> r is Ok && final(self)@ == with_flag(old(self)@, rule_name@, true),
            !has_rule(old(self)@, rule_name@) ==> r is Err && final(self)@ == old(self)@
                && validation_error_with(r->Err_0, "Rule '"@ + rule_name@ + "' not found"@),
    {
        self.set_flag(rule_name, true)
    }

    /// Disables the rule called `rule_name`; a name the pipeline does not
    /// know is a validation error `"Rule '<name>' not found"`.
    pub fn disable_rule(&mut self, rule_name: &str) -> (r: Result<(), MoteError>)
        requires
            old(self).wf(),
        ensures
            final(self).wf(),
            has_rule(old(self)@, rule_name@) ==> r is Ok && final(self)@ == with_flag(old(self)@, rule_name@, false),
            !has_rule(old(self)@, rule_name@) ==> r is Err && final(self)@ == old(self)@
                && validation_error_with(r->Err_0, "Rule '"@ + rule_name@ + "' not found"@),
    {
        self.set_flag(rule_name, false)
    }

    /// The pipeline's rules, in the order they run.
    pub fn list_rules(&self) -> (r: Vec<&AcceptanceRule>)
        ensures
            r@.len() == self@.len(),
            forall|i: int| 0 <= i < r@.len() ==> *(#[trigger] r@[i]) == self@[i],
    {
        let mut out: Vec<&AcceptanceRule> = Vec::new();
        let mut i: usize = 0;
        while i < self.rules.len()
            invariant
                i <= self@.len(),
                self@ == self.rules@,
                out@.len() == i,
                forall|k: int| 0 <= k < i ==> *(#[trigger] out@[k]) == self@[k],
            decreases self@.len() - i,
        {
            out.push(&self.rules[i]);
            i = i + 1;
        }
        out
    }
}

impl Default for AcceptancePipeline {
    fn default() -> (r: Self)
        ensures
            r.wf(),
            forall|i: int| 0 <= i < 4 ==> (#[trigger] r@[i]).enabled,
    {
        Self::new()
    }
}

fn check_statement_length(atom_input: &AtomInput) -> (r: AcceptanceDecision)
    ensures
        r@ == statement_length_outcome(*atom_input),
{
    let statement_len = atom_input.statement.as_str().unicode_len();
    if statement_len < 10 {
        proof { reveal_strlit("Statement too short (minimum 10 characters)"); }
        return AcceptanceDecision::Reject(to_owned_string("Statement too short (minimum 10 characters)"));
    }
    if statement_len > 10000 {
        return AcceptanceDecision::Reject(to_owned_string("Statement too long (maximum 10000 characters)"));
    }
    AcceptanceDecision::Accept
}

fn check_required_fields(atom_input: &AtomInput) -> (r: AcceptanceDecision)
    ensures
        r@ == required_fields_outcome(*atom_input),
{
    if atom_input.domain.as_str().is_empty() {
        return AcceptanceDecision::Reject(to_owned_string("Domain is required"));
    }
    if atom_input.statement.as_str().is_empty() {
        return AcceptanceDecision::Reject(to_owned_string("Statement is required"));
    }
    if atom_input.signature.len() == 0 {
        return AcceptanceDecision::Reject(to_owned_string("Signature is required"));
    }
    AcceptanceDecision::Accept
}

fn check_domain_validation(atom_input: &AtomInput) -> (r: AcceptanceDecision)
    ensures
        r@ == domain_validation_outcome(*atom_input),
{
    if !chars_all_alnum_or(atom_input.domain.as_str(), "_-") {
        return AcceptanceDecision::Reject(to_owned_string("Domain contains invalid characters"));
    }
    if atom_input.domain.as_str().unicode_len() > 100 {
        return AcceptanceDecision::Reject(to_owned_string("Domain too long (maximum 100 characters)"));
    }
    AcceptanceDecision::Accept
}

fn check_atom_type_limits(atom_input: &AtomInput) -> (r: AcceptanceDecision)
    ensures
        r@ == atom_type_limits_outcome(*atom_input),
{
    match atom_input.atom_type {
        AtomType::Hypothesis => {
            if !atom_input.conditions.is_nonempty_object() {
                return AcceptanceDecision::Queue(to_owned_string("Hypothesis without conditions queued for review"));
            }
        },
        AtomType::Finding => {
            if atom_input.metrics.is_none() {
                return AcceptanceDecision::Queue(to_owned_string("Finding without metrics queued for review"));
            }
        },
        _ => {},
    }
    AcceptanceDecision::Accept
}

/// The verdicts of the checking rules over all atoms: a statement is
/// accepted exactly when it has 10 to 10000 characters; the required
/// fields pass exactly when domain, statement and signature are all
/// present; the domain passes exactly when it is made of alphanumerics,
/// `_` and `-` and has at most 100 characters. None of them queues.
pub proof fn lemma_checking_rule_verdicts(a: AtomInput)
    ensures
        (statement_length_outcome(a) is Accept) <==> (10 <= a.statement@.len() <= 10000),
        !(statement_length_outcome(a) is Queue),
        (required_fields_outcome(a) is Accept)
            <==> (a.domain@.len() > 0 && a.statement@.len() > 0 && a.signature@.len() > 0),
        !(required_fields_outcome(a) is Queue),
        (domain_validation_outcome(a) is Accept) <==> (all_alnum_or(a.domain@, "_-"@) && a.domain@.len() <= 100),
        !(domain_validation_outcome(a) is Queue),
{
}

/// The type-limits rule holds back only hypotheses without conditions and
/// findings without metrics: every other atom type passes it, whatever the
/// atom carries.
pub proof fn lemma_type_limits_only_hold_hypotheses_and_findings(a: AtomInput)
    ensures
        !(a.atom_type == AtomType::Hypothesis || a.atom_type == AtomType::Finding)
            ==> atom_type_limits_outcome(a) == DecisionView::Accept,
        a.atom_type == AtomType::Finding ==> (atom_type_limits_outcome(a) is Accept <==> a.metrics is Some),
        !(atom_type_limits_outcome(a) is Reject),
{
}

/// With every rule disabled, the pipeline accepts every atom.
pub proof fn lemma_all_disabled_accepts(rules: Seq<AcceptanceRule>, a: AtomInput)
    requires
        forall|i: int| 0 <= i < rules.len() ==> !(#[trigger] rules[i]).enabled,
    ensures
        pipeline_outcome(rules, a) == DecisionView::Accept,
    decreases rules.len(),
{
    if rules.len() > 0 {
        assert(!rules[0].enabled);
        assert forall|i: int| 0 <= i < rules.drop_first().len() implies !(#[trigger] rules.drop_first()[i]).enabled by {
            assert(rules.drop_first()[i] == rules[i + 1]);
        }
        lemma_all_disabled_accepts(rules.drop_first(), a);
    }
}

/// The pipeline accepts an atom exactly when every enabled rule accepts it.
pub proof fn lemma_accept_iff_all_enabled_accept(rules: Seq<AcceptanceRule>, a: AtomInput)
    ensures
        (pipeline_outcome(rules, a) is Accept) <==> (forall|i: int| 0 <= i < rules.len() && (#[trigger] rules[i]).enabled
            ==> rule_outcome(rules[i].name@, a) is Accept),
    decreases rules.len(),
{
    if rules.len() > 0 {
        lemma_accept_iff_all_enabled_accept(rules.drop_first(), a);
        assert forall|i: int| 1 <= i < rules.len() implies #[trigger] rules[i] == rules.drop_first()[i - 1] by {}
        if pipeline_outcome(rules, a) is Accept {
            assert forall|i: int| 0 <= i < rules.len() && (#[trigger] rules[i]).enabled
                implies rule_outcome(rules[i].name@, a) is Accept by {
                if i > 0 {
                    assert(rules.drop_first()[i - 1] == rules[i]);
                }
            }
        } else {
            let d = rule_outcome(rules[0].name@, a);
            if !(rules[0].enabled && !(d is Accept)) {
                let k = choose|k: int| 0 <= k < rules.drop_first().len() && (#[trigger] rules.drop_first()[k]).enabled
                    && !(rule_outcome(rules.drop_first()[k].name@, a) is Accept);
                assert(rules[k + 1] == rules.drop_first()[k]);
            }
        }
    }
}

/// Disabling a rule and enabling it again gives back the rules of a
/// pipeline whose rules were all enabled.
pub proof fn lemma_disable_enable_restores(rules: Seq<AcceptanceRule>, name: Seq<char>)
    requires
        forall|i: int| 0 <= i < rules.len() ==> (#[trigger] rules[i]).enabled,
    ensures
        with_flag(with_flag(rules, name, false), name, true) == rules,
{
    assert(with_flag(with_flag(rules, name, false), name, true) =~= rules);
}

} // verus!
