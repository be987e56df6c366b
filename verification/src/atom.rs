//! Atoms: the kinds of research record, their embedding status and their
//! lifecycle, with the names under which they are stored.
use vstd::prelude::*;
use crate::error::{MoteError, validation_error_with};
use crate::text::{str_eq, to_owned_string, concat2};
use crate::json::JsonValue;
use crate::artifacts::InlineArtifact;

verus! {

/// The kind of a research atom.
#[derive(Debug, Clone, Copy, PartialEq, Eq, Structural)]
pub enum AtomType {
    Hypothesis,
    Finding,
    NegativeResult,
    Delta,
    ExperimentLog,
    Synthesis,
    Bounty,
}

/// Whether an atom's embedding has been computed.
#[derive(Debug, Clone, Copy, PartialEq, Eq, Structural)]
pub enum EmbeddingStatus {
    Pending,
    Ready,
}

/// The lifecycle stage of an atom.
#[derive(Debug, Clone, Copy, PartialEq, Eq, Structural)]
pub enum Lifecycle {
    Provisional,
    Replicated,
    Core,
    Contested,
}

/// Stored name of an atom type.
pub open spec fn atom_type_name(t: AtomType) -> Seq<char> {
    match t {
        AtomType::Hypothesis => "hypothesis"@,
        AtomType::Finding => "finding"@,
        AtomType::NegativeResult => "negative_result"@,
        AtomType::Delta => "delta"@,
        AtomType::ExperimentLog => "experiment_log"@,
        AtomType::Synthesis => "synthesis"@,
        AtomType::Bounty => "bounty"@,
    }
}

/// Stored name of an embedding status.
pub open spec fn embedding_status_name(s: EmbeddingStatus) -> Seq<char> {
    match s {
        EmbeddingStatus::Pending => "pending"@,
        EmbeddingStatus::Ready => "ready"@,
    }
}

/// Stored name of a lifecycle stage.
pub open spec fn lifecycle_name(l: Lifecycle) -> Seq<char> {
    match l {
        Lifecycle::Provisional => "provisional"@,
        Lifecycle::Replicated => "replicated"@,
        Lifecycle::Core => "core"@,
        Lifecycle::Contested => "contested"@,
    }
}

impl AtomType {
    /// The stored name of this atom type (what `Display` printed).
    pub fn as_str(&self) -> (r: &'static str)
        ensures
            r@ == atom_type_name(*self),
    {
        match self {
            AtomType::Hypothesis => "hypothesis",
            AtomType::Finding => "finding",
            AtomType::NegativeResult => "negative_result",
            AtomType::Delta => "delta",
            AtomType::ExperimentLog => "experiment_log",
            AtomType::Synthesis => "synthesis",
            AtomType::Bounty => "bounty",
        }
    }

    /// The stored name of this atom type as an owned string.
    pub fn to_string(&self) -> (r: String)
        ensures
            r@ == atom_type_name(*self),
    {
        to_owned_string(self.as_str())
    }

    /// Reads a stored atom type name; any other text is a validation error.
    pub fn parse(s: &str) -> (r: Result<AtomType, MoteError>)
        ensures
            match r {
                Ok(t) => atom_type_name(t) == s@,
                Err(e) => (forall|t: AtomType| atom_type_name(t) != s@)
                    && validation_error_with(e, "Unknown atom type: "@ + s@),
            },
    {
        proof {
            reveal_strlit("hypothesis");
            reveal_strlit("finding");
            reveal_strlit("negative_result");
            reveal_strlit("delta");
            reveal_strlit("experiment_log");
            reveal_strlit("synthesis");
            reveal_strlit("bounty");
        }
        if str_eq(s, "hypothesis") {
            Ok(AtomType::Hypothesis)
        } else if str_eq(s, "finding") {
            Ok(AtomType::Finding)
        } else if str_eq(s, "negative_result") {
            Ok(AtomType::NegativeResult)
        } else if str_eq(s, "delta") {
            Ok(AtomType::Delta)
        } else if str_eq(s, "experiment_log") {
            Ok(AtomType::ExperimentLog)
        } else if str_eq(s, "synthesis") {
            Ok(AtomType::Synthesis)
        } else if str_eq(s, "bounty") {
            Ok(AtomType::Bounty)
        } else {
            Err(MoteError::Validation(concat2("Unknown atom type: ", s)))
        }
    }
}

impl EmbeddingStatus {
    /// The stored name of this status.
    pub fn as_str(&self) -> (r: &'static str)
        ensures
            r@ == embedding_status_name(*self),
    {
        match self {
            EmbeddingStatus::Pending => "pending",
            EmbeddingStatus::Ready => "ready",
        }
    }

    /// Reads a stored embedding status name.
    pub fn parse(s: &str) -> (r: Result<EmbeddingStatus, MoteError>)
        ensures
            match r {
                Ok(t) => embedding_status_name(t) == s@,
                Err(e) => (forall|t: EmbeddingStatus| embedding_status_name(t) != s@)
                    && validation_error_with(e, "Unknown embedding status: "@ + s@),
            },
    {
        proof {
            reveal_strlit("pending");
            reveal_strlit("ready");
        }
        if str_eq(s, "pending") {
            Ok(EmbeddingStatus::Pending)
        } else if str_eq(s, "ready") {
            Ok(EmbeddingStatus::Ready)
        } else {
            Err(MoteError::Validation(concat2("Unknown embedding status: ", s)))
        }
    }
}

impl Lifecycle {
    /// The stored name of this lifecycle stage.
    pub fn as_str(&self) -> (r: &'static str)
        ensures
            r@ == lifecycle_name(*self),
    {
        match self {
            Lifecycle::Provisional => "provisional",
            Lifecycle::Replicated => "replicated",
            Lifecycle::Core => "core",
            Lifecycle::Contested => "contested",
        }
    }

    /// Reads a stored lifecycle name.
    pub fn parse(s: &str) -> (r: Result<Lifecycle, MoteError>)
        ensures
            match r {
                Ok(t) => lifecycle_name(t) == s@,
                Err(e) => (forall|t: Lifecycle| lifecycle_name(t) != s@)
                    && validation_error_with(e, "Unknown lifecycle: "@ + s@),
            },
    {
        proof {
            reveal_strlit("provisional");
            reveal_strlit("replicated");
            reveal_strlit("core");
            reveal_strlit("contested");
        }
        if str_eq(s, "provisional") {
            Ok(Lifecycle::Provisional)
        } else if str_eq(s, "replicated") {
            Ok(Lifecycle::Replicated)
        } else if str_eq(s, "core") {
            Ok(Lifecycle::Core)
        } else if str_eq(s, "contested") {
            Ok(Lifecycle::Contested)
        } else {
            Err(MoteError::Validation(concat2("Unknown lifecycle: ", s)))
        }
    }
}

/// Where an atom came from.
#[derive(Debug, Clone)]
pub struct Provenance {
    pub parent_ids: Vec<String>,
    pub code_hash: Option<String>,
    pub environment: Option<String>,
    pub dataset_fingerprint: Option<String>,
    pub experiment_ref: Option<String>,
    pub method_description: Option<String>,
}

/// What an agent submits to publish an atom.
#[derive(Debug)]
pub struct AtomInput {
    pub atom_type: AtomType,
    pub domain: String,
    pub statement: String,
    pub conditions: JsonValue,
    pub metrics: Option<JsonValue>,
    pub provenance: JsonValue,
    pub signature: Vec<u8>,
    pub artifact_tree_hash: Option<String>,
    pub artifact_inline: Option<InlineArtifact>,
}

/// Each atom type reads back from its stored name.
pub proof fn lemma_atom_type_name_roundtrip(t: AtomType, u: AtomType)
    ensures
        atom_type_name(t) == atom_type_name(u) ==> t == u,
{
    reveal_strlit("hypothesis");
    reveal_strlit("finding");
    reveal_strlit("negative_result");
    reveal_strlit("delta");
    reveal_strlit("experiment_log");
    reveal_strlit("synthesis");
    reveal_strlit("bounty");
    if atom_type_name(t) == atom_type_name(u) && t != u {
        assert(atom_type_name(t).len() != atom_type_name(u).len()
            || atom_type_name(t)[0] != atom_type_name(u)[0]
            || atom_type_name(t)[1] != atom_type_name(u)[1]);
    }
}

} // verus!
