use vstd::prelude::*;

use crate::error::EngramError;

verus! {

/// Where a decision stands.
#[derive(Clone, Copy, Debug, PartialEq, Eq, Structural)]
pub enum DecisionStatus {
    Active,
    Superseded,
    Reverted,
}

impl DecisionStatus {
    /// The name under which the status is stored and typed.
    pub open spec fn label(self) -> Seq<char> {
        match self {
            DecisionStatus::Active => "active"@,
            DecisionStatus::Superseded => "superseded"@,
            DecisionStatus::Reverted => "reverted"@,
        }
    }

    /// The status that a name denotes, if any.
    pub open spec fn from_label(s: Seq<char>) -> Option<DecisionStatus> {
        if s == "active"@ {
            Some(DecisionStatus::Active)
        } else if s == "superseded"@ {
            Some(DecisionStatus::Superseded)
        } else if s == "reverted"@ {
            Some(DecisionStatus::Reverted)
        } else {
            None
        }
    }

    pub fn as_str(&self) -> (s: &'static str)
        ensures
            s@ == self.label(),
    {
        match self {
            DecisionStatus::Active => "active",
            DecisionStatus::Superseded => "superseded",
            DecisionStatus::Reverted => "reverted",
        }
    }

    /// Parses a status name; any other text is refused with `InvalidDecisionStatus`.
    pub fn from_str(s: &str) -> (r: Result<DecisionStatus, EngramError>)
        ensures
            match r {
                Ok(status) => DecisionStatus::from_label(s@) == Some(status),
                Err(e) => DecisionStatus::from_label(s@) is None && (
                e matches EngramError::InvalidDecisionStatus(t) && t@ == s@),
            },
    {
        let t = s.to_owned();
        if t == "active".to_owned() {
            Ok(DecisionStatus::Active)
        } else if t == "superseded".to_owned() {
            Ok(DecisionStatus::Superseded)
        } else if t == "reverted".to_owned() {
            Ok(DecisionStatus::Reverted)
        } else {
            Err(EngramError::InvalidDecisionStatus(t))
        }
    }
}

/// An architectural decision: why something was built the way it was.
#[derive(Debug)]
pub struct Decision {
    pub id: String,
    pub title: String,
    pub context: String,
    pub decision: String,
    pub alternatives: Vec<String>,
    pub tags: Vec<String>,
    pub status: DecisionStatus,
    /// RFC 3339 time in UTC.
    pub created_at: String,
    /// RFC 3339 time in UTC.
    pub updated_at: String,
}

/// Every status's name parses back to that status.
pub proof fn lemma_decision_status_label_roundtrip(status: DecisionStatus)
    ensures
        DecisionStatus::from_label(status.label()) == Some(status),
{
    reveal_strlit("active");
    reveal_strlit("superseded");
    reveal_strlit("reverted");
    assert("active"@.len() != "superseded"@.len());
    assert("active"@.len() != "reverted"@.len());
    assert("superseded"@.len() != "reverted"@.len());
}

/// A name that parses to a status is exactly that status's name.
pub proof fn lemma_decision_status_parse_exact(s: Seq<char>, status: DecisionStatus)
    requires
        DecisionStatus::from_label(s) == Some(status),
    ensures
        status.label() == s,
{
}

} // verus!
