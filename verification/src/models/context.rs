use vstd::prelude::*;

use crate::error::EngramError;

verus! {

/// Role filter that controls which memory types a context favours.
#[derive(Clone, Copy, Debug, PartialEq, Eq, Structural)]
pub enum ContextRole {
    /// Architecture and task focus.
    Build,
    /// Conventions and file summaries.
    Review,
    /// Recent changes and completed tasks.
    Debug,
    /// Last session handoff for continuity.
    Resume,
}

impl ContextRole {
    /// The name of the role, as the command line and the tools spell it.
    pub open spec fn label(self) -> Seq<char> {
        match self {
            ContextRole::Build => "build"@,
            ContextRole::Review => "review"@,
            ContextRole::Debug => "debug"@,
            ContextRole::Resume => "resume"@,
        }
    }

    /// The role that a name denotes, if any.
    pub open spec fn from_label(s: Seq<char>) -> Option<ContextRole> {
        if s == "build"@ {
            Some(ContextRole::Build)
        } else if s == "review"@ {
            Some(ContextRole::Review)
        } else if s == "debug"@ {
            Some(ContextRole::Debug)
        } else if s == "resume"@ {
            Some(ContextRole::Resume)
        } else {
            None
        }
    }

    pub fn as_str(&self) -> (s: &'static str)
        ensures
            s@ == self.label(),
    {
        match self {
            ContextRole::Build => "build",
            ContextRole::Review => "review",
            ContextRole::Debug => "debug",
            ContextRole::Resume => "resume",
        }
    }

    /// Parses a role name; any other text is refused with `InvalidRole`.
    pub fn from_str(s: &str) -> (r: Result<ContextRole, EngramError>)
        ensures
            match r {
                Ok(role) => ContextRole::from_label(s@) == Some(role),
                Err(e) => ContextRole::from_label(s@) is None && (e matches EngramError::InvalidRole(t)
                    && t@ == s@),
            },
    {
        let t = s.to_owned();
        if t == "build".to_owned() {
            Ok(ContextRole::Build)
        } else if t == "review".to_owned() {
            Ok(ContextRole::Review)
        } else if t == "debug".to_owned() {
            Ok(ContextRole::Debug)
        } else if t == "resume".to_owned() {
            Ok(ContextRole::Resume)
        } else {
            Err(EngramError::InvalidRole(t))
        }
    }
}

/// Detail level controlling how much a context includes.
#[derive(Clone, Copy, Debug, PartialEq, Eq, Structural)]
pub enum ContextLevel {
    /// Next task and, for resuming, the last handoff.
    Minimal,
    /// Recent decisions, active tasks, the last session.
    Standard,
    /// Conventions, all decisions and tasks, file summaries, session history.
    Full,
}

impl ContextLevel {
    /// The name of the level, as the command line and the tools spell it.
    pub open spec fn label(self) -> Seq<char> {
        match self {
            ContextLevel::Minimal => "minimal"@,
            ContextLevel::Standard => "standard"@,
            ContextLevel::Full => "full"@,
        }
    }

    /// The level that a name denotes, if any.
    pub open spec fn from_label(s: Seq<char>) -> Option<ContextLevel> {
        if s == "minimal"@ {
            Some(ContextLevel::Minimal)
        } else if s == "standard"@ {
            Some(ContextLevel::Standard)
        } else if s == "full"@ {
            Some(ContextLevel::Full)
        } else {
            None
        }
    }

    pub fn as_str(&self) -> (s: &'static str)
        ensures
            s@ == self.label(),
    {
        match self {
            ContextLevel::Minimal => "minimal",
            ContextLevel::Standard => "standard",
            ContextLevel::Full => "full",
        }
    }

    /// Parses a level name; any other text is refused with `InvalidLevel`.
    pub fn from_str(s: &str) -> (r: Result<ContextLevel, EngramError>)
        ensures
            match r {
                Ok(level) => ContextLevel::from_label(s@) == Some(level),
                Err(e) => ContextLevel::from_label(s@) is None && (e matches EngramError::InvalidLevel(t)
                    && t@ == s@),
            },
    {
        let t = s.to_owned();
        if t == "minimal".to_owned() {
            Ok(ContextLevel::Minimal)
        } else if t == "standard".to_owned() {
            Ok(ContextLevel::Standard)
        } else if t == "full".to_owned() {
            Ok(ContextLevel::Full)
        } else {
            Err(EngramError::InvalidLevel(t))
        }
    }
}

/// A rendered context together with what it was rendered for.
#[derive(Debug)]
pub struct ContextOutput {
    pub role: ContextRole,
    pub level: ContextLevel,
    /// The rendered markdown.
    pub markdown: String,
    /// A token estimate: a quarter of the markdown's length in UTF-8 bytes.
    pub estimated_tokens: usize,
}

/// Every role's name parses back to that role.
pub proof fn lemma_role_label_roundtrip(role: ContextRole)
    ensures
        ContextRole::from_label(role.label()) == Some(role),
{
    reveal_strlit("build");
    reveal_strlit("review");
    reveal_strlit("debug");
    reveal_strlit("resume");
    assert("build"@[0] != "review"@[0]);
    assert("build"@[0] != "debug"@[0]);
    assert("review"@[0] != "debug"@[0]);
    assert("review"@[2] != "resume"@[2]);
    assert("debug"@.len() != "resume"@.len());
}

/// A name that parses to a role is exactly that role's name.
pub proof fn lemma_role_parse_exact(s: Seq<char>, role: ContextRole)
    requires
        ContextRole::from_label(s) == Some(role),
    ensures
        role.label() == s,
{
}

/// Every level's name parses back to that level.
pub proof fn lemma_level_label_roundtrip(level: ContextLevel)
    ensures
        ContextLevel::from_label(level.label()) == Some(level),
{
    reveal_strlit("minimal");
    reveal_strlit("standard");
    reveal_strlit("full");
    assert("minimal"@.len() != "standard"@.len());
    assert("minimal"@.len() != "full"@.len());
    assert("standard"@.len() != "full"@.len());
}

/// A name that parses to a level is exactly that level's name.
pub proof fn lemma_level_parse_exact(s: Seq<char>, level: ContextLevel)
    requires
        ContextLevel::from_label(s) == Some(level),
    ensures
        level.label() == s,
{
}

} // verus!
