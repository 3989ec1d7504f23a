use vstd::prelude::*;
use crate::text::str_eq;

verus! {

/// The kinds of expertise a work unit can call for.
#[derive(Clone, Copy, Debug, PartialEq, Eq, Structural, Hash)]
pub enum AgentCapability {
    Architecture,
    CodeWriting,
    Testing,
    Security,
    Documentation,
    Debugging,
    Performance,
    Migration,
    Review,
}

/// The human-readable description of each capability.
pub open spec fn description_of(c: AgentCapability) -> Seq<char> {
    match c {
        AgentCapability::Architecture => "system design and architecture"@,
        AgentCapability::CodeWriting => "writing production-quality code"@,
        AgentCapability::Testing => "comprehensive testing and quality assurance"@,
        AgentCapability::Security => "security auditing and vulnerability detection"@,
        AgentCapability::Documentation => "technical documentation and guides"@,
        AgentCapability::Debugging => "debugging and bug fixing"@,
        AgentCapability::Performance => "performance optimization and profiling"@,
        AgentCapability::Migration => "code and data migration"@,
        AgentCapability::Review => "code review and quality assessment"@,
    }
}

/// The pictogram shown beside each capability.
pub open spec fn emoji_of(c: AgentCapability) -> Seq<char> {
    match c {
        AgentCapability::Architecture => "🏗️"@,
        AgentCapability::CodeWriting => "💻"@,
        AgentCapability::Testing => "🧪"@,
        AgentCapability::Security => "🔒"@,
        AgentCapability::Documentation => "📚"@,
        AgentCapability::Debugging => "🐛"@,
        AgentCapability::Performance => "⚡"@,
        AgentCapability::Migration => "🔄"@,
        AgentCapability::Review => "👁️"@,
    }
}

/// The capability whose variant name is exactly `s`, if any.
pub open spec fn capability_named(s: Seq<char>) -> Option<AgentCapability> {
    if s == "Architecture"@ {
        Some(AgentCapability::Architecture)
    } else if s == "CodeWriting"@ {
        Some(AgentCapability::CodeWriting)
    } else if s == "Testing"@ {
        Some(AgentCapability::Testing)
    } else if s == "Security"@ {
        Some(AgentCapability::Security)
    } else if s == "Documentation"@ {
        Some(AgentCapability::Documentation)
    } else if s == "Debugging"@ {
        Some(AgentCapability::Debugging)
    } else if s == "Performance"@ {
        Some(AgentCapability::Performance)
    } else if s == "Migration"@ {
        Some(AgentCapability::Migration)
    } else if s == "Review"@ {
        Some(AgentCapability::Review)
    } else {
        None
    }
}

impl AgentCapability {
    pub fn description(&self) -> (r: &'static str)
        ensures
            r@ == description_of(*self),
    {
        match self {
            AgentCapability::Architecture => "system design and architecture",
            AgentCapability::CodeWriting => "writing production-quality code",
            AgentCapability::Testing => "comprehensive testing and quality assurance",
            AgentCapability::Security => "security auditing and vulnerability detection",
            AgentCapability::Documentation => "technical documentation and guides",
            AgentCapability::Debugging => "debugging and bug fixing",
            AgentCapability::Performance => "performance optimization and profiling",
            AgentCapability::Migration => "code and data migration",
            AgentCapability::Review => "code review and quality assessment",
        }
    }

    pub fn emoji(&self) -> (r: &'static str)
        ensures
            r@ == emoji_of(*self),
    {
        match self {
            AgentCapability::Architecture => "🏗️",
            AgentCapability::CodeWriting => "💻",
            AgentCapability::Testing => "🧪",
            AgentCapability::Security => "🔒",
            AgentCapability::Documentation => "📚",
            AgentCapability::Debugging => "🐛",
            AgentCapability::Performance => "⚡",
            AgentCapability::Migration => "🔄",
            AgentCapability::Review => "👁️",
        }
    }

    /// Parses a capability from its variant name; `None` for any other text.
    pub fn from_str(s: &str) -> (r: Option<AgentCapability>)
        ensures
            r == capability_named(s@),
    {
        if str_eq(s, "Architecture") {
            Some(AgentCapability::Architecture)
        } else if str_eq(s, "CodeWriting") {
            Some(AgentCapability::CodeWriting)
        } else if str_eq(s, "Testing") {
            Some(AgentCapability::Testing)
        } else if str_eq(s, "Security") {
            Some(AgentCapability::Security)
        } else if str_eq(s, "Documentation") {
            Some(AgentCapability::Documentation)
        } else if str_eq(s, "Debugging") {
            Some(AgentCapability::Debugging)
        } else if str_eq(s, "Performance") {
            Some(AgentCapability::Performance)
        } else if str_eq(s, "Migration") {
            Some(AgentCapability::Migration)
        } else if str_eq(s, "Review") {
            Some(AgentCapability::Review)
        } else {
            None
        }
    }
}

} // verus!
