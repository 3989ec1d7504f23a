use vstd::prelude::*;
use vstd::string::*;
use crate::text::{lower_of, lowercase, str_eq};

verus! {

/// How often a human approves the plan's phases.
#[derive(Clone, Copy, Debug, PartialEq, Eq, Structural)]
pub enum AutonomyMode {
    /// Ask before every phase.
    Conservative,
    /// Ask before the first and the last phase.
    Balanced,
    /// Never ask.
    Trust,
    /// Ask before every phase.
    Interactive,
}

/// The mode whose lowercase name is exactly `name`, if any.
pub open spec fn mode_named(name: Seq<char>) -> Option<AutonomyMode> {
    if name == "conservative"@ {
        Some(AutonomyMode::Conservative)
    } else if name == "balanced"@ {
        Some(AutonomyMode::Balanced)
    } else if name == "trust"@ {
        Some(AutonomyMode::Trust)
    } else if name == "interactive"@ {
        Some(AutonomyMode::Interactive)
    } else {
        None
    }
}

/// The message for an unknown mode name.
pub open spec fn invalid_mode_message(s: Seq<char>) -> Seq<char> {
    "Invalid autonomy mode: "@ + s
}

/// The whole plan runs without a first confirmation only in trust mode.
pub open spec fn plan_auto_approved(mode: AutonomyMode) -> bool {
    mode == AutonomyMode::Trust
}

impl AutonomyMode {
    /// Whether a plan starts without asking for confirmation.
    pub fn auto_approves_plan(&self) -> (r: bool)
        ensures
            r == plan_auto_approved(*self),
    {
        match self {
            AutonomyMode::Trust => true,
            _ => false,
        }
    }

    /// The mode named exactly `name` (lowercase names only).
    pub fn from_lowercase(name: &str) -> (r: Option<AutonomyMode>)
        ensures
            r == mode_named(name@),
    {
        if str_eq(name, "conservative") {
            Some(AutonomyMode::Conservative)
        } else if str_eq(name, "balanced") {
            Some(AutonomyMode::Balanced)
        } else if str_eq(name, "trust") {
            Some(AutonomyMode::Trust)
        } else if str_eq(name, "interactive") {
            Some(AutonomyMode::Interactive)
        } else {
            None
        }
    }

    /// Parses a mode name in any letter case.
    pub fn from_str(s: &str) -> (r: Result<AutonomyMode, String>)
        ensures
            r is Ok <==> mode_named(lower_of(s@)) is Some,
            r is Ok ==> r->Ok_0 == mode_named(lower_of(s@))->Some_0,
            r is Err ==> r->Err_0@ == invalid_mode_message(s@),
    {
        let lower = lowercase(s);
        match AutonomyMode::from_lowercase(lower.as_str()) {
            Some(m) => Ok(m),
            None => {
                let mut msg = String::from_str("Invalid autonomy mode: ");
                msg.append(s);
                Err(msg)
            },
        }
    }
}

} // verus!
