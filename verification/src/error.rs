//! Configuration errors, detected before a run starts.

use vstd::prelude::*;

verus! {

/// Why a particle or a run was rejected.
#[derive(Debug, Clone, Copy, PartialEq, Eq, Structural)]
pub enum ConfigError {
    /// Neither the angular velocity nor the specific angular momentum was given.
    MissingAngularVelocity,
    /// Both the angular velocity and the specific angular momentum were given.
    AmbiguousAngularVelocity,
    /// The history interval was zero.
    ZeroHistoryInterval,
    /// A run that stops on a limit was given no limit at all.
    NoLimit,
    /// The numbered integrator variant does not exist.
    UnknownVersion,
}

impl ConfigError {
    /// The text of the message for this error.
    pub open spec fn message_text(self) -> Seq<char> {
        match self {
            ConfigError::MissingAngularVelocity => "Either omega or h must be specified."@,
            ConfigError::AmbiguousAngularVelocity => "omega and h cannot both be specified."@,
            ConfigError::ZeroHistoryInterval => "history_interval must be at least 1"@,
            ConfigError::NoLimit => "one of max_time, max_radius or max_angle must be specified"@,
            ConfigError::UnknownVersion => "version must be 1 - 3"@,
        }
    }

    /// A message for the person who configured the run.
    pub fn message(&self) -> (text: String)
        ensures
            text@ == self.message_text(),
    {
        match self {
            ConfigError::MissingAngularVelocity => "Either omega or h must be specified.".to_owned(),
            ConfigError::AmbiguousAngularVelocity => "omega and h cannot both be specified.".to_owned(),
            ConfigError::ZeroHistoryInterval => "history_interval must be at least 1".to_owned(),
            ConfigError::NoLimit => "one of max_time, max_radius or max_angle must be specified".to_owned(),
            ConfigError::UnknownVersion => "version must be 1 - 3".to_owned(),
        }
    }
}

} // verus!
