use vstd::prelude::*;

verus! {

/// Why the command line could not be turned into a configuration.
#[derive(Clone, Copy, Debug, PartialEq, Eq, Structural)]
pub enum ConfigError {
    /// No command was given.
    MissingCommand,
    /// The arguments fit none of the accepted shapes.
    InvalidUsage,
    /// The poll rate is not a positive integer.
    InvalidPollRate,
}

/// The failures that stop the watcher. Every one is fatal: the watcher
/// fails loudly rather than degrade silently.
#[derive(Clone, Copy, Debug, PartialEq, Eq, Structural)]
pub enum WatchError {
    /// The command line was malformed.
    Config(ConfigError),
    /// A watched path could not be read when it was registered.
    FileAccess,
    /// A watched path became unreadable while polling.
    RuntimeAccess,
    /// The triggered command could not be started.
    Spawn,
}

} // verus!
