use vstd::prelude::*;

use crate::errors::ConfigError;
use crate::text::{all_digits, dec_value, parse_u64, split_fields, split_non_empty};
use crate::watch_set::{State, str_eq};

verus! {

/// The two ways a well-formed command line can be answered.
#[derive(Clone, Copy, Debug, PartialEq, Eq, Structural)]
pub enum ParseOutcome {
    /// Only the help text was asked for.
    Help,
    /// The state now holds a command to watch with.
    Configured,
}

/// The argument asks for the help text.
pub open spec fn is_help_flag(a: Seq<char>) -> bool {
    a == "-h"@ || a == "--help"@
}

/// The argument introduces the poll rate.
pub open spec fn is_poll_flag(a: Seq<char>) -> bool {
    a == "-p"@ || a == "--poll-rate"@
}

/// A poll rate that can be accepted: a decimal number, positive, within
/// `u64`. Zero is rejected no less than a malformed number: a watcher that
/// never waits between passes would spin.
pub open spec fn valid_poll_rate(a: Seq<char>) -> bool {
    a.len() > 0 && all_digits(a) && 0 < dec_value(a) <= u64::MAX
}

/// The command text cut at blanks: the first piece names the command, the
/// later pieces are its arguments, in order.
pub open spec fn command_pieces(a: Seq<char>) -> Seq<Seq<char>> {
    split_fields(a, ' ')
}

/// The state holds the command named by `text`: its first blank-separated
/// piece as the command, the rest as the arguments. The watched files are
/// untouched.
pub open spec fn command_set(pre: State, post: State, text: Seq<char>) -> bool {
    &&& post.files == pre.files
    &&& post.command@ == command_pieces(text)[0]
    &&& post.command_args@.len() == command_pieces(text).len() - 1
    &&& forall|k: int|
        0 <= k < post.command_args@.len() ==> post.command_args@[k]@ == command_pieces(text)[k + 1]
}

/// Takes the command and its arguments for the state from `text`, cut at
/// blanks; text that holds no command at all is refused.
fn set_command(state: &mut State, text: &String) -> (r: Result<ParseOutcome, ConfigError>)
    requires
        old(state).wf(),
    ensures
        final(state).wf(),
        final(state).files == old(state).files,
        final(state).poll_rate == old(state).poll_rate,
        command_pieces(text@).len() == 0 ==> r == Err::<ParseOutcome, ConfigError>(
            ConfigError::MissingCommand,
        ) && *final(state) == *old(state),
        command_pieces(text@).len() > 0 ==> r == Ok::<ParseOutcome, ConfigError>(
            ParseOutcome::Configured,
        ) && command_set(*old(state), *final(state), text@),
{
    let mut pieces = split_non_empty(text.as_str(), ' ');
    if pieces.len() == 0 {
        return Err(ConfigError::MissingCommand);
    }
    let command = pieces.remove(0);
    state.command = command;
    state.command_args = pieces;
    Ok(ParseOutcome::Configured)
}

/// Reads the whole command line, `args[0]` being the program's own name.
/// Accepted shapes: one argument holding the command, or the poll flag,
/// a positive poll rate in milliseconds and the command; `-h` or `--help`
/// alone asks for the help text. Everything else is a configuration
/// error, surfaced before any polling begins, and leaves the state as it
/// was.
pub fn parse_args(state: &mut State, args: &Vec<String>) -> (r: Result<ParseOutcome, ConfigError>)
    requires
        old(state).wf(),
    ensures
        final(state).wf(),
        final(state).files == old(state).files,
        r is Err ==> *final(state) == *old(state),
        r == Ok::<ParseOutcome, ConfigError>(ParseOutcome::Help) ==> *final(state) == *old(state),
        args@.len() == 1 ==> r == Err::<ParseOutcome, ConfigError>(ConfigError::MissingCommand),
        args@.len() == 2 ==> (if is_help_flag(args@[1]@) {
            r == Ok::<ParseOutcome, ConfigError>(ParseOutcome::Help)
        } else if command_pieces(args@[1]@).len() == 0 {
            r == Err::<ParseOutcome, ConfigError>(ConfigError::MissingCommand)
        } else {
            r == Ok::<ParseOutcome, ConfigError>(ParseOutcome::Configured) && command_set(
                *old(state),
                *final(state),
                args@[1]@,
            ) && final(state).poll_rate == old(state).poll_rate
        }),
        args@.len() == 4 ==> (if !is_poll_flag(args@[1]@) {
            r == Err::<ParseOutcome, ConfigError>(ConfigError::InvalidUsage)
        } else if !valid_poll_rate(args@[2]@) {
            r == Err::<ParseOutcome, ConfigError>(ConfigError::InvalidPollRate)
        } else if command_pieces(args@[3]@).len() == 0 {
            r == Err::<ParseOutcome, ConfigError>(ConfigError::MissingCommand)
        } else {
            r == Ok::<ParseOutcome, ConfigError>(ParseOutcome::Configured) && command_set(
                *old(state),
                *final(state),
                args@[3]@,
            ) && final(state).poll_rate == dec_value(args@[2]@)
        }),
        !(args@.len() == 1 || args@.len() == 2 || args@.len() == 4) ==> r == Err::<
            ParseOutcome,
            ConfigError,
        >(ConfigError::InvalidUsage),
{
    let n = args.len();
    if n == 1 {
        return Err(ConfigError::MissingCommand);
    }
    if n == 2 {
        if str_eq(args[1].as_str(), "-h") || str_eq(args[1].as_str(), "--help") {
            return Ok(ParseOutcome::Help);
        }
        return set_command(state, &args[1]);
    }
    if n == 4 {
        if !(str_eq(args[1].as_str(), "-p") || str_eq(args[1].as_str(), "--poll-rate")) {
            return Err(ConfigError::InvalidUsage);
        }
        let rate = match parse_u64(args[2].as_str()) {
            None => { return Err(ConfigError::InvalidPollRate) },
            Some(v) => v,
        };
        if rate == 0 {
            return Err(ConfigError::InvalidPollRate);
        }
        match set_command(state, &args[3]) {
            Ok(o) => {
                state.poll_rate = rate;
                return Ok(o);
            },
            Err(e) => { return Err(e) },
        }
    }
    Err(ConfigError::InvalidUsage)
}

} // verus!
