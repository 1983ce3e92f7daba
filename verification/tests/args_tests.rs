use watch::args::{parse_args, ParseOutcome};
use watch::errors::ConfigError;
use watch::text::{parse_u64, split_non_empty};
use watch::watch_set::State;

fn args_of(parts: &[&str]) -> Vec<String> {
    parts.iter().map(|s| s.to_string()).collect()
}

#[test]
fn no_arguments_is_missing_command() {
    let mut st = State::new();
    let r = parse_args(&mut st, &args_of(&["watch"]));
    assert_eq!(r, Err(ConfigError::MissingCommand));
}

#[test]
fn help_flags_ask_for_help() {
    let mut st = State::new();
    assert_eq!(parse_args(&mut st, &args_of(&["watch", "-h"])), Ok(ParseOutcome::Help));
    assert_eq!(parse_args(&mut st, &args_of(&["watch", "--help"])), Ok(ParseOutcome::Help));
    assert_eq!(st.command, "");
}

#[test]
fn single_word_command() {
    let mut st = State::new();
    let r = parse_args(&mut st, &args_of(&["watch", "make"]));
    assert_eq!(r, Ok(ParseOutcome::Configured));
    assert_eq!(st.command, "make");
    assert_eq!(st.command_args.len(), 0);
    assert_eq!(st.poll_rate, 250);
}

#[test]
fn command_is_split_at_blanks() {
    let mut st = State::new();
    let r = parse_args(&mut st, &args_of(&["watch", "cargo build --release"]));
    assert_eq!(r, Ok(ParseOutcome::Configured));
    assert_eq!(st.command, "cargo");
    assert_eq!(st.command_args, vec!["build".to_string(), "--release".to_string()]);
}

#[test]
fn extra_blanks_are_discarded() {
    let mut st = State::new();
    let r = parse_args(&mut st, &args_of(&["watch", "  echo   hi "]));
    assert_eq!(r, Ok(ParseOutcome::Configured));
    assert_eq!(st.command, "echo");
    assert_eq!(st.command_args, vec!["hi".to_string()]);
}

#[test]
fn blank_command_is_missing_command() {
    let mut st = State::new();
    let r = parse_args(&mut st, &args_of(&["watch", "   "]));
    assert_eq!(r, Err(ConfigError::MissingCommand));
}

#[test]
fn poll_rate_is_taken() {
    let mut st = State::new();
    let r = parse_args(&mut st, &args_of(&["watch", "--poll-rate", "100", "echo hi"]));
    assert_eq!(r, Ok(ParseOutcome::Configured));
    assert_eq!(st.poll_rate, 100);
    assert_eq!(st.command, "echo");
    let mut st2 = State::new();
    let r2 = parse_args(&mut st2, &args_of(&["watch", "-p", "1", "make"]));
    assert_eq!(r2, Ok(ParseOutcome::Configured));
    assert_eq!(st2.poll_rate, 1);
}

#[test]
fn poll_rate_zero_is_rejected_before_polling() {
    let mut st = State::new();
    let r = parse_args(&mut st, &args_of(&["watch", "-p", "0", "echo hello"]));
    assert_eq!(r, Err(ConfigError::InvalidPollRate));
    assert_eq!(st.command, "");
    assert_eq!(st.poll_rate, 250);
}

#[test]
fn negative_poll_rate_is_rejected() {
    let mut st = State::new();
    let r = parse_args(&mut st, &args_of(&["watch", "-p", "-5", "echo hello"]));
    assert_eq!(r, Err(ConfigError::InvalidPollRate));
}

#[test]
fn malformed_poll_rate_is_rejected() {
    let mut st = State::new();
    let r = parse_args(&mut st, &args_of(&["watch", "-p", "fast", "echo hello"]));
    assert_eq!(r, Err(ConfigError::InvalidPollRate));
}

#[test]
fn wrong_flag_is_invalid_usage() {
    let mut st = State::new();
    let r = parse_args(&mut st, &args_of(&["watch", "-x", "100", "echo"]));
    assert_eq!(r, Err(ConfigError::InvalidUsage));
}

#[test]
fn wrong_argument_count_is_invalid_usage() {
    let mut st = State::new();
    assert_eq!(parse_args(&mut st, &args_of(&["watch", "-p", "100"])), Err(ConfigError::InvalidUsage));
    assert_eq!(
        parse_args(&mut st, &args_of(&["watch", "-p", "100", "echo", "extra"])),
        Err(ConfigError::InvalidUsage)
    );
}

#[test]
fn parse_u64_exact_values() {
    assert_eq!(parse_u64("0"), Some(0));
    assert_eq!(parse_u64("250"), Some(250));
    assert_eq!(parse_u64("007"), Some(7));
    assert_eq!(parse_u64("18446744073709551615"), Some(u64::MAX));
    assert_eq!(parse_u64("18446744073709551616"), None);
    assert_eq!(parse_u64(""), None);
    assert_eq!(parse_u64("12a"), None);
    assert_eq!(parse_u64("+5"), None);
}

#[test]
fn split_non_empty_exact_pieces() {
    assert_eq!(split_non_empty("a b", ' '), vec!["a".to_string(), "b".to_string()]);
    assert_eq!(split_non_empty("", ' '), Vec::<String>::new());
    assert_eq!(split_non_empty("   ", ' '), Vec::<String>::new());
    assert_eq!(
        split_non_empty("a.txt\nb.txt\n\n", '\n'),
        vec!["a.txt".to_string(), "b.txt".to_string()]
    );
    assert_eq!(split_non_empty("one", '\n'), vec!["one".to_string()]);
}
