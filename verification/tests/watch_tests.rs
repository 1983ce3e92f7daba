use watch::errors::WatchError;
use watch::watch_set::{str_eq, State, DEFAULT_POLL_RATE};

fn registered(paths_times: &[(&str, u128)]) -> State {
    let mut st = State::new();
    for (p, t) in paths_times {
        st.register(p.to_string(), Some(*t)).unwrap();
    }
    st
}

#[test]
fn new_state_is_empty() {
    let st = State::new();
    assert_eq!(st.files.len(), 0);
    assert_eq!(st.command, "");
    assert_eq!(st.command_args.len(), 0);
    assert_eq!(st.poll_rate, DEFAULT_POLL_RATE);
    assert_eq!(st.poll_rate, 250);
}

#[test]
fn fresh_check_reports_no_change() {
    let mut st = registered(&[("a.txt", 100), ("b.txt", 100), ("c.txt", 7)]);
    let r = st.check(&vec![Some(100), Some(100), Some(7)]);
    assert_eq!(r, Ok(false));
}

#[test]
fn forward_mutation_detected_and_stored() {
    let mut st = registered(&[("a.txt", 100)]);
    let r = st.check(&vec![Some(150)]);
    assert_eq!(r, Ok(true));
    assert_eq!(st.files[0].last_modified, 150);
}

#[test]
fn backward_mutation_detected_and_stored() {
    let mut st = registered(&[("a.txt", 100)]);
    let r = st.check(&vec![Some(40)]);
    assert_eq!(r, Ok(true));
    assert_eq!(st.files[0].last_modified, 40);
}

#[test]
fn check_idempotent_without_mutation() {
    let mut st = registered(&[("a.txt", 100), ("b.txt", 200)]);
    let first = st.check(&vec![Some(100), Some(200)]);
    let second = st.check(&vec![Some(100), Some(200)]);
    assert_eq!(first, Ok(false));
    assert_eq!(second, Ok(false));
}

#[test]
fn many_changes_one_aggregate_answer() {
    let mut st = registered(&[("a.txt", 1), ("b.txt", 2), ("c.txt", 3)]);
    let r = st.check(&vec![Some(10), Some(20), Some(3)]);
    assert_eq!(r, Ok(true));
    assert_eq!(st.files[0].last_modified, 10);
    assert_eq!(st.files[1].last_modified, 20);
    assert_eq!(st.files[2].last_modified, 3);
    let again = st.check(&vec![Some(10), Some(20), Some(3)]);
    assert_eq!(again, Ok(false));
}

#[test]
fn two_files_touch_one() {
    let t0 = 1000;
    let t1 = 2000;
    let mut st = registered(&[("a.txt", t0), ("b.txt", t0)]);
    assert_eq!(st.check(&vec![Some(t0), Some(t0)]), Ok(false));
    assert_eq!(st.check(&vec![Some(t1), Some(t0)]), Ok(true));
    assert_eq!(st.check(&vec![Some(t1), Some(t0)]), Ok(false));
}

#[test]
fn register_unreadable_path_is_fatal() {
    let mut st = State::new();
    let r = st.register("gone.txt".to_string(), None);
    assert_eq!(r, Err(WatchError::FileAccess));
    assert_eq!(st.files.len(), 0);
}

#[test]
fn register_same_path_twice_keeps_one_entry() {
    let mut st = registered(&[("a.txt", 1), ("b.txt", 2)]);
    st.register("a.txt".to_string(), Some(9)).unwrap();
    assert_eq!(st.files.len(), 2);
    assert_eq!(st.files[0].path, "a.txt");
    assert_eq!(st.files[0].last_modified, 9);
    assert_eq!(st.files[1].last_modified, 2);
}

#[test]
fn check_unreadable_path_is_fatal() {
    let mut st = registered(&[("a.txt", 1), ("b.txt", 2)]);
    let r = st.check(&vec![Some(5), None]);
    assert_eq!(r, Err(WatchError::RuntimeAccess));
    assert_eq!(st.files[0].last_modified, 1);
    assert_eq!(st.files[1].last_modified, 2);
}

#[test]
fn check_empty_watch_set() {
    let mut st = State::new();
    assert_eq!(st.check(&Vec::new()), Ok(false));
}

#[test]
fn str_eq_compares_contents() {
    assert!(str_eq("abc", "abc"));
    assert!(!str_eq("abc", "abd"));
    assert!(!str_eq("abc", "abcd"));
    assert!(str_eq("", ""));
}
