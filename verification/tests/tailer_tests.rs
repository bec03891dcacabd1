use swarm::tailer::{attach_result, pipe_command, pipe_target, tail_lines};

#[test]
fn attach_retry_succeeds_on_third_attempt() {
    // The first two attach attempts fail and the third succeeds: the
    // attach ends attached, without surfacing an error, in exactly three
    // attempts.
    let outcomes = vec![false, false, true];
    let (attached, attempts) = attach_result(&outcomes);
    assert!(attached);
    assert_eq!(attempts, 3);
}

#[test]
fn attach_retry_stops_at_first_success() {
    let outcomes = vec![true, false, false];
    assert_eq!(attach_result(&outcomes), (true, 1));
    let outcomes = vec![false, true, false];
    assert_eq!(attach_result(&outcomes), (true, 2));
}

#[test]
fn attach_retry_gives_up_after_three() {
    // Even with more outcomes available, the budget is three attempts.
    let outcomes = vec![false, false, false, true];
    let (attached, attempts) = attach_result(&outcomes);
    assert!(!attached);
    assert_eq!(attempts, 3);
}

#[test]
fn tail_absent_log_is_empty_not_an_error() {
    let r = tail_lines(None, 80);
    assert!(r.is_empty());
}

#[test]
fn tail_returns_last_n_lines() {
    let content = "one\ntwo\nthree\nfour\n".to_string();
    assert_eq!(tail_lines(Some(&content), 2), vec!["three".to_string(), "four".to_string()]);
    assert_eq!(
        tail_lines(Some(&content), 10),
        vec!["one".to_string(), "two".to_string(), "three".to_string(), "four".to_string()]
    );
    assert_eq!(tail_lines(Some(&content), 0).len(), 0);
}

#[test]
fn tail_handles_crlf() {
    let content = "a\r\nb\r\n".to_string();
    assert_eq!(tail_lines(Some(&content), 5), vec!["a".to_string(), "b".to_string()]);
}

#[test]
fn pipe_builders() {
    assert_eq!(pipe_command("/logs/swarm-x.log"), "cat >> /logs/swarm-x.log");
    assert_eq!(pipe_target("swarm-x"), "swarm-x:0.0");
}
