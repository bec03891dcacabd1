use swarm::registry::{
    capture_tail, kill_session, list_sessions, pane_last_used, resolve_tmux_path, session_path,
    socket_path_for_uid, stale_socket_detected, tmux_candidate_paths, CmdOutput, HostResult,
    TmuxError,
};

fn ran(success: bool, stdout: &str, stderr: &str) -> HostResult {
    HostResult::Ran(CmdOutput {
        success,
        stdout: stdout.to_string(),
        stderr: stderr.to_string(),
    })
}

#[test]
fn list_sessions_filters_and_trims() {
    let out = ran(true, "swarm-alpha\nother\nswarm-beta \n", "");
    let sessions = list_sessions(out).unwrap();
    assert_eq!(sessions, vec!["swarm-alpha".to_string(), "swarm-beta".to_string()]);
}

#[test]
fn list_sessions_missing_host_is_fatal() {
    assert_eq!(list_sessions(HostResult::Missing), Err(TmuxError::HostUnavailable));
}

#[test]
fn list_sessions_failed_listing_is_empty() {
    let out = ran(false, "", "no server running on /tmp/tmux-1000/default");
    assert_eq!(list_sessions(out).unwrap().len(), 0);
}

#[test]
fn kill_is_idempotent_on_gone_sessions() {
    assert!(kill_session(ran(true, "", "")).is_ok());
    assert!(kill_session(ran(false, "", "can't find session: swarm-x")).is_ok());
    let refused = kill_session(ran(false, "", "server exited unexpectedly"));
    assert_eq!(
        refused,
        Err(TmuxError::CommandFailed("server exited unexpectedly".to_string()))
    );
}

#[test]
fn pane_last_used_takes_the_freshest() {
    let out = ran(true, "1700000100\n1700000500\n1700000200\n", "");
    assert_eq!(pane_last_used(out).unwrap(), Some(1700000500));
    let none = ran(true, "-\nnot a number\n", "");
    assert_eq!(pane_last_used(none).unwrap(), None);
    let failed = ran(false, "123\n", "err");
    assert_eq!(pane_last_used(failed).unwrap(), None);
}

#[test]
fn session_path_best_effort() {
    assert_eq!(
        session_path(ran(true, " /home/u/repo \n", "")).unwrap(),
        Some("/home/u/repo".to_string())
    );
    assert_eq!(session_path(ran(true, "  \n", "")).unwrap(), None);
    assert_eq!(session_path(ran(false, "", "x")).unwrap(), None);
}

#[test]
fn capture_tail_splits_lines() {
    let out = ran(true, "line one\nline two\n", "");
    assert_eq!(
        capture_tail(out).unwrap(),
        vec!["line one".to_string(), "line two".to_string()]
    );
    assert_eq!(
        capture_tail(ran(false, "", "boom")),
        Err(TmuxError::CommandFailed("boom".to_string()))
    );
}

#[test]
fn stale_socket_detection() {
    assert!(stale_socket_detected(&ran(false, "", "no server running on /tmp/x")));
    assert!(!stale_socket_detected(&ran(false, "", "some other failure")));
    assert!(!stale_socket_detected(&ran(true, "", "")));
    assert!(!stale_socket_detected(&HostResult::Missing));
}

#[test]
fn socket_path() {
    assert_eq!(socket_path_for_uid(1000), "/tmp/tmux-1000/default");
}

#[test]
fn tmux_path_probe_order() {
    let candidates = tmux_candidate_paths();
    // The path search's answer wins when it names an existing file.
    let r = resolve_tmux_path(
        Some(" /opt/bin/tmux \n".to_string()),
        true,
        &candidates,
        &vec![false, false, true, false],
    );
    assert_eq!(r, "/opt/bin/tmux");
    // Otherwise the first existing fixed candidate.
    let r = resolve_tmux_path(None, false, &candidates, &vec![false, true, true, false]);
    assert_eq!(r, "/usr/local/bin/tmux");
    // A search answer that does not exist falls through.
    let r = resolve_tmux_path(
        Some("/opt/bin/tmux".to_string()),
        false,
        &candidates,
        &vec![false, false, false, true],
    );
    assert_eq!(r, "/bin/tmux");
    // Nothing found: the bare name, and hope.
    let r = resolve_tmux_path(None, false, &candidates, &vec![false, false, false, false]);
    assert_eq!(r, "tmux");
}
