use swarm::detection::detection_for_agent;
use swarm::model::AgentStatus;
use swarm::reconcile::{
    agent_for_observation, cleanup_orphans, collect_sessions, resolve_task_ref, SessionObservation,
};

fn strings(v: &[&str]) -> Vec<String> {
    v.iter().map(|s| s.to_string()).collect()
}

fn observation(name: &str, attached: bool, lines: &[&str], age: Option<u64>) -> SessionObservation {
    SessionObservation {
        session_name: name.to_string(),
        attached,
        lines: strings(lines),
        preview: strings(&["preview"]),
        age_secs: age,
        last_output: None,
        agent_raw: None,
        task: None,
        is_yolo: false,
    }
}

#[test]
fn orphan_gc_deletes_exactly_the_orphans() {
    let live = strings(&["swarm-alpha", "swarm-beta"]);
    let logs = strings(&[
        "swarm-alpha.log",
        "swarm-gone.log",
        "unrelated.txt",
        "swarm-beta.log",
        "notes.log",
    ]);
    let stores = strings(&["swarm-alpha", "swarm-dead", "swarm-beta"]);
    let deletions = cleanup_orphans(&live, &logs, &stores);
    assert_eq!(deletions.logs, strings(&["swarm-gone.log"]));
    assert_eq!(deletions.stores, strings(&["swarm-dead"]));
}

#[test]
fn orphan_gc_is_idempotent() {
    let live = strings(&["swarm-alpha"]);
    let logs = strings(&["swarm-alpha.log", "swarm-gone.log"]);
    let stores = strings(&["swarm-alpha", "swarm-dead"]);
    let first = cleanup_orphans(&live, &logs, &stores);
    assert_eq!(first.logs.len(), 1);
    assert_eq!(first.stores.len(), 1);

    // What remains after the first pass, the live set unchanged.
    let logs_left: Vec<String> = logs
        .iter()
        .filter(|n| !first.logs.contains(n))
        .cloned()
        .collect();
    let stores_left: Vec<String> = stores
        .iter()
        .filter(|n| !first.stores.contains(n))
        .cloned()
        .collect();
    let second = cleanup_orphans(&live, &logs_left, &stores_left);
    assert_eq!(second.logs.len(), 0);
    assert_eq!(second.stores.len(), 0);
}

#[test]
fn failed_attach_stays_in_view_degraded() {
    let detection = detection_for_agent("coder");
    let observations = vec![
        observation("swarm-ok", true, &["fine"], Some(1)),
        // Attach permanently failed; lines came from the capture fallback.
        observation("swarm-bad", false, &["Do you want to proceed?"], Some(50)),
    ];
    let views = collect_sessions(observations, &detection, "/logs");
    assert_eq!(views.len(), 2);
    assert_eq!(views[0].session_name, "swarm-ok");
    assert!(views[0].attached);
    assert_eq!(views[0].status, AgentStatus::Running);
    assert_eq!(views[1].session_name, "swarm-bad");
    assert!(!views[1].attached);
    // Status is still computed, from the fallback capture.
    assert_eq!(views[1].status, AgentStatus::NeedsInput);
    assert_eq!(views[1].name, "bad");
    assert_eq!(views[1].log_path, "/logs/swarm-bad.log");
}

#[test]
fn agent_kind_defaults_when_unset_or_blank() {
    assert_eq!(agent_for_observation(&None), "coder");
    assert_eq!(agent_for_observation(&Some("  \n".to_string())), "coder");
    assert_eq!(agent_for_observation(&Some(" helper \n".to_string())), "helper");
}

#[test]
fn task_ref_two_source_lookup() {
    // The metadata store wins when it has a nonempty record.
    assert_eq!(
        resolve_task_ref(Some(" /a/task.md \n".to_string()), Some("/b.md".to_string())),
        Some("/a/task.md".to_string())
    );
    // A blank store record falls through to the marker.
    assert_eq!(
        resolve_task_ref(Some("  ".to_string()), Some("/b.md".to_string())),
        Some("/b.md".to_string())
    );
    assert_eq!(resolve_task_ref(None, None), None);
}
