use swarm::detection::{detect_status, detection_for_agent};
use swarm::model::AgentStatus;

fn lines(v: &[&str]) -> Vec<String> {
    v.iter().map(|s| s.to_string()).collect()
}

#[test]
fn needs_input_sentinel_wins_over_everything() {
    let detection = detection_for_agent("coder");
    let window = lines(&[
        "some output",
        "running tests /swarm:needs_input now",
        "/swarm:done",
        "[Y/n]",
    ]);
    // Very stale age; the sentinel still wins.
    assert_eq!(
        detect_status(&window, &detection, Some(100_000)),
        AgentStatus::NeedsInput
    );
    assert_eq!(detect_status(&window, &detection, None), AgentStatus::NeedsInput);
}

#[test]
fn done_sentinel_without_needs_input() {
    let detection = detection_for_agent("coder");
    let window = lines(&["compiling", "all finished /swarm:done", "bye"]);
    assert_eq!(detect_status(&window, &detection, Some(1)), AgentStatus::Done);
    assert_eq!(detect_status(&window, &detection, None), AgentStatus::Done);
}

#[test]
fn heuristic_prompt_patterns_mean_needs_input() {
    let detection = detection_for_agent("coder");
    assert_eq!(
        detect_status(&lines(&["Overwrite file? [Y/n]"]), &detection, Some(1)),
        AgentStatus::NeedsInput
    );
    assert_eq!(
        detect_status(&lines(&["Do you want to proceed with this?"]), &detection, Some(1)),
        AgentStatus::NeedsInput
    );
    assert_eq!(
        detect_status(&lines(&["waiting for your input"]), &detection, Some(1)),
        AgentStatus::NeedsInput
    );
    assert_eq!(
        detect_status(&lines(&["? Pick an option"]), &detection, Some(1)),
        AgentStatus::NeedsInput
    );
    // The fzf-style pattern is anchored: a mid-line question mark is not a
    // prompt.
    assert_eq!(
        detect_status(&lines(&["what? nothing"]), &detection, Some(1)),
        AgentStatus::Running
    );
}

#[test]
fn age_fallback_thresholds() {
    let detection = detection_for_agent("coder");
    let quiet = lines(&["plain output line"]);
    assert_eq!(detect_status(&quiet, &detection, Some(0)), AgentStatus::Running);
    assert_eq!(detect_status(&quiet, &detection, Some(5)), AgentStatus::Running);
    assert_eq!(detect_status(&quiet, &detection, Some(6)), AgentStatus::Idle);
    assert_eq!(detect_status(&quiet, &detection, Some(30)), AgentStatus::Idle);
    // Beyond the idle threshold the result deliberately stays Idle.
    assert_eq!(detect_status(&quiet, &detection, Some(31)), AgentStatus::Idle);
    assert_eq!(detect_status(&quiet, &detection, Some(1_000_000)), AgentStatus::Idle);
}

#[test]
fn no_signal_at_all_is_unknown() {
    let detection = detection_for_agent("coder");
    let quiet = lines(&["plain output line"]);
    assert_eq!(detect_status(&quiet, &detection, None), AgentStatus::Unknown);
    let empty: Vec<String> = Vec::new();
    assert_eq!(detect_status(&empty, &detection, None), AgentStatus::Unknown);
}

#[test]
fn default_config_shape() {
    let detection = detection_for_agent("anything");
    assert_eq!(detection.needs_input_patterns.len(), 12);
    assert_eq!(detection.running_threshold_secs, 5);
    assert_eq!(detection.idle_threshold_secs, 30);
}
