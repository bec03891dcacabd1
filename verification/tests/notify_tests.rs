use swarm::model::AgentStatus;
use swarm::notify::{AlertKind, Notifier};

#[test]
fn notification_sequence_fires_exactly_twice() {
    // Per-tick statuses for one session: the first observation seeds the
    // baseline and fires nothing; entering NeedsInput and entering Done
    // each fire once; the sustained NeedsInput does not repeat.
    let mut notifier = Notifier::new();
    notifier.seed("swarm-foo", AgentStatus::Running);

    let mut alerts: Vec<AlertKind> = Vec::new();
    for status in [
        AgentStatus::NeedsInput,
        AgentStatus::NeedsInput,
        AgentStatus::Done,
    ] {
        if let Some(alert) = notifier.observe("swarm-foo", status) {
            alerts.push(alert);
        }
    }
    assert_eq!(alerts, vec![AlertKind::NeedsInput, AlertKind::Done]);
}

#[test]
fn new_session_first_seen_needing_input_alerts() {
    // A session first observed mid-run (no baseline) fires on NeedsInput.
    let mut notifier = Notifier::new();
    assert_eq!(
        notifier.observe("swarm-new", AgentStatus::NeedsInput),
        Some(AlertKind::NeedsInput)
    );
    assert_eq!(notifier.observe("swarm-new", AgentStatus::NeedsInput), None);
}

#[test]
fn silent_transitions() {
    let mut notifier = Notifier::new();
    notifier.seed("s", AgentStatus::Running);
    assert_eq!(notifier.observe("s", AgentStatus::Idle), None);
    assert_eq!(notifier.observe("s", AgentStatus::Running), None);
    assert_eq!(notifier.observe("s", AgentStatus::Unknown), None);
    assert_eq!(notifier.observe("s", AgentStatus::Done), Some(AlertKind::Done));
    assert_eq!(notifier.observe("s", AgentStatus::Done), None);
    // Leaving Done and coming back re-alerts: it is a fresh transition.
    assert_eq!(notifier.observe("s", AgentStatus::Running), None);
    assert_eq!(notifier.observe("s", AgentStatus::Done), Some(AlertKind::Done));
}

#[test]
fn sessions_tracked_independently() {
    let mut notifier = Notifier::new();
    notifier.seed("a", AgentStatus::NeedsInput);
    assert_eq!(notifier.observe("a", AgentStatus::NeedsInput), None);
    assert_eq!(
        notifier.observe("b", AgentStatus::NeedsInput),
        Some(AlertKind::NeedsInput)
    );
    assert_eq!(notifier.lookup("a"), Some(AgentStatus::NeedsInput));
    assert_eq!(notifier.lookup("c"), None);
}
