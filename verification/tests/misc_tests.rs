use swarm::config::{base_dir_with, default_allowed_tools, default_status_style, expand_path_with, session_marker_paths};
use swarm::imessage::IMessageSource;
use swarm::model::AgentStatus;
use swarm::preview::status_indicator;
use swarm::preview::{clean_preview, format_human_duration, is_prompt_line, mini_log_preview};
use swarm::strutil::{contains, ends_with, split_lines, starts_with, trim};
use swarm::update::{select_update, startup_update_action, StartupUpdateAction};

fn strings(v: &[&str]) -> Vec<String> {
    v.iter().map(|s| s.to_string()).collect()
}

#[test]
fn prompt_lines() {
    assert!(is_prompt_line("Proceed? [Y/n]"));
    assert!(is_prompt_line("  Should I continue"));
    assert!(is_prompt_line("What next?"));
    assert!(is_prompt_line("> reply here"));
    assert!(!is_prompt_line("plain output"));
    assert!(!is_prompt_line("   "));
}

#[test]
fn preview_collapses_repeated_separators() {
    let lines = strings(&["a", "---", "---", "---", "b", "---"]);
    assert_eq!(clean_preview(&lines), strings(&["a", "---", "b", "---"]));
    let empty: Vec<String> = Vec::new();
    assert_eq!(
        clean_preview(&empty),
        strings(&["(no recent output; select and attach to see more)"])
    );
}

#[test]
fn mini_preview_takes_last_visible_line() {
    let lines = strings(&["first", "last words", "   "]);
    assert_eq!(mini_log_preview(&lines), Some("last words".to_string()));
    let long_line: String = "x".repeat(100);
    let lines = vec![long_line];
    let snippet = mini_log_preview(&lines).unwrap();
    assert_eq!(snippet.chars().count(), 81);
    assert!(snippet.ends_with('\u{2026}'));
}

#[test]
fn human_durations() {
    assert_eq!(format_human_duration(5), "5s ago");
    assert_eq!(format_human_duration(65), "1m ago");
    assert_eq!(format_human_duration(7200), "2h ago");
    assert_eq!(format_human_duration(200_000), "2d ago");
}

#[test]
fn update_gate() {
    assert_eq!(
        startup_update_action(Some("v1.2.3".to_string()), None),
        StartupUpdateAction::AnnounceJustUpdated("v1.2.3".to_string())
    );
    assert_eq!(startup_update_action(None, Some(100)), StartupUpdateAction::SkipCheck);
    assert_eq!(startup_update_action(None, Some(86400)), StartupUpdateAction::SpawnCheck);
    assert_eq!(startup_update_action(None, None), StartupUpdateAction::SpawnCheck);
}

#[test]
fn release_selection() {
    let assets = vec![
        ("swarm-x86_64-apple-darwin.tar.gz".to_string(), "https://example.test/a".to_string()),
        ("swarm-aarch64-apple-darwin.tar.gz".to_string(), "https://example.test/b".to_string()),
    ];
    assert_eq!(
        select_update("v1.3.0", "1.2.0", &assets, "aarch64-apple-darwin"),
        Some(("1.3.0".to_string(), "https://example.test/b".to_string()))
    );
    // The running version: nothing to do.
    assert_eq!(select_update("v1.2.0", "1.2.0", &assets, "aarch64-apple-darwin"), None);
    // No asset for this platform.
    assert_eq!(select_update("v1.3.0", "1.2.0", &assets, "x86_64-unknown-linux-gnu"), None);
}

#[test]
fn path_expansion() {
    let home = "/home/u".to_string();
    assert_eq!(expand_path_with("~/.swarm/logs", Some(&home)), "/home/u/.swarm/logs");
    assert_eq!(expand_path_with("/abs/path", Some(&home)), "/abs/path");
    assert_eq!(expand_path_with("~/.swarm", None), "~/.swarm");
    assert_eq!(base_dir_with("/home/u"), "/home/u/.swarm");
    let (task, agent, yolo) = session_marker_paths("/home/u/.swarm/sessions", "swarm-x");
    assert_eq!(task, "/home/u/.swarm/sessions/swarm-x/task");
    assert_eq!(agent, "/home/u/.swarm/sessions/swarm-x/agent");
    assert_eq!(yolo, "/home/u/.swarm/sessions/swarm-x/yolo");
}

#[test]
fn config_defaults() {
    assert_eq!(default_status_style(), "text");
    assert_eq!(default_allowed_tools().len(), 120);
}

#[test]
fn string_utilities() {
    assert_eq!(trim("  hi \r\n"), "hi");
    assert!(starts_with("swarm-x", "swarm-"));
    assert!(!starts_with("sw", "swarm-"));
    assert!(ends_with("x.log", ".log"));
    assert!(contains("abcdef", "cde"));
    assert!(!contains("abcdef", "xyz"));
    assert_eq!(split_lines("a\nb\n"), strings(&["a", "b"]));
    assert_eq!(split_lines(""), Vec::<String>::new());
    assert_eq!(split_lines("a\n\nb"), strings(&["a", "", "b"]));
}

#[test]
fn status_indicator_styles() {
    assert_eq!(status_indicator(AgentStatus::NeedsInput, "text"), "[WAIT]");
    assert_eq!(status_indicator(AgentStatus::Running, "text"), "[RUN] ");
    assert_eq!(status_indicator(AgentStatus::Done, "unicode"), "\u{2713}");
    assert_eq!(status_indicator(AgentStatus::Idle, "emoji"), "\u{1f7e1}");
    // An unknown style falls back to the unicode symbols.
    assert_eq!(status_indicator(AgentStatus::Unknown, "wat"), "\u{b7}");
}

#[test]
fn binary_check_reports_the_path() {
    let source = IMessageSource::new("/opt/bin/imsg");
    assert!(source.check_binary(true).is_ok());
    let err = source.check_binary(false).unwrap_err();
    assert!(err.contains("/opt/bin/imsg"));
}
