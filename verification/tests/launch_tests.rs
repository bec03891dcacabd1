use swarm::launch::{
    agent_command, capture_tail_args, permission_flags, escape_quotes, format_allowed_tools,
    kill_session_args, launch_command, list_sessions_args, send_keys, send_special_key,
    session_name_for, start_session, start_session_with_mise, task_prompt, uses_mise,
};

fn strings(v: &[&str]) -> Vec<String> {
    v.iter().map(|s| s.to_string()).collect()
}

#[test]
fn quotes_are_escaped_in_prompts() {
    assert_eq!(escape_quotes("plain"), "plain");
    assert_eq!(escape_quotes("say \"hi\""), "say \\\"hi\\\"");
    assert_eq!(escape_quotes("\""), "\\\"");
}

#[test]
fn allowed_tools_flags() {
    assert_eq!(format_allowed_tools(&Vec::new()), "");
    assert_eq!(
        format_allowed_tools(&strings(&["Bash(ls:*)", "Bash(cat:*)"])),
        "--allowedTools \"Bash(ls:*)\" --allowedTools \"Bash(cat:*)\""
    );
}

#[test]
fn coder_permission_flags() {
    let tools = strings(&["Bash(ls:*)"]);
    assert_eq!(
        permission_flags("coder", true, &tools),
        " --dangerously-skip-permissions"
    );
    assert_eq!(
        permission_flags("coder", false, &tools),
        " --permission-mode acceptEdits --allowedTools \"Bash(ls:*)\""
    );
    assert_eq!(permission_flags("helper", false, &tools), "");
    assert_eq!(permission_flags("helper", true, &tools), "");
}

#[test]
fn agent_startup_command() {
    let tools = strings(&[]);
    let prompt = "Fix the \"bug\"".to_string();
    assert_eq!(
        agent_command("coder", true, &tools, Some(&prompt)),
        "coder --dangerously-skip-permissions \"Fix the \\\"bug\\\"\""
    );
    assert_eq!(
        agent_command("coder", false, &tools, None),
        "coder --permission-mode acceptEdits "
    );
    assert_eq!(agent_command("helper", false, &tools, None), "helper");
    assert_eq!(
        agent_command("helper", false, &tools, Some(&"go".to_string())),
        "helper \"go\""
    );
}

#[test]
fn session_names_keep_one_prefix() {
    assert_eq!(session_name_for("foo"), "swarm-foo");
    assert_eq!(session_name_for("swarm-foo"), "swarm-foo");
    assert_eq!(session_name_for("swarm-swarm-foo"), "swarm-foo");
}

#[test]
fn launch_wrapping() {
    assert_eq!(
        launch_command("coder", false),
        "zsh -c 'export PATH=\"$HOME/.local/bin:$PATH\"; exec coder'"
    );
    let mise = launch_command("helper", true);
    assert!(mise.starts_with("zsh -c 'export PATH="));
    assert!(mise.contains("mise activate zsh"));
    assert!(mise.ends_with("exec helper'"));
    assert!(uses_mise("coder"));
    assert!(uses_mise("helper"));
    assert!(!uses_mise("aider"));
}

#[test]
fn host_argument_lists() {
    assert_eq!(
        start_session("swarm-a", "/repo", "coder"),
        strings(&[
            "new-session",
            "-d",
            "-s",
            "swarm-a",
            "-c",
            "/repo",
            "zsh -c 'export PATH=\"$HOME/.local/bin:$PATH\"; exec coder'",
        ])
    );
    let with_mise = start_session_with_mise("swarm-a", "/repo", "coder");
    assert!(with_mise[6].contains("mise trust"));
    let (literal, enter) = send_keys("swarm-a", "hello world");
    assert_eq!(literal, strings(&["send-keys", "-l", "-t", "swarm-a", "hello world"]));
    assert_eq!(enter, strings(&["send-keys", "-t", "swarm-a", "Enter"]));
    assert_eq!(
        send_special_key("swarm-a", "BTab"),
        strings(&["send-keys", "-t", "swarm-a", "BTab"])
    );
    assert_eq!(kill_session_args("swarm-a"), strings(&["kill-session", "-t", "swarm-a"]));
    assert_eq!(
        list_sessions_args(),
        strings(&["list-sessions", "-F", "#{session_name}"])
    );
    assert_eq!(
        capture_tail_args("swarm-a", 80),
        strings(&["capture-pane", "-p", "-J", "-t", "swarm-a:0.0", "-S", "-80"])
    );
}

#[test]
fn task_prompts() {
    assert_eq!(
        task_prompt("/tasks/x.md"),
        "Starting task. Read /tasks/x.md for context. Summarize the task before acting."
    );
}
