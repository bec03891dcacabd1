//! Session launch planning: the exact names, shell commands and host
//! argument lists that creating and driving a session uses.
//!
//! Everything here builds strings; the subprocess calls happen outside.

use vstd::prelude::*;

use crate::strutil::{
    spec_dec, spec_strip_prefix_all, str_eq, strip_prefix_all, u64_to_string, views_of,
};

verus! {

/// `s` with every double quote escaped for embedding in a quoted shell
/// argument.
pub open spec fn spec_escape_quotes(s: Seq<char>) -> Seq<char>
    decreases s.len(),
{
    if s.len() == 0 {
        Seq::empty()
    } else {
        spec_escape_quotes(s.drop_last()) + (if s.last() == '"' {
            seq!['\\', '"']
        } else {
            seq![s.last()]
        })
    }
}

/// Escape double quotes in a prompt before it is wrapped in quotes.
pub fn escape_quotes(s: &str) -> (r: String)
    ensures
        r@ == spec_escape_quotes(s@),
{
    let n = s.unicode_len();
    let mut out = String::new();
    let mut seg: usize = 0;
    let mut i: usize = 0;
    proof {
        assert(s@.subrange(0, 0) =~= Seq::<char>::empty());
        assert(out@ + s@.subrange(0, 0) =~= spec_escape_quotes(s@.subrange(0, 0)));
    }
    while i < n
        invariant
            n == s@.len(),
            0 <= seg <= i <= n,
            out@ + s@.subrange(seg as int, i as int) == spec_escape_quotes(
                s@.subrange(0, i as int),
            ),
        decreases n - i,
    {
        proof {
            let t = s@.subrange(0, i + 1);
            assert(t.drop_last() =~= s@.subrange(0, i as int));
            assert(t.last() == s@[i as int]);
        }
        if s.get_char(i) == '"' {
            let piece = s.substring_char(seg, i);
            out.append(piece);
            out.append("\\\"");
            proof {
                reveal_strlit("\\\"");
                assert(out@ + s@.subrange(i + 1, i + 1) =~= spec_escape_quotes(
                    s@.subrange(0, i + 1),
                ));
            }
            seg = i + 1;
        } else {
            proof {
                assert(out@ + s@.subrange(seg as int, i + 1) =~= spec_escape_quotes(
                    s@.subrange(0, i + 1),
                ));
            }
        }
        i = i + 1;
    }
    let last_piece = s.substring_char(seg, n);
    out.append(last_piece);
    proof {
        assert(s@.subrange(0, n as int) =~= s@);
    }
    out
}

/// One allowed-tools flag.
pub open spec fn spec_allowed_item(t: Seq<char>) -> Seq<char> {
    "--allowedTools \""@ + t + "\""@
}

/// The allowed-tools flags, space separated; empty when no tool is
/// allowed.
pub open spec fn spec_allowed_flags(tools: Seq<Seq<char>>) -> Seq<char>
    decreases tools.len(),
{
    if tools.len() == 0 {
        Seq::empty()
    } else if tools.len() == 1 {
        spec_allowed_item(tools[0])
    } else {
        spec_allowed_flags(tools.drop_last()) + " "@ + spec_allowed_item(tools.last())
    }
}

/// Format the allowed-tools list as command-line flags.
pub fn format_allowed_tools(tools: &Vec<String>) -> (r: String)
    ensures
        r@ == spec_allowed_flags(views_of(tools@)),
{
    let n = tools.len();
    let mut out = String::new();
    let mut i: usize = 0;
    proof {
        assert(views_of(tools@).subrange(0, 0) =~= Seq::<Seq<char>>::empty());
        assert(out@ =~= spec_allowed_flags(views_of(tools@).subrange(0, 0)));
    }
    while i < n
        invariant
            n == tools@.len(),
            0 <= i <= n,
            out@ == spec_allowed_flags(views_of(tools@).subrange(0, i as int)),
        decreases n - i,
    {
        if i > 0 {
            out.append(" ");
        }
        out.append("--allowedTools \"");
        out.append(tools[i].as_str());
        out.append("\"");
        proof {
            let pfx2 = views_of(tools@).subrange(0, i + 1);
            assert(pfx2.drop_last() =~= views_of(tools@).subrange(0, i as int));
            assert(pfx2.last() == tools@[i as int]@);
            assert(out@ =~= spec_allowed_flags(pfx2));
        }
        i = i + 1;
    }
    proof {
        assert(views_of(tools@).subrange(0, n as int) =~= views_of(tools@));
    }
    out
}

/// The full session name for a requested name: the reserved prefix plus
/// the name with any copies of the prefix stripped.
pub fn session_name_for(name: &str) -> (r: String)
    ensures
        r@ == "swarm-"@ + spec_strip_prefix_all(name@, "swarm-"@),
{
    proof {
        reveal_strlit("swarm-");
    }
    let clean = strip_prefix_all(name, "swarm-");
    let mut r = "swarm-".to_owned();
    r.append(clean);
    r
}

/// The permission flags a launch passes to the agent: everything is
/// bypassed in yolo mode; otherwise edits are auto-accepted and the
/// configured safe tools are allowed. Only the default agent kind takes
/// flags.
pub open spec fn spec_permission_flags(
    agent: Seq<char>,
    auto_accept: bool,
    tools: Seq<Seq<char>>,
) -> Seq<char> {
    if auto_accept && agent == "coder"@ {
        " --dangerously-skip-permissions"@
    } else if agent == "coder"@ {
        " --permission-mode acceptEdits "@ + spec_allowed_flags(tools)
    } else {
        Seq::empty()
    }
}

/// The permission flags for a launch.
pub fn permission_flags(agent: &str, auto_accept: bool, tools: &Vec<String>) -> (r: String)
    ensures
        r@ == spec_permission_flags(agent@, auto_accept, views_of(tools@)),
{
    if auto_accept && str_eq(agent, "coder") {
        " --dangerously-skip-permissions".to_owned()
    } else if str_eq(agent, "coder") {
        let mut r = " --permission-mode acceptEdits ".to_owned();
        let flags = format_allowed_tools(tools);
        r.append(flags.as_str());
        r
    } else {
        String::new()
    }
}

/// The startup command for an agent and an optional initial prompt: the
/// agent binary, its permission flags, and the prompt as one quoted,
/// escaped argument.
pub open spec fn spec_agent_command(
    agent: Seq<char>,
    flags: Seq<char>,
    prompt: Option<Seq<char>>,
) -> Seq<char> {
    let base = if agent == "coder"@ {
        "coder"@ + flags
    } else {
        agent
    };
    match prompt {
        Some(p) => base + " \""@ + spec_escape_quotes(p) + "\""@,
        None => base,
    }
}

/// Build the startup command for an agent.
pub fn agent_command(agent: &str, auto_accept: bool, tools: &Vec<String>, prompt: Option<&String>)
    -> (r: String)
    ensures
        r@ == spec_agent_command(
            agent@,
            spec_permission_flags(agent@, auto_accept, views_of(tools@)),
            match prompt {
                Some(p) => Some(p@),
                None => None,
            },
        ),
{
    let mut base = if str_eq(agent, "coder") {
        let mut b = "coder".to_owned();
        let flags = permission_flags(agent, auto_accept, tools);
        b.append(flags.as_str());
        b
    } else {
        agent.to_owned()
    };
    match prompt {
        Some(p) => {
            base.append(" \"");
            let esc = escape_quotes(p.as_str());
            base.append(esc.as_str());
            base.append("\"");
            base
        },
        None => base,
    }
}

/// Whether a launch activates the tool-version manager first: only for
/// the known agent kinds that need the managed environment.
pub fn uses_mise(agent: &str) -> (r: bool)
    ensures
        r == (agent@ == "coder"@ || agent@ == "helper"@),
{
    str_eq(agent, "coder") || str_eq(agent, "helper")
}

/// The shell wrapper a session runs its command under: an explicit PATH
/// so user-level tool installs are visible, optionally the tool-version
/// manager activation, then the command.
pub open spec fn spec_launch_command(command: Seq<char>, use_mise: bool) -> Seq<char> {
    if use_mise {
        "zsh -c 'export PATH=\"$HOME/.local/bin:$PATH\"; mise trust 2>/dev/null; eval \"$(mise activate zsh 2>/dev/null)\"; exec "@
            + command + "'"@
    } else {
        "zsh -c 'export PATH=\"$HOME/.local/bin:$PATH\"; exec "@ + command
            + "'"@
    }
}

/// Wrap a startup command for the host's non-login shell environment.
pub fn launch_command(command: &str, use_mise: bool) -> (r: String)
    ensures
        r@ == spec_launch_command(command@, use_mise),
{
    let mut r = if use_mise {
        "zsh -c 'export PATH=\"$HOME/.local/bin:$PATH\"; mise trust 2>/dev/null; eval \"$(mise activate zsh 2>/dev/null)\"; exec ".to_owned()
    } else {
        "zsh -c 'export PATH=\"$HOME/.local/bin:$PATH\"; exec ".to_owned()
    };
    r.append(command);
    r.append("'");
    r
}

/// The host arguments that create a detached session in a working
/// directory running a wrapped command.
pub fn start_session(session: &str, dir: &str, command: &str) -> (r: Vec<String>)
    ensures
        views_of(r@) == seq![
            "new-session"@,
            "-d"@,
            "-s"@,
            session@,
            "-c"@,
            dir@,
            spec_launch_command(command@, false),
        ],
{
    start_session_with_options(session, dir, command, false)
}

/// As [`start_session`], with the tool-version manager activated.
pub fn start_session_with_mise(session: &str, dir: &str, command: &str) -> (r: Vec<String>)
    ensures
        views_of(r@) == seq![
            "new-session"@,
            "-d"@,
            "-s"@,
            session@,
            "-c"@,
            dir@,
            spec_launch_command(command@, true),
        ],
{
    start_session_with_options(session, dir, command, true)
}

fn start_session_with_options(session: &str, dir: &str, command: &str, use_mise: bool) -> (r: Vec<
    String,
>)
    ensures
        views_of(r@) == seq![
            "new-session"@,
            "-d"@,
            "-s"@,
            session@,
            "-c"@,
            dir@,
            spec_launch_command(command@, use_mise),
        ],
{
    let mut r: Vec<String> = Vec::new();
    r.push("new-session".to_owned());
    r.push("-d".to_owned());
    r.push("-s".to_owned());
    r.push(session.to_owned());
    r.push("-c".to_owned());
    r.push(dir.to_owned());
    r.push(launch_command(command, use_mise));
    proof {
        assert(views_of(r@) =~= seq![
            "new-session"@,
            "-d"@,
            "-s"@,
            session@,
            "-c"@,
            dir@,
            spec_launch_command(command@, use_mise),
        ]);
    }
    r
}

/// The two host argument lists that send literal text and then the
/// activation key: the text is sent in literal mode first, Enter
/// separately after it succeeds.
pub fn send_keys(session: &str, text: &str) -> (r: (Vec<String>, Vec<String>))
    ensures
        views_of(r.0@) == seq!["send-keys"@, "-l"@, "-t"@, session@, text@],
        views_of(r.1@) == seq!["send-keys"@, "-t"@, session@, "Enter"@],
{
    let mut literal: Vec<String> = Vec::new();
    literal.push("send-keys".to_owned());
    literal.push("-l".to_owned());
    literal.push("-t".to_owned());
    literal.push(session.to_owned());
    literal.push(text.to_owned());
    let mut enter: Vec<String> = Vec::new();
    enter.push("send-keys".to_owned());
    enter.push("-t".to_owned());
    enter.push(session.to_owned());
    enter.push("Enter".to_owned());
    proof {
        assert(views_of(literal@) =~= seq!["send-keys"@, "-l"@, "-t"@, session@, text@]);
        assert(views_of(enter@) =~= seq!["send-keys"@, "-t"@, session@, "Enter"@]);
    }
    (literal, enter)
}

/// The host arguments that send one named special key.
pub fn send_special_key(session: &str, key: &str) -> (r: Vec<String>)
    ensures
        views_of(r@) == seq!["send-keys"@, "-t"@, session@, key@],
{
    let mut r: Vec<String> = Vec::new();
    r.push("send-keys".to_owned());
    r.push("-t".to_owned());
    r.push(session.to_owned());
    r.push(key.to_owned());
    proof {
        assert(views_of(r@) =~= seq!["send-keys"@, "-t"@, session@, key@]);
    }
    r
}

/// The host arguments that request a session's termination.
pub fn kill_session_args(session: &str) -> (r: Vec<String>)
    ensures
        views_of(r@) == seq!["kill-session"@, "-t"@, session@],
{
    let mut r: Vec<String> = Vec::new();
    r.push("kill-session".to_owned());
    r.push("-t".to_owned());
    r.push(session.to_owned());
    proof {
        assert(views_of(r@) =~= seq!["kill-session"@, "-t"@, session@]);
    }
    r
}

/// The host arguments that list live sessions by name.
pub fn list_sessions_args() -> (r: Vec<String>)
    ensures
        views_of(r@) == seq!["list-sessions"@, "-F"@, "#{session_name}"@],
{
    let mut r: Vec<String> = Vec::new();
    r.push("list-sessions".to_owned());
    r.push("-F".to_owned());
    r.push("#{session_name}".to_owned());
    proof {
        assert(views_of(r@) =~= seq!["list-sessions"@, "-F"@, "#{session_name}"@]);
    }
    r
}

/// The host arguments that capture the last `lines` lines of a session's
/// first pane.
pub fn capture_tail_args(session: &str, lines: u64) -> (r: Vec<String>)
    ensures
        views_of(r@) == seq![
            "capture-pane"@,
            "-p"@,
            "-J"@,
            "-t"@,
            session@ + ":0.0"@,
            "-S"@,
            "-"@ + spec_dec(lines as nat),
        ],
{
    let mut target = session.to_owned();
    target.append(":0.0");
    let mut start = "-".to_owned();
    let num = u64_to_string(lines);
    start.append(num.as_str());
    let mut r: Vec<String> = Vec::new();
    r.push("capture-pane".to_owned());
    r.push("-p".to_owned());
    r.push("-J".to_owned());
    r.push("-t".to_owned());
    r.push(target);
    r.push("-S".to_owned());
    r.push(start);
    proof {
        assert(views_of(r@) =~= seq![
            "capture-pane"@,
            "-p"@,
            "-J"@,
            "-t"@,
            session@ + ":0.0"@,
            "-S"@,
            "-"@ + spec_dec(lines as nat),
        ]);
    }
    r
}

/// The host arguments that report the panes' last-used times.
pub fn pane_last_used_args(session: &str) -> (r: Vec<String>)
    ensures
        views_of(r@) == seq!["list-panes"@, "-t"@, session@, "-F"@, "#{pane_last_used}"@],
{
    let mut r: Vec<String> = Vec::new();
    r.push("list-panes".to_owned());
    r.push("-t".to_owned());
    r.push(session.to_owned());
    r.push("-F".to_owned());
    r.push("#{pane_last_used}".to_owned());
    proof {
        assert(views_of(r@) =~= seq![
            "list-panes"@,
            "-t"@,
            session@,
            "-F"@,
            "#{pane_last_used}"@,
        ]);
    }
    r
}

/// The host arguments that report a session's current working directory.
pub fn session_path_args(session: &str) -> (r: Vec<String>)
    ensures
        views_of(r@) == seq![
            "display-message"@,
            "-p"@,
            "-t"@,
            session@,
            "#{pane_current_path}"@,
        ],
{
    let mut r: Vec<String> = Vec::new();
    r.push("display-message".to_owned());
    r.push("-p".to_owned());
    r.push("-t".to_owned());
    r.push(session.to_owned());
    r.push("#{pane_current_path}".to_owned());
    proof {
        assert(views_of(r@) =~= seq![
            "display-message"@,
            "-p"@,
            "-t"@,
            session@,
            "#{pane_current_path}"@,
        ]);
    }
    r
}

/// The initial prompt a task-bound session starts with.
pub fn task_prompt(task_path: &str) -> (r: String)
    ensures
        r@ == "Starting task. Read "@ + task_path@
            + " for context. Summarize the task before acting."@,
{
    let mut r = "Starting task. Read ".to_owned();
    r.append(task_path);
    r.append(" for context. Summarize the task before acting.");
    r
}

/// The initial prompt a session resumed from the task list starts with.
pub fn task_resume_prompt(task_path: &str) -> (r: String)
    ensures
        r@ == "Starting task. Read "@ + task_path@
            + " for context (include any Process Log). Summarize the task file before acting."@,
{
    let mut r = "Starting task. Read ".to_owned();
    r.append(task_path);
    r.append(" for context (include any Process Log). Summarize the task file before acting.");
    r
}

} // verus!
