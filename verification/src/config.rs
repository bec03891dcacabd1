//! Configuration as plain values: the general, notification and
//! keybinding sections, their defaults, and home-relative path expansion.
//! Reading and writing the configuration file happens outside.

use vstd::prelude::*;

use crate::host::home_dir;
use crate::strutil::{spec_strip_prefix_all, spec_starts_with, starts_with, strip_prefix_all};

verus! {

/// General settings.
pub struct General {
    pub default_agent: String,
    pub worktree_dir: String,
    pub poll_interval_ms: u64,
    pub logs_dir: String,
    pub daily_dir: String,
    pub tasks_dir: String,
    pub branch_prefix: String,
    pub status_style: String,
    pub hooks_installed: bool,
}

/// Notification settings.
pub struct Notifications {
    pub enabled: bool,
    pub sound_needs_input: String,
    pub sound_done: String,
    pub sound_error: String,
}

/// Keybinding settings.
pub struct Keybindings {
    pub prefix: String,
}

/// The commands the default agent may run without a permission prompt.
pub struct AllowedTools {
    pub tools: Vec<String>,
}

/// The whole configuration.
pub struct Config {
    pub general: General,
    pub notifications: Notifications,
    pub keybindings: Keybindings,
    pub allowed_tools: AllowedTools,
}

/// The default status indicator style.
pub fn default_status_style() -> (r: String)
    ensures
        r@ == "text"@,
{
    "text".to_owned()
}

/// The default directory for daily log files.
pub fn default_daily_dir() -> (r: String)
    ensures
        r@ == "~/.swarm/daily"@,
{
    "~/.swarm/daily".to_owned()
}

/// The default directory for task files.
pub fn default_tasks_dir() -> (r: String)
    ensures
        r@ == "~/.swarm/tasks"@,
{
    "~/.swarm/tasks".to_owned()
}

/// The default list of commands allowed without a permission prompt:
/// read-only inspection, build and test commands.
#[verifier::rlimit(100)]
pub fn default_allowed_tools() -> (r: Vec<String>)
    ensures
        r@.len() == 120,
{
    let mut r: Vec<String> = Vec::new();
    r.push("Bash(cd:*)".to_owned());
    r.push("Bash(ls:*)".to_owned());
    r.push("Bash(pwd:*)".to_owned());
    r.push("Bash(cat:*)".to_owned());
    r.push("Bash(head:*)".to_owned());
    r.push("Bash(tail:*)".to_owned());
    r.push("Bash(less:*)".to_owned());
    r.push("Bash(file:*)".to_owned());
    r.push("Bash(find:*)".to_owned());
    r.push("Bash(which:*)".to_owned());
    r.push("Bash(type:*)".to_owned());
    r.push("Bash(wc:*)".to_owned());
    r.push("Bash(du:*)".to_owned());
    r.push("Bash(df:*)".to_owned());
    r.push("Bash(tree:*)".to_owned());
    proof {
        assert(r@.len() == 15);
    }
    r.push("Bash(git status:*)".to_owned());
    r.push("Bash(git log:*)".to_owned());
    r.push("Bash(git diff:*)".to_owned());
    r.push("Bash(git show:*)".to_owned());
    r.push("Bash(git branch:*)".to_owned());
    r.push("Bash(git remote:*)".to_owned());
    r.push("Bash(git stash list:*)".to_owned());
    r.push("Bash(git rev-parse:*)".to_owned());
    r.push("Bash(git describe:*)".to_owned());
    r.push("Bash(git config --get:*)".to_owned());
    r.push("Bash(git config --list:*)".to_owned());
    r.push("Bash(git ls-files:*)".to_owned());
    r.push("Bash(git ls-tree:*)".to_owned());
    r.push("Bash(git blame:*)".to_owned());
    r.push("Bash(git shortlog:*)".to_owned());
    proof {
        assert(r@.len() == 30);
    }
    r.push("Bash(git tag:*)".to_owned());
    r.push("Bash(git reflog:*)".to_owned());
    r.push("Bash(git cat-file:*)".to_owned());
    r.push("Bash(git name-rev:*)".to_owned());
    r.push("Bash(git for-each-ref:*)".to_owned());
    r.push("Bash(git worktree list:*)".to_owned());
    r.push("Bash(git merge-base:*)".to_owned());
    r.push("Bash(git cherry:*)".to_owned());
    r.push("Bash(git count-objects:*)".to_owned());
    r.push("Bash(gh pr view:*)".to_owned());
    r.push("Bash(gh pr list:*)".to_owned());
    r.push("Bash(gh pr diff:*)".to_owned());
    r.push("Bash(gh pr checks:*)".to_owned());
    r.push("Bash(gh issue view:*)".to_owned());
    r.push("Bash(gh issue list:*)".to_owned());
    proof {
        assert(r@.len() == 45);
    }
    r.push("Bash(gh api:*)".to_owned());
    r.push("Bash(gh release list:*)".to_owned());
    r.push("Bash(gh release view:*)".to_owned());
    r.push("Bash(gh repo view:*)".to_owned());
    r.push("Bash(gh repo list:*)".to_owned());
    r.push("Bash(gh workflow list:*)".to_owned());
    r.push("Bash(gh workflow view:*)".to_owned());
    r.push("Bash(gh run list:*)".to_owned());
    r.push("Bash(gh run view:*)".to_owned());
    r.push("Bash(gh label list:*)".to_owned());
    r.push("Bash(gh search:*)".to_owned());
    r.push("Bash(gh gist view:*)".to_owned());
    r.push("Bash(gh gist list:*)".to_owned());
    r.push("Bash(npm list:*)".to_owned());
    r.push("Bash(npm ls:*)".to_owned());
    proof {
        assert(r@.len() == 60);
    }
    r.push("Bash(npm view:*)".to_owned());
    r.push("Bash(pnpm list:*)".to_owned());
    r.push("Bash(pnpm ls:*)".to_owned());
    r.push("Bash(yarn list:*)".to_owned());
    r.push("Bash(cargo tree:*)".to_owned());
    r.push("Bash(cargo metadata:*)".to_owned());
    r.push("Bash(cargo build:*)".to_owned());
    r.push("Bash(cargo check:*)".to_owned());
    r.push("Bash(cargo test:*)".to_owned());
    r.push("Bash(cargo clippy:*)".to_owned());
    r.push("Bash(cargo fmt --check:*)".to_owned());
    r.push("Bash(npm run:*)".to_owned());
    r.push("Bash(pnpm run:*)".to_owned());
    r.push("Bash(yarn run:*)".to_owned());
    r.push("Bash(make:*)".to_owned());
    proof {
        assert(r@.len() == 75);
    }
    r.push("Bash(go build:*)".to_owned());
    r.push("Bash(go test:*)".to_owned());
    r.push("Bash(docker ps:*)".to_owned());
    r.push("Bash(docker images:*)".to_owned());
    r.push("Bash(docker logs:*)".to_owned());
    r.push("Bash(grep:*)".to_owned());
    r.push("Bash(rg:*)".to_owned());
    r.push("Bash(ag:*)".to_owned());
    r.push("Bash(sort:*)".to_owned());
    r.push("Bash(uniq:*)".to_owned());
    r.push("Bash(cut:*)".to_owned());
    r.push("Bash(awk:*)".to_owned());
    r.push("Bash(sed -n:*)".to_owned());
    r.push("Bash(diff:*)".to_owned());
    r.push("Bash(cmp:*)".to_owned());
    proof {
        assert(r@.len() == 90);
    }
    r.push("Bash(comm:*)".to_owned());
    r.push("Bash(tr:*)".to_owned());
    r.push("Bash(column:*)".to_owned());
    r.push("Bash(jq:*)".to_owned());
    r.push("Bash(yq:*)".to_owned());
    r.push("Bash(xargs:*)".to_owned());
    r.push("Bash(stat:*)".to_owned());
    r.push("Bash(readlink:*)".to_owned());
    r.push("Bash(realpath:*)".to_owned());
    r.push("Bash(dirname:*)".to_owned());
    r.push("Bash(basename:*)".to_owned());
    r.push("Bash(md5:*)".to_owned());
    r.push("Bash(md5sum:*)".to_owned());
    r.push("Bash(shasum:*)".to_owned());
    r.push("Bash(sha256sum:*)".to_owned());
    proof {
        assert(r@.len() == 105);
    }
    r.push("Bash(echo:*)".to_owned());
    r.push("Bash(date:*)".to_owned());
    r.push("Bash(env:*)".to_owned());
    r.push("Bash(printenv:*)".to_owned());
    r.push("Bash(uname:*)".to_owned());
    r.push("Bash(hostname:*)".to_owned());
    r.push("Bash(whoami:*)".to_owned());
    r.push("Bash(id:*)".to_owned());
    r.push("Bash(groups:*)".to_owned());
    r.push("Bash(uptime:*)".to_owned());
    r.push("Bash(ps:*)".to_owned());
    r.push("Bash(lsof:*)".to_owned());
    r.push("Bash(netstat:*)".to_owned());
    r.push("Bash(sw_vers:*)".to_owned());
    r.push("Bash(system_profiler:*)".to_owned());
    proof {
        assert(r@.len() == 120);
    }
    r
}

/// A path with a leading home shorthand expanded against a home
/// directory; anything else is unchanged.
pub open spec fn spec_expand_path(input: Seq<char>, home: Option<Seq<char>>) -> Seq<char> {
    if spec_starts_with(input, "~/"@) && home is Some {
        home->0 + "/"@ + spec_strip_prefix_all(input, "~/"@)
    } else {
        input
    }
}

/// Expand a leading home shorthand against a known home directory.
pub fn expand_path_with(input: &str, home: Option<&String>) -> (r: String)
    ensures
        r@ == spec_expand_path(
            input@,
            match home {
                Some(h) => Some(h@),
                None => None,
            },
        ),
{
    proof {
        reveal_strlit("~/");
    }
    if starts_with(input, "~/") {
        match home {
            Some(h) => {
                let rest = strip_prefix_all(input, "~/");
                let mut r = h.as_str().to_owned();
                r.append("/");
                r.append(rest);
                r
            },
            None => input.to_owned(),
        }
    } else {
        input.to_owned()
    }
}

/// Expand a leading home shorthand against the machine's home directory.
/// A path without the shorthand comes back unchanged, whatever the
/// machine reports.
pub fn expand_path(input: &str) -> (r: String)
    ensures
        !spec_starts_with(input@, "~/"@) ==> r@ == input@,
{
    proof {
        reveal_strlit("~/");
    }
    let home = home_dir();
    expand_path_with(input, home.as_ref())
}

/// Configuration errors surfaced to callers.
#[derive(Debug, Clone, PartialEq, Eq)]
pub enum ConfigError {
    /// The machine reports no home directory.
    NoHomeDir,
}

/// The state root under a home directory.
pub fn base_dir_with(home: &str) -> (r: String)
    ensures
        r@ == home@ + "/.swarm"@,
{
    let mut r = home.to_owned();
    r.append("/.swarm");
    r
}

/// The state root: the home directory's swarm directory. Fails only when
/// the machine reports no home directory.
pub fn base_dir() -> (r: Result<String, ConfigError>)
    ensures
        r is Ok ==> crate::strutil::spec_ends_with(r->Ok_0@, "/.swarm"@),
{
    proof {
        reveal_strlit("/.swarm");
    }
    match home_dir() {
        Some(h) => {
            let b = base_dir_with(h.as_str());
            proof {
                assert(crate::strutil::contains_at(b@, "/.swarm"@, b@.len() - 7));
            }
            Ok(b)
        },
        None => Err(ConfigError::NoHomeDir),
    }
}

/// The per-session metadata store root under a state root.
pub fn session_store_dir_with(base: &str) -> (r: String)
    ensures
        r@ == base@ + "/sessions"@,
{
    let mut r = base.to_owned();
    r.append("/sessions");
    r
}

/// The snapshot directory under a state root.
pub fn snapshots_dir_with(base: &str) -> (r: String)
    ensures
        r@ == base@ + "/snapshots"@,
{
    let mut r = base.to_owned();
    r.append("/snapshots");
    r
}

/// The per-session metadata store root. Fails only when the machine
/// reports no home directory.
pub fn session_store_dir() -> (r: Result<String, ConfigError>)
    ensures
        r is Ok ==> crate::strutil::spec_ends_with(r->Ok_0@, "/sessions"@),
{
    proof {
        reveal_strlit("/sessions");
    }
    match base_dir() {
        Ok(b) => {
            let d = session_store_dir_with(b.as_str());
            proof {
                assert(crate::strutil::contains_at(d@, "/sessions"@, d@.len() - 9));
            }
            Ok(d)
        },
        Err(e) => Err(e),
    }
}

/// The snapshot directory. Fails only when the machine reports no home
/// directory.
pub fn snapshots_dir() -> (r: Result<String, ConfigError>)
    ensures
        r is Ok ==> crate::strutil::spec_ends_with(r->Ok_0@, "/snapshots"@),
{
    proof {
        reveal_strlit("/snapshots");
    }
    match base_dir() {
        Ok(b) => {
            let d = snapshots_dir_with(b.as_str());
            proof {
                assert(crate::strutil::contains_at(d@, "/snapshots"@, d@.len() - 10));
            }
            Ok(d)
        },
        Err(e) => Err(e),
    }
}

/// The metadata record paths for one session under the store root: its
/// task reference, agent kind, and elevated-mode flag.
pub fn session_marker_paths(store_dir: &str, session: &str) -> (r: (String, String, String))
    ensures
        r.0@ == store_dir@ + "/"@ + session@ + "/task"@,
        r.1@ == store_dir@ + "/"@ + session@ + "/agent"@,
        r.2@ == store_dir@ + "/"@ + session@ + "/yolo"@,
{
    let mut base = store_dir.to_owned();
    base.append("/");
    base.append(session);
    let mut task = base.clone();
    task.append("/task");
    let mut agent = base.clone();
    agent.append("/agent");
    let mut yolo = base;
    yolo.append("/yolo");
    (task, agent, yolo)
}

/// The branch prefix derived from a version-control user name: lowercased
/// outside, spaces dashed, a slash appended. The lowercasing happens
/// before this; here the spaces are replaced and the slash appended.
pub fn branch_prefix_from_user(lowered: &str) -> (r: String)
    ensures
        r@ == spec_dash_spaces(lowered@) + "/"@,
{
    let n = lowered.unicode_len();
    let mut out = String::new();
    let mut seg: usize = 0;
    let mut i: usize = 0;
    proof {
        assert(lowered@.subrange(0, 0) =~= Seq::<char>::empty());
        assert(out@ + lowered@.subrange(0, 0) =~= spec_dash_spaces(lowered@.subrange(0, 0)));
    }
    while i < n
        invariant
            n == lowered@.len(),
            0 <= seg <= i <= n,
            out@ + lowered@.subrange(seg as int, i as int) == spec_dash_spaces(
                lowered@.subrange(0, i as int),
            ),
        decreases n - i,
    {
        proof {
            let t = lowered@.subrange(0, i + 1);
            assert(t.drop_last() =~= lowered@.subrange(0, i as int));
            assert(t.last() == lowered@[i as int]);
        }
        if lowered.get_char(i) == ' ' {
            let piece = lowered.substring_char(seg, i);
            out.append(piece);
            out.append("-");
            proof {
                reveal_strlit("-");
                assert(out@ + lowered@.subrange(i + 1, i + 1) =~= spec_dash_spaces(
                    lowered@.subrange(0, i + 1),
                ));
            }
            seg = i + 1;
        } else {
            proof {
                assert(out@ + lowered@.subrange(seg as int, i + 1) =~= spec_dash_spaces(
                    lowered@.subrange(0, i + 1),
                ));
            }
        }
        i = i + 1;
    }
    let last_piece = lowered.substring_char(seg, n);
    out.append(last_piece);
    out.append("/");
    proof {
        assert(lowered@.subrange(0, n as int) =~= lowered@);
    }
    out
}

/// `s` with each space replaced by a dash.
pub open spec fn spec_dash_spaces(s: Seq<char>) -> Seq<char>
    decreases s.len(),
{
    if s.len() == 0 {
        Seq::empty()
    } else {
        spec_dash_spaces(s.drop_last()) + (if s.last() == ' ' {
            seq!['-']
        } else {
            seq![s.last()]
        })
    }
}

} // verus!
