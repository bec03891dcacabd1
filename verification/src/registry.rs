//! The session registry: what is asked of the terminal-session host and
//! what its answers mean.
//!
//! The host is a subprocess; running it happens outside. This module
//! builds the exact argument lists and interprets the outputs: the live
//! session list, pane introspection, idempotent kill, session launch, and
//! the stale-coordinator recovery decision.

use vstd::prelude::*;

use crate::strutil::{
    contains, parse_u64_digits, spec_contains, spec_lines, spec_parse_u64_digits,
    spec_starts_with, spec_trim, split_lines, starts_with, trim, u64_to_string, views_of,
    spec_dec,
};

verus! {

/// What running a host command produced.
pub struct CmdOutput {
    /// Whether the process exited successfully.
    pub success: bool,
    /// Captured standard output.
    pub stdout: String,
    /// Captured standard error.
    pub stderr: String,
}

/// The result of trying to run the host at all.
pub enum HostResult {
    /// The host binary could not be found or executed.
    Missing,
    /// The host ran and produced this output.
    Ran(CmdOutput),
}

/// Registry failures surfaced to callers.
#[derive(Debug, Clone, PartialEq, Eq)]
pub enum TmuxError {
    /// The session host binary cannot be located or executed at all.
    HostUnavailable,
    /// The host ran and refused; the message carries its words.
    CommandFailed(String),
}

/// The live session list a successful listing output denotes: the lines
/// carrying the reserved prefix, trimmed.
pub open spec fn spec_session_list(stdout: Seq<char>) -> Seq<Seq<char>> {
    spec_lines(stdout).filter(|l: Seq<char>| spec_starts_with(l, "swarm-"@)).map_values(
        |l: Seq<char>| spec_trim(l),
    )
}

proof fn lemma_session_list_push(s: Seq<Seq<char>>, x: Seq<char>)
    ensures
        s.push(x).filter(|l: Seq<char>| spec_starts_with(l, "swarm-"@)).map_values(
            |l: Seq<char>| spec_trim(l),
        ) == (if spec_starts_with(x, "swarm-"@) {
            s.filter(|l: Seq<char>| spec_starts_with(l, "swarm-"@)).map_values(
                |l: Seq<char>| spec_trim(l),
            ).push(spec_trim(x))
        } else {
            s.filter(|l: Seq<char>| spec_starts_with(l, "swarm-"@)).map_values(
                |l: Seq<char>| spec_trim(l),
            )
        }),
{
    reveal(Seq::filter);
    assert(s.push(x).drop_last() =~= s);
    assert(s.push(x).last() == x);
    let p = |l: Seq<char>| spec_starts_with(l, "swarm-"@);
    let f = |l: Seq<char>| spec_trim(l);
    if p(x) {
        assert(s.push(x).filter(p) == s.filter(p).push(x));
        assert(s.filter(p).push(x).map_values(f) =~= s.filter(p).map_values(f).push(f(x)));
    }
}

/// Interpret a session-listing attempt: a missing host is fatal
/// (`HostUnavailable`); a failed listing means no sessions; a successful
/// one yields the prefixed session names, trimmed, in order.
pub fn list_sessions(res: HostResult) -> (r: Result<Vec<String>, TmuxError>)
    ensures
        match res {
            HostResult::Missing => r == Err::<Vec<String>, TmuxError>(TmuxError::HostUnavailable),
            HostResult::Ran(out) => {
                &&& r is Ok
                &&& views_of(r->Ok_0@) == (if out.success {
                    spec_session_list(out.stdout@)
                } else {
                    Seq::<Seq<char>>::empty()
                })
            },
        },
{
    let out = match res {
        HostResult::Missing => {
            return Err(TmuxError::HostUnavailable);
        },
        HostResult::Ran(out) => out,
    };
    if !out.success {
        let r: Vec<String> = Vec::new();
        proof {
            assert(views_of(r@) =~= Seq::<Seq<char>>::empty());
        }
        return Ok(r);
    }
    let lines = split_lines(out.stdout.as_str());
    let n = lines.len();
    let mut sessions: Vec<String> = Vec::new();
    let mut i: usize = 0;
    proof {
        reveal(Seq::filter);
        assert(views_of(lines@).subrange(0, 0) =~= Seq::<Seq<char>>::empty());
        assert(views_of(sessions@) =~= Seq::<Seq<char>>::empty());
        assert(views_of(sessions@) == views_of(lines@).subrange(0, 0).filter(
            |l: Seq<char>| spec_starts_with(l, "swarm-"@),
        ).map_values(|l: Seq<char>| spec_trim(l)));
    }
    while i < n
        invariant
            n == lines@.len(),
            0 <= i <= n,
            views_of(sessions@) == views_of(lines@).subrange(0, i as int).filter(
                |l: Seq<char>| spec_starts_with(l, "swarm-"@),
            ).map_values(|l: Seq<char>| spec_trim(l)),
        decreases n - i,
    {
        let ghost pfx = views_of(lines@).subrange(0, i as int);
        if starts_with(lines[i].as_str(), "swarm-") {
            let ghost s0 = sessions@;
            sessions.push(trim(lines[i].as_str()).to_owned());
            proof {
                assert(views_of(sessions@) =~= views_of(s0).push(spec_trim(lines@[i as int]@)));
            }
        }
        proof {
            lemma_session_list_push(pfx, lines@[i as int]@);
            assert(views_of(lines@).subrange(0, i + 1) =~= pfx.push(lines@[i as int]@));
        }
        i = i + 1;
    }
    proof {
        assert(views_of(lines@).subrange(0, n as int) =~= views_of(lines@));
    }
    Ok(sessions)
}

/// Interpret a pane-capture attempt: the captured lines on success, the
/// host's words on refusal.
pub fn capture_tail(res: HostResult) -> (r: Result<Vec<String>, TmuxError>)
    ensures
        match res {
            HostResult::Missing => r == Err::<Vec<String>, TmuxError>(TmuxError::HostUnavailable),
            HostResult::Ran(out) => if out.success {
                r is Ok && views_of(r->Ok_0@) == spec_lines(out.stdout@)
            } else {
                r == Err::<Vec<String>, TmuxError>(TmuxError::CommandFailed(out.stderr))
            },
        },
{
    match res {
        HostResult::Missing => Err(TmuxError::HostUnavailable),
        HostResult::Ran(out) => {
            if out.success {
                Ok(split_lines(out.stdout.as_str()))
            } else {
                Err(TmuxError::CommandFailed(out.stderr))
            }
        },
    }
}

/// The freshest epoch second among the listed panes: the maximum of the
/// lines that parse as integers.
pub open spec fn spec_max_epoch(lines: Seq<Seq<char>>) -> Option<u64>
    decreases lines.len(),
{
    if lines.len() == 0 {
        None
    } else {
        let rest = spec_max_epoch(lines.drop_last());
        match spec_parse_u64_digits(spec_trim(lines.last())) {
            Some(v) => match rest {
                Some(m) => if v > m {
                    Some(v)
                } else {
                    Some(m)
                },
                None => Some(v),
            },
            None => rest,
        }
    }
}

/// Interpret a pane-last-used query: best effort — `None` when the host
/// refused or no pane reported a time, else the freshest reported epoch
/// second. Only a missing host is an error.
pub fn pane_last_used(res: HostResult) -> (r: Result<Option<u64>, TmuxError>)
    ensures
        match res {
            HostResult::Missing => r == Err::<Option<u64>, TmuxError>(TmuxError::HostUnavailable),
            HostResult::Ran(out) => r == Ok::<Option<u64>, TmuxError>(
                if out.success {
                    spec_max_epoch(spec_lines(out.stdout@))
                } else {
                    None
                },
            ),
        },
{
    let out = match res {
        HostResult::Missing => {
            return Err(TmuxError::HostUnavailable);
        },
        HostResult::Ran(out) => out,
    };
    if !out.success {
        return Ok(None);
    }
    let lines = split_lines(out.stdout.as_str());
    let n = lines.len();
    let mut best: Option<u64> = None;
    let mut i: usize = 0;
    proof {
        assert(views_of(lines@).subrange(0, 0) =~= Seq::<Seq<char>>::empty());
    }
    while i < n
        invariant
            n == lines@.len(),
            0 <= i <= n,
            best == spec_max_epoch(views_of(lines@).subrange(0, i as int)),
        decreases n - i,
    {
        let ghost pfx = views_of(lines@).subrange(0, i as int);
        let t = trim(lines[i].as_str());
        match parse_u64_digits(t) {
            Some(v) => {
                best = match best {
                    Some(m) => if v > m {
                        Some(v)
                    } else {
                        Some(m)
                    },
                    None => Some(v),
                };
            },
            None => {},
        }
        proof {
            let pfx2 = views_of(lines@).subrange(0, i + 1);
            assert(pfx2.drop_last() =~= pfx);
            assert(pfx2.last() == lines@[i as int]@);
        }
        i = i + 1;
    }
    proof {
        assert(views_of(lines@).subrange(0, n as int) =~= views_of(lines@));
    }
    Ok(best)
}

/// Interpret a current-path query: best effort — `None` when the host
/// refused or reported nothing, else the trimmed path.
pub fn session_path(res: HostResult) -> (r: Result<Option<String>, TmuxError>)
    ensures
        match res {
            HostResult::Missing => r == Err::<Option<String>, TmuxError>(
                TmuxError::HostUnavailable,
            ),
            HostResult::Ran(out) => {
                &&& r is Ok
                &&& (if out.success && spec_trim(out.stdout@).len() > 0 {
                    r->Ok_0 is Some && r->Ok_0->0@ == spec_trim(out.stdout@)
                } else {
                    r->Ok_0 is None
                })
            },
        },
{
    let out = match res {
        HostResult::Missing => {
            return Err(TmuxError::HostUnavailable);
        },
        HostResult::Ran(out) => out,
    };
    if !out.success {
        return Ok(None);
    }
    let t = trim(out.stdout.as_str());
    if t.unicode_len() == 0 {
        Ok(None)
    } else {
        Ok(Some(t.to_owned()))
    }
}

/// Interpret a kill request: success, and "session already gone" counts
/// as success too — kill is idempotent. Anything else carries the host's
/// words.
pub fn kill_session(res: HostResult) -> (r: Result<(), TmuxError>)
    ensures
        match res {
            HostResult::Missing => r == Err::<(), TmuxError>(TmuxError::HostUnavailable),
            HostResult::Ran(out) => if out.success || spec_contains(
                out.stderr@,
                "can't find session"@,
            ) {
                r is Ok
            } else {
                r == Err::<(), TmuxError>(TmuxError::CommandFailed(out.stderr))
            },
        },
{
    match res {
        HostResult::Missing => Err(TmuxError::HostUnavailable),
        HostResult::Ran(out) => {
            if out.success {
                Ok(())
            } else if contains(out.stderr.as_str(), "can't find session") {
                Ok(())
            } else {
                Err(TmuxError::CommandFailed(out.stderr))
            }
        },
    }
}

/// Interpret a launch or key-send status: success or the failure reason.
pub fn command_status(res: HostResult, what: &str) -> (r: Result<(), TmuxError>)
    ensures
        match res {
            HostResult::Missing => r == Err::<(), TmuxError>(TmuxError::HostUnavailable),
            HostResult::Ran(out) => if out.success {
                r is Ok
            } else {
                r is Err && r->Err_0 is CommandFailed && r->Err_0->0@ == what@
            },
        },
{
    match res {
        HostResult::Missing => Err(TmuxError::HostUnavailable),
        HostResult::Ran(out) => {
            if out.success {
                Ok(())
            } else {
                Err(TmuxError::CommandFailed(what.to_owned()))
            }
        },
    }
}

/// Whether a failed listing betrays a stale coordination socket: the
/// server is not running but its socket file lingers. The recovery — the
/// caller removes the socket — is idempotent and safe on every call.
pub fn stale_socket_detected(res: &HostResult) -> (r: bool)
    ensures
        r == match res {
            HostResult::Missing => false,
            HostResult::Ran(out) => !out.success && spec_contains(
                out.stderr@,
                "no server running"@,
            ),
        },
{
    match res {
        HostResult::Missing => false,
        HostResult::Ran(out) => !out.success && contains(out.stderr.as_str(), "no server running"),
    }
}

/// The default coordination socket path for a user id.
pub fn socket_path_for_uid(uid: u64) -> (r: String)
    ensures
        r@ == "/tmp/tmux-"@ + spec_dec(uid as nat) + "/default"@,
{
    let mut r = "/tmp/tmux-".to_owned();
    let num = u64_to_string(uid);
    r.append(num.as_str());
    r.append("/default");
    r
}

/// The fixed candidate locations probed for the host binary when the
/// path search finds nothing.
pub fn tmux_candidate_paths() -> (r: Vec<String>)
    ensures
        views_of(r@) == seq![
            "/opt/homebrew/bin/tmux"@,
            "/usr/local/bin/tmux"@,
            "/usr/bin/tmux"@,
            "/bin/tmux"@,
        ],
{
    let mut r: Vec<String> = Vec::new();
    r.push("/opt/homebrew/bin/tmux".to_owned());
    r.push("/usr/local/bin/tmux".to_owned());
    r.push("/usr/bin/tmux".to_owned());
    r.push("/bin/tmux".to_owned());
    proof {
        assert(views_of(r@) =~= seq![
            "/opt/homebrew/bin/tmux"@,
            "/usr/local/bin/tmux"@,
            "/usr/bin/tmux"@,
            "/bin/tmux"@,
        ]);
    }
    r
}

/// The index of the first existing candidate.
pub open spec fn spec_first_true(flags: Seq<bool>) -> int
    decreases flags.len(),
{
    if flags.len() == 0 {
        -1
    } else if flags[0] {
        0
    } else {
        let r = spec_first_true(flags.drop_first());
        if r < 0 {
            -1
        } else {
            r + 1
        }
    }
}

/// Resolve the host binary path once, by explicit probe: take the path
/// search's answer when it names an existing file, else the first
/// existing fixed candidate, else the bare binary name and hope.
/// `which_output` is the path search's stdout; `which_exists` whether the
/// named file exists; `candidate_exists` aligns with
/// [`tmux_candidate_paths`].
pub fn resolve_tmux_path(
    which_output: Option<String>,
    which_exists: bool,
    candidates: &Vec<String>,
    candidate_exists: &Vec<bool>,
) -> (r: String)
    requires
        candidates@.len() == candidate_exists@.len(),
    ensures
        ({
            let from_search = match which_output {
                Some(w) => spec_trim(w@).len() > 0 && which_exists,
                None => false,
            };
            if from_search {
                r@ == spec_trim(which_output->0@)
            } else if spec_first_true(candidate_exists@) >= 0 {
                r@ == candidates@[spec_first_true(candidate_exists@)]@
            } else {
                r@ == "tmux"@
            }
        }),
{
    match &which_output {
        Some(w) => {
            let t = trim(w.as_str());
            if t.unicode_len() > 0 && which_exists {
                return t.to_owned();
            }
        },
        None => {},
    }
    let n = candidate_exists.len();
    let mut i: usize = 0;
    while i < n
        invariant
            n == candidate_exists@.len(),
            candidates@.len() == n,
            0 <= i <= n,
            forall|j: int| 0 <= j < i ==> !candidate_exists@[j],
            match which_output {
                Some(w) => !(spec_trim(w@).len() > 0 && which_exists),
                None => true,
            },
        decreases n - i,
    {
        if candidate_exists[i] {
            proof {
                lemma_first_true_at(candidate_exists@, i as int);
            }
            return candidates[i].clone();
        }
        i = i + 1;
    }
    proof {
        lemma_first_true_at(candidate_exists@, n as int);
    }
    "tmux".to_owned()
}

proof fn lemma_first_true_at(flags: Seq<bool>, i: int)
    requires
        0 <= i <= flags.len(),
        forall|j: int| 0 <= j < i ==> !flags[j],
        i == flags.len() || flags[i],
    ensures
        spec_first_true(flags) == (if i == flags.len() {
            -1
        } else {
            i
        }),
    decreases i,
{
    if i == 0 {
    } else {
        lemma_first_true_at(flags.drop_first(), i - 1);
    }
}

} // verus!
