//! The output tailer: continuous forwarding of a session's output into an
//! append-only log, bounded tail reads from it, and the attach retry
//! policy.
//!
//! The host call itself happens outside; this module fixes what is run
//! (the pipe command and target), how failures are retried (up to three
//! attempts), and what a tail read returns (the last `n` lines, and an
//! empty result when the log does not exist yet — absence is never an
//! error).

use vstd::prelude::*;

use crate::strutil::{spec_lines, split_lines, views_of};

verus! {

/// How many times an attach is attempted before it is reported failed.
pub const MAX_ATTACH_ATTEMPTS: u64 = 3;

/// The shell command handed to the host's pipe facility: append the
/// session's output to the log file.
pub fn pipe_command(log_path: &str) -> (r: String)
    ensures
        r@ == "cat >> "@ + log_path@,
{
    let mut r = "cat >> ".to_owned();
    r.append(log_path);
    r
}

/// The host target for a session's first pane.
pub fn pipe_target(session: &str) -> (r: String)
    ensures
        r@ == session@ + ":0.0"@,
{
    let mut r = session.to_owned();
    r.append(":0.0");
    r
}

/// Whether a bounded retry over these attempt outcomes ends attached:
/// some attempt within the budget succeeded.
pub open spec fn spec_attach_succeeds(outcomes: Seq<bool>) -> bool {
    exists|i: int| 0 <= i < MAX_ATTACH_ATTEMPTS && i < outcomes.len() && outcomes[i]
}

/// The number of attempts the retry makes: up to and including the first
/// success, and the full budget when every attempt fails.
pub open spec fn spec_attach_attempts(outcomes: Seq<bool>) -> int
    decreases outcomes.len(),
{
    if outcomes.len() == 0 {
        0
    } else if outcomes[0] {
        1
    } else {
        1 + spec_attach_attempts(outcomes.drop_first())
    }
}

/// The attach retry policy over a given run of attempt outcomes, one
/// `bool` per attempt the caller would make: succeed at the first
/// successful attempt, stop after the third failure, and never look past
/// the budget. Returns whether the session ends attached and how many
/// attempts were used.
pub fn attach_result(outcomes: &Vec<bool>) -> (r: (bool, usize))
    requires
        outcomes@.len() >= MAX_ATTACH_ATTEMPTS,
    ensures
        r.0 == spec_attach_succeeds(outcomes@),
        1 <= r.1 <= MAX_ATTACH_ATTEMPTS,
        r.0 ==> outcomes@[r.1 - 1] && (forall|j: int| 0 <= j < r.1 - 1 ==> !outcomes@[j]),
        !r.0 ==> r.1 == MAX_ATTACH_ATTEMPTS,
{
    let mut attempt: usize = 0;
    while attempt < 3
        invariant
            outcomes@.len() >= 3,
            0 <= attempt <= 3,
            forall|j: int| 0 <= j < attempt ==> !outcomes@[j],
        decreases 3 - attempt,
    {
        if outcomes[attempt] {
            proof {
                assert(spec_attach_succeeds(outcomes@)) by {
                    assert(0 <= attempt < 3 && outcomes@[attempt as int]);
                }
            }
            return (true, attempt + 1);
        }
        attempt = attempt + 1;
    }
    proof {
        assert(!spec_attach_succeeds(outcomes@)) by {
            if exists|i: int| 0 <= i < MAX_ATTACH_ATTEMPTS && i < outcomes@.len() && outcomes@[i] {
                let i = choose|i: int|
                    0 <= i < MAX_ATTACH_ATTEMPTS && i < outcomes@.len() && outcomes@[i];
            }
        }
    }
    (false, 3)
}

/// The last `n` elements of a sequence.
pub open spec fn spec_tail_window<A>(s: Seq<A>, n: int) -> Seq<A> {
    if s.len() <= n {
        s
    } else {
        s.subrange(s.len() - n, s.len() as int)
    }
}

/// The last `n` lines of a log's content; an absent log yields an empty
/// result, never an error.
pub open spec fn spec_tail(content: Option<Seq<char>>, n: int) -> Seq<Seq<char>> {
    match content {
        Some(c) => spec_tail_window(spec_lines(c), n),
        None => Seq::empty(),
    }
}

/// Read the last `n` lines from a log's content. `None` stands for a log
/// file that does not exist yet.
pub fn tail_lines(content: Option<&String>, n: usize) -> (r: Vec<String>)
    ensures
        views_of(r@) == spec_tail(
            match content {
                Some(c) => Some(c@),
                None => None,
            },
            n as int,
        ),
{
    match content {
        None => {
            let r: Vec<String> = Vec::new();
            proof {
                assert(views_of(r@) =~= Seq::<Seq<char>>::empty());
            }
            r
        },
        Some(c) => {
            let all = split_lines(c.as_str());
            let len = all.len();
            if len <= n {
                all
            } else {
                let start = len - n;
                let mut out: Vec<String> = Vec::new();
                let mut i: usize = start;
                while i < len
                    invariant
                        len == all@.len(),
                        start <= i <= len,
                        start == len - n,
                        views_of(out@) =~= views_of(all@).subrange(start as int, i as int),
                    decreases len - i,
                {
                    let ghost out0 = out@;
                    out.push(all[i].clone());
                    proof {
                        assert(views_of(out@) =~= views_of(out0).push(all@[i as int]@));
                        assert(views_of(out@) =~= views_of(all@).subrange(
                            start as int,
                            i + 1,
                        ));
                    }
                    i = i + 1;
                }
                proof {
                    assert(views_of(out@) =~= spec_tail_window(views_of(all@), n as int));
                }
                out
            }
        },
    }
}

} // verus!
