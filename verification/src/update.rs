//! The background update task's decisions: the once-per-day gate, the
//! just-updated marker handling, and release selection. Downloading and
//! replacing the binary happen outside; this module decides what to do.

use vstd::prelude::*;

use crate::strutil::{contains, spec_contains, spec_trim_char_start, str_eq, strip_char_start};

verus! {

/// Seconds in the once-per-day gate.
pub const UPDATE_CHECK_GATE_SECS: u64 = 86400;

/// What startup does about updates.
#[derive(Debug, Clone, PartialEq, Eq)]
pub enum StartupUpdateAction {
    /// A previous run installed this version; announce it and clear the
    /// marker. No new check starts on this run.
    AnnounceJustUpdated(String),
    /// The last check is recent; do nothing this run.
    SkipCheck,
    /// Spawn the detached background check.
    SpawnCheck,
}

/// Decide the startup update action from the two on-disk markers: the
/// just-updated marker wins; otherwise a check runs only when the last
/// one is at least a day old or no last check is recorded.
pub fn startup_update_action(just_updated: Option<String>, last_check_elapsed_secs: Option<u64>)
    -> (r: StartupUpdateAction)
    ensures
        match just_updated {
            Some(v) => r is AnnounceJustUpdated && r->AnnounceJustUpdated_0@ == v@,
            None => match last_check_elapsed_secs {
                Some(e) => r == (if e < UPDATE_CHECK_GATE_SECS {
                    StartupUpdateAction::SkipCheck
                } else {
                    StartupUpdateAction::SpawnCheck
                }),
                None => r == StartupUpdateAction::SpawnCheck,
            },
        },
{
    match just_updated {
        Some(v) => StartupUpdateAction::AnnounceJustUpdated(v),
        None => match last_check_elapsed_secs {
            Some(e) => {
                if e < UPDATE_CHECK_GATE_SECS {
                    StartupUpdateAction::SkipCheck
                } else {
                    StartupUpdateAction::SpawnCheck
                }
            },
            None => StartupUpdateAction::SpawnCheck,
        },
    }
}

/// The published version a release tag names: the tag with its leading
/// version-prefix letters removed.
pub open spec fn spec_release_version(tag: Seq<char>) -> Seq<char> {
    spec_trim_char_start(tag, 'v')
}

/// The first release asset whose name holds the platform target.
pub open spec fn spec_first_asset(assets: Seq<(String, String)>, target: Seq<char>) -> Option<
    (String, String),
>
    decreases assets.len(),
{
    if assets.len() == 0 {
        None
    } else if spec_contains(assets[0].0@, target) {
        Some(assets[0])
    } else {
        spec_first_asset(assets.drop_first(), target)
    }
}

/// Decide whether a release is an update worth installing: the tag's
/// version must differ from the running version, and some asset must
/// match the platform target. Returns that version and the matching
/// asset's download location.
pub fn select_update(
    tag_name: &str,
    current: &str,
    assets: &Vec<(String, String)>,
    target: &str,
) -> (r: Option<(String, String)>)
    ensures
        ({
            let latest = spec_release_version(tag_name@);
            if latest == current@ {
                r is None
            } else {
                match spec_first_asset(assets@, target@) {
                    Some(a) => match r {
                        Some(p) => p.0@ == latest && p.1@ == a.1@,
                        None => false,
                    },
                    None => r is None,
                }
            }
        }),
{
    let latest = strip_char_start(tag_name, 'v');
    if str_eq(latest, current) {
        return None;
    }
    let n = assets.len();
    let mut i: usize = 0;
    proof {
        assert(assets@.subrange(0, n as int) =~= assets@);
    }
    while i < n
        invariant
            n == assets@.len(),
            0 <= i <= n,
            latest@ == spec_release_version(tag_name@),
            latest@ != current@,
            spec_first_asset(assets@, target@) == spec_first_asset(
                assets@.subrange(i as int, n as int),
                target@,
            ),
        decreases n - i,
    {
        proof {
            let rest = assets@.subrange(i as int, n as int);
            assert(rest[0] == assets@[i as int]);
            assert(rest.drop_first() =~= assets@.subrange(i + 1, n as int));
        }
        if contains(assets[i].0.as_str(), target) {
            return Some((latest.to_owned(), assets[i].1.clone()));
        }
        i = i + 1;
    }
    proof {
        assert(assets@.subrange(n as int, n as int) =~= Seq::<(String, String)>::empty());
    }
    None
}

} // verus!
