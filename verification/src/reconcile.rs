//! The reconciliation pass: merge the live session list with persisted
//! metadata and tailed output into per-session views, and compute the
//! orphan garbage collection.
//!
//! Everything here is pure. The thin binary gathers one
//! [`SessionObservation`] per live session (best effort, per-session
//! failures isolated) and hands the batch in; it carries the computed
//! deletions back out to the filesystem.

use vstd::prelude::*;

use crate::detection::{spec_classify, DetectionConfig, detect_status};
use crate::model::{AgentSession, AgentStatus, TaskInfo};
use crate::strutil::{
    contains_name, spec_strip_prefix_all, spec_strip_suffix_all, spec_trim, spec_starts_with,
    spec_ends_with, starts_with, ends_with, strip_prefix_all, strip_suffix_all, trim, views_of,
};

verus! {

/// Everything observed about one live session during a tick, as plain
/// values: the host reported the session, the tailer may or may not have
/// attached, and the metadata store may or may not have records.
pub struct SessionObservation {
    /// Full session name, with the reserved prefix.
    pub session_name: String,
    /// Whether output forwarding is attached; `false` marks the session
    /// degraded but never drops it.
    pub attached: bool,
    /// The classification window: recent output lines, from the log tail
    /// or from a direct capture fallback.
    pub lines: Vec<String>,
    /// The smaller preview window, read independently.
    pub preview: Vec<String>,
    /// Seconds since the last observed output, when known.
    pub age_secs: Option<u64>,
    /// Epoch seconds of the last observed output, when known.
    pub last_output: Option<u64>,
    /// Raw content of the agent-kind metadata record; `None` when unset
    /// or unreadable.
    pub agent_raw: Option<String>,
    /// The bound task, when one was resolved.
    pub task: Option<TaskInfo>,
    /// Whether the session was started with permission prompts disabled.
    pub is_yolo: bool,
}

/// The agent kind an observation resolves to: the trimmed metadata value,
/// or the default kind when the record is unset, unreadable or blank.
pub open spec fn agent_or_default(raw: Option<String>) -> Seq<char> {
    match raw {
        Some(s) => if spec_trim(s@).len() > 0 {
            spec_trim(s@)
        } else {
            "coder"@
        },
        None => "coder"@,
    }
}

/// The log artifact path for a session id: a deterministic function of
/// the id.
pub open spec fn spec_log_path(logs_dir: Seq<char>, session: Seq<char>) -> Seq<char> {
    logs_dir + "/"@ + session + ".log"@
}

/// Option<TaskInfo> agreement, by content.
pub open spec fn task_matches(a: Option<TaskInfo>, b: Option<TaskInfo>) -> bool {
    match (a, b) {
        (Option::None, Option::None) => true,
        (Option::Some(x), Option::Some(y)) => x.path@ == y.path@ && x.title@ == y.title@,
        _ => false,
    }
}

/// What one assembled view must say about its observation.
pub open spec fn spec_view_ok(
    v: AgentSession,
    obs: SessionObservation,
    pats: Seq<Seq<char>>,
    running_secs: u64,
    idle_secs: u64,
    logs_dir: Seq<char>,
) -> bool {
    &&& v.session_name@ == obs.session_name@
    &&& v.name@ == spec_strip_prefix_all(obs.session_name@, "swarm-"@)
    &&& v.agent@ == agent_or_default(obs.agent_raw)
    &&& v.status == spec_classify(views_of(obs.lines@), pats, running_secs, idle_secs, obs.age_secs)
    &&& v.last_output == obs.last_output
    &&& v.log_path@ == spec_log_path(logs_dir, obs.session_name@)
    &&& views_of(v.preview@) == views_of(obs.preview@)
    &&& task_matches(v.task, obs.task)
    &&& v.is_yolo == obs.is_yolo
    &&& v.attached == obs.attached
}

/// The agent kind for an observation, defaulted as [`agent_or_default`]
/// states.
pub fn agent_for_observation(raw: &Option<String>) -> (r: String)
    ensures
        r@ == agent_or_default(*raw),
{
    match raw {
        Some(s) => {
            let t = trim(s.as_str());
            if t.unicode_len() > 0 {
                t.to_owned()
            } else {
                "coder".to_owned()
            }
        },
        None => "coder".to_owned(),
    }
}

/// Resolve the bound-task reference from the two sources: the metadata
/// store's record first, else the working-directory marker — first hit
/// wins. A record is a hit when its trimmed content is nonempty.
pub fn resolve_task_ref(store_content: Option<String>, marker_content: Option<String>) -> (r:
    Option<String>)
    ensures
        match task_ref_of(store_content) {
            Some(s) => r is Some && r->0@ == s,
            None => match task_ref_of(marker_content) {
                Some(m) => r is Some && r->0@ == m,
                None => r is None,
            },
        },
{
    match marker_ref(store_content) {
        Some(s) => Some(s),
        None => marker_ref(marker_content),
    }
}

/// The reference a single marker record yields: its trimmed content,
/// when nonempty.
pub open spec fn task_ref_of(content: Option<String>) -> Option<Seq<char>> {
    match content {
        Some(c) => if spec_trim(c@).len() > 0 {
            Some(spec_trim(c@))
        } else {
            None
        },
        None => None,
    }
}

fn marker_ref(content: Option<String>) -> (r: Option<String>)
    ensures
        match task_ref_of(content) {
            Some(s) => r is Some && r->0@ == s,
            None => r is None,
        },
{
    match content {
        Some(c) => {
            let t = trim(c.as_str());
            if t.unicode_len() > 0 {
                Some(t.to_owned())
            } else {
                None
            }
        },
        None => None,
    }
}

/// Assemble the per-tick view of one session from its observation.
pub fn assemble_view(obs: SessionObservation, detection: &DetectionConfig, logs_dir: &str) -> (v:
    AgentSession)
    ensures
        spec_view_ok(
            v,
            obs,
            views_of(detection.needs_input_patterns@),
            detection.running_threshold_secs,
            detection.idle_threshold_secs,
            logs_dir@,
        ),
{
    let status = detect_status(&obs.lines, detection, obs.age_secs);
    proof {
        reveal_strlit("swarm-");
    }
    let name = strip_prefix_all(obs.session_name.as_str(), "swarm-").to_owned();
    let agent = agent_for_observation(&obs.agent_raw);
    let mut log_path = logs_dir.to_owned();
    log_path.append("/");
    log_path.append(obs.session_name.as_str());
    log_path.append(".log");
    AgentSession {
        name,
        session_name: obs.session_name,
        agent,
        status,
        last_output: obs.last_output,
        log_path,
        preview: obs.preview,
        task: obs.task,
        is_yolo: obs.is_yolo,
        attached: obs.attached,
    }
}

/// One reconciliation pass over the whole live set: every observation
/// yields exactly one view, in order — a session whose attach failed is
/// still present, degraded, its status classified from whatever lines the
/// capture fallback produced.
pub fn collect_sessions(
    observations: Vec<SessionObservation>,
    detection: &DetectionConfig,
    logs_dir: &str,
) -> (r: Vec<AgentSession>)
    ensures
        r@.len() == observations@.len(),
        forall|i: int|
            0 <= i < r@.len() ==> spec_view_ok(
                r@[i],
                observations@[i],
                views_of(detection.needs_input_patterns@),
                detection.running_threshold_secs,
                detection.idle_threshold_secs,
                logs_dir@,
            ),
{
    let ghost all = observations@;
    let total = observations.len();
    let mut out: Vec<AgentSession> = Vec::new();
    let mut rest = observations;
    let mut taken: usize = 0;
    while rest.len() > 0
        invariant
            total == all.len(),
            taken + rest@.len() == all.len(),
            out@.len() == taken,
            all.subrange(taken as int, all.len() as int) == rest@,
            forall|i: int|
                0 <= i < taken ==> spec_view_ok(
                    out@[i],
                    all[i],
                    views_of(detection.needs_input_patterns@),
                    detection.running_threshold_secs,
                    detection.idle_threshold_secs,
                    logs_dir@,
                ),
        decreases rest@.len(),
    {
        let obs = rest.remove(0);
        proof {
            assert(obs == all[taken as int]);
            assert(all.subrange(taken + 1, all.len() as int) =~= rest@);
        }
        let v = assemble_view(obs, detection, logs_dir);
        out.push(v);
        taken = taken + 1;
    }
    out
}

/// Law: a session whose attach permanently failed still appears in the
/// reconciled view, marked degraded rather than dropped, and its status
/// is still the classification of the captured lines.
pub proof fn lemma_degraded_session_still_viewed(
    v: AgentSession,
    obs: SessionObservation,
    pats: Seq<Seq<char>>,
    running_secs: u64,
    idle_secs: u64,
    logs_dir: Seq<char>,
)
    requires
        spec_view_ok(v, obs, pats, running_secs, idle_secs, logs_dir),
        !obs.attached,
    ensures
        v.session_name@ == obs.session_name@,
        !v.attached,
        v.status == spec_classify(views_of(obs.lines@), pats, running_secs, idle_secs, obs.age_secs),
{
}

/// A log artifact name that belongs to this system: prefixed and with the
/// log extension.
pub open spec fn is_swarm_log_name(name: Seq<char>) -> bool {
    spec_starts_with(name, "swarm-"@) && spec_ends_with(name, ".log"@)
}

/// The session id a log artifact name refers to.
pub open spec fn log_stem(name: Seq<char>) -> Seq<char> {
    spec_strip_suffix_all(name, ".log"@)
}

/// A log artifact is an orphan exactly when it is ours and its session id
/// is not in the live set.
pub open spec fn log_is_orphan(live: Seq<Seq<char>>, name: Seq<char>) -> bool {
    is_swarm_log_name(name) && !live.contains(log_stem(name))
}

/// A metadata store entry is an orphan exactly when its session id is not
/// in the live set.
pub open spec fn store_is_orphan(live: Seq<Seq<char>>, name: Seq<char>) -> bool {
    !live.contains(name)
}

/// The log deletions one garbage-collection step performs.
pub open spec fn spec_log_deletions(live: Seq<Seq<char>>, names: Seq<Seq<char>>) -> Seq<Seq<char>> {
    names.filter(|n: Seq<char>| log_is_orphan(live, n))
}

/// The metadata-store deletions one garbage-collection step performs.
pub open spec fn spec_store_deletions(live: Seq<Seq<char>>, names: Seq<Seq<char>>) -> Seq<
    Seq<char>,
> {
    names.filter(|n: Seq<char>| store_is_orphan(live, n))
}

/// What one garbage-collection step deletes.
pub struct OrphanDeletions {
    /// Names of log files to delete, in listing order.
    pub logs: Vec<String>,
    /// Names of metadata store entries to delete, in listing order.
    pub stores: Vec<String>,
}

fn log_orphan_check(live: &Vec<String>, name: &str) -> (r: bool)
    ensures
        r == log_is_orphan(views_of(live@), name@),
{
    if !starts_with(name, "swarm-") {
        return false;
    }
    if !ends_with(name, ".log") {
        return false;
    }
    proof {
        reveal_strlit(".log");
    }
    let stem = strip_suffix_all(name, ".log");
    !contains_name(live, stem)
}

proof fn lemma_log_deletions_push(live: Seq<Seq<char>>, s: Seq<Seq<char>>, x: Seq<char>)
    ensures
        spec_log_deletions(live, s.push(x)) == (if log_is_orphan(live, x) {
            spec_log_deletions(live, s).push(x)
        } else {
            spec_log_deletions(live, s)
        }),
{
    reveal(Seq::filter);
    assert(s.push(x).drop_last() =~= s);
    assert(s.push(x).last() == x);
}

proof fn lemma_store_deletions_push(live: Seq<Seq<char>>, s: Seq<Seq<char>>, x: Seq<char>)
    ensures
        spec_store_deletions(live, s.push(x)) == (if store_is_orphan(live, x) {
            spec_store_deletions(live, s).push(x)
        } else {
            spec_store_deletions(live, s)
        }),
{
    reveal(Seq::filter);
    assert(s.push(x).drop_last() =~= s);
    assert(s.push(x).last() == x);
}

/// Compute the orphan garbage collection for one pass: which log
/// artifacts and metadata entries reference a session id not in the live
/// set. Deletion is unconditional, crash-only cleanup; the caller removes
/// exactly what is returned.
pub fn cleanup_orphans(live: &Vec<String>, log_names: &Vec<String>, store_names: &Vec<String>) -> (r:
    OrphanDeletions)
    ensures
        views_of(r.logs@) == spec_log_deletions(views_of(live@), views_of(log_names@)),
        views_of(r.stores@) == spec_store_deletions(views_of(live@), views_of(store_names@)),
{
    let ghost lv = views_of(live@);
    let mut logs: Vec<String> = Vec::new();
    let mut i: usize = 0;
    let n = log_names.len();
    proof {
        reveal(Seq::filter);
        assert(views_of(log_names@).subrange(0, 0) =~= Seq::<Seq<char>>::empty());
        assert(views_of(logs@) =~= Seq::<Seq<char>>::empty());
        assert(views_of(logs@) == spec_log_deletions(lv, views_of(log_names@).subrange(0, 0)));
    }
    while i < n
        invariant
            n == log_names@.len(),
            0 <= i <= n,
            views_of(logs@) == spec_log_deletions(lv, views_of(log_names@).subrange(0, i as int)),
            lv == views_of(live@),
        decreases n - i,
    {
        let ghost pfx = views_of(log_names@).subrange(0, i as int);
        let orphan = log_orphan_check(live, log_names[i].as_str());
        if orphan {
            let ghost old_logs = logs@;
            logs.push(log_names[i].clone());
            proof {
                assert(views_of(logs@) =~= views_of(old_logs).push(log_names@[i as int]@));
            }
        }
        proof {
            lemma_log_deletions_push(lv, pfx, log_names@[i as int]@);
            assert(views_of(log_names@).subrange(0, i + 1) =~= pfx.push(log_names@[i as int]@));
        }
        i = i + 1;
    }
    proof {
        assert(views_of(log_names@).subrange(0, n as int) =~= views_of(log_names@));
    }
    let mut stores: Vec<String> = Vec::new();
    let mut j: usize = 0;
    let m = store_names.len();
    proof {
        reveal(Seq::filter);
        assert(views_of(store_names@).subrange(0, 0) =~= Seq::<Seq<char>>::empty());
        assert(views_of(stores@) =~= Seq::<Seq<char>>::empty());
        assert(views_of(stores@) == spec_store_deletions(lv, views_of(store_names@).subrange(0, 0)));
    }
    while j < m
        invariant
            m == store_names@.len(),
            0 <= j <= m,
            views_of(stores@) == spec_store_deletions(
                lv,
                views_of(store_names@).subrange(0, j as int),
            ),
            lv == views_of(live@),
        decreases m - j,
    {
        let ghost pfx = views_of(store_names@).subrange(0, j as int);
        let orphan = !contains_name(live, store_names[j].as_str());
        if orphan {
            let ghost old_stores = stores@;
            stores.push(store_names[j].clone());
            proof {
                assert(views_of(stores@) =~= views_of(old_stores).push(store_names@[j as int]@));
            }
        }
        proof {
            lemma_store_deletions_push(lv, pfx, store_names@[j as int]@);
            assert(views_of(store_names@).subrange(0, j + 1) =~= pfx.push(store_names@[j as int]@));
        }
        j = j + 1;
    }
    proof {
        assert(views_of(store_names@).subrange(0, m as int) =~= views_of(store_names@));
    }
    OrphanDeletions { logs, stores }
}

proof fn lemma_filter_of_none<A>(s: Seq<A>, p: spec_fn(A) -> bool)
    requires
        forall|i: int| 0 <= i < s.len() ==> !p(s[i]),
    ensures
        s.filter(p) == Seq::<A>::empty(),
    decreases s.len(),
{
    reveal(Seq::filter);
    if s.len() == 0 {
        assert(s.filter(p) =~= Seq::<A>::empty());
    } else {
        lemma_filter_of_none(s.drop_last(), p);
        assert(!p(s.last()));
    }
}

/// Law: orphan garbage collection is idempotent. After one pass deletes
/// its orphans, what remains of the listings is exactly the non-orphans;
/// a second pass against the same live set deletes nothing.
pub proof fn lemma_gc_idempotent(live: Seq<Seq<char>>, logs: Seq<Seq<char>>, stores: Seq<Seq<char>>)
    ensures
        spec_log_deletions(live, logs.filter(|x: Seq<char>| !log_is_orphan(live, x)))
            == Seq::<Seq<char>>::empty(),
        spec_store_deletions(live, stores.filter(|x: Seq<char>| !store_is_orphan(live, x)))
            == Seq::<Seq<char>>::empty(),
{
    let keep_logs = logs.filter(|x: Seq<char>| !log_is_orphan(live, x));
    assert forall|i: int| 0 <= i < keep_logs.len() implies !log_is_orphan(live, keep_logs[i]) by {
        logs.lemma_filter_pred(|x: Seq<char>| !log_is_orphan(live, x), i);
    }
    lemma_filter_of_none(keep_logs, |x: Seq<char>| log_is_orphan(live, x));
    let keep_stores = stores.filter(|x: Seq<char>| !store_is_orphan(live, x));
    assert forall|i: int|
        0 <= i < keep_stores.len() implies !store_is_orphan(live, keep_stores[i]) by {
        stores.lemma_filter_pred(|x: Seq<char>| !store_is_orphan(live, x), i);
    }
    lemma_filter_of_none(keep_stores, |x: Seq<char>| store_is_orphan(live, x));
}

} // verus!
