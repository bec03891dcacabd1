//! Edge-triggered notification dispatch.
//!
//! The dispatcher remembers the last observed status per session. An alert
//! fires only on the tick where a session's status changes into
//! `NeedsInput` or into `Done`; a sustained status never re-alerts. The
//! first reconciliation pass seeds the baseline and fires nothing.

use vstd::prelude::*;

use crate::model::AgentStatus;
use crate::strutil::str_eq;

verus! {

/// The kind of alert to fire.
#[derive(Debug, Clone, Copy, PartialEq, Eq, Structural)]
pub enum AlertKind {
    NeedsInput,
    Done,
}

/// The map a sequence of (session name, status) pairs denotes; a later
/// pair for the same key wins.
pub open spec fn pairs_map(s: Seq<(String, AgentStatus)>) -> Map<Seq<char>, AgentStatus>
    decreases s.len(),
{
    if s.len() == 0 {
        Map::empty()
    } else {
        pairs_map(s.drop_last()).insert(s.last().0@, s.last().1)
    }
}

/// The alert that a status observation triggers against a prior map: a
/// transition into `NeedsInput` or into `Done`, and nothing else.
pub open spec fn spec_alert(
    prev: Map<Seq<char>, AgentStatus>,
    key: Seq<char>,
    status: AgentStatus,
) -> Option<AlertKind> {
    if status == AgentStatus::NeedsInput && !(prev.contains_key(key) && prev[key]
        == AgentStatus::NeedsInput) {
        Some(AlertKind::NeedsInput)
    } else if status == AgentStatus::Done && !(prev.contains_key(key) && prev[key]
        == AgentStatus::Done) {
        Some(AlertKind::Done)
    } else {
        None
    }
}

/// Law: once a status has been recorded, observing the same status again
/// fires nothing — an alert is never repeated while a status is sustained.
pub proof fn lemma_sustained_status_is_silent(
    prev: Map<Seq<char>, AgentStatus>,
    key: Seq<char>,
    status: AgentStatus,
)
    ensures
        spec_alert(prev.insert(key, status), key, status) == None::<AlertKind>,
{
}

/// Tracks the last observed status per session and decides alerts.
pub struct Notifier {
    prev: Vec<(String, AgentStatus)>,
}

proof fn lemma_pairs_map_get(s: Seq<(String, AgentStatus)>, k: Seq<char>, j: int)
    requires
        0 <= j < s.len(),
        s[j].0@ == k,
        forall|l: int| j < l < s.len() ==> s[l].0@ != k,
    ensures
        pairs_map(s).contains_key(k),
        pairs_map(s)[k] == s[j].1,
    decreases s.len(),
{
    if j == s.len() - 1 {
    } else {
        lemma_pairs_map_get(s.drop_last(), k, j);
    }
}

proof fn lemma_pairs_map_none(s: Seq<(String, AgentStatus)>, k: Seq<char>)
    requires
        forall|l: int| 0 <= l < s.len() ==> s[l].0@ != k,
    ensures
        !pairs_map(s).contains_key(k),
    decreases s.len(),
{
    if s.len() > 0 {
        lemma_pairs_map_none(s.drop_last(), k);
    }
}

proof fn lemma_pairs_map_update(s: Seq<(String, AgentStatus)>, i: int, p: (String, AgentStatus))
    requires
        0 <= i < s.len(),
        s[i].0@ == p.0@,
        forall|a: int, b: int| 0 <= a < b < s.len() ==> s[a].0@ != s[b].0@,
    ensures
        pairs_map(s.update(i, p)) == pairs_map(s).insert(p.0@, p.1),
    decreases s.len(),
{
    let t = s.update(i, p);
    if i == s.len() - 1 {
        assert(t.drop_last() =~= s.drop_last());
        assert(t.last() == p);
        assert(pairs_map(t) == pairs_map(s.drop_last()).insert(p.0@, p.1));
        assert(pairs_map(s).insert(p.0@, p.1) == pairs_map(s.drop_last()).insert(
            s.last().0@,
            s.last().1,
        ).insert(p.0@, p.1));
        assert(s.last().0@ == p.0@);
        assert(pairs_map(s.drop_last()).insert(s.last().0@, s.last().1).insert(p.0@, p.1)
            =~= pairs_map(s.drop_last()).insert(p.0@, p.1));
    } else {
        assert(t.drop_last() =~= s.drop_last().update(i, p));
        lemma_pairs_map_update(s.drop_last(), i, p);
        assert(t.last() == s.last());
        assert(pairs_map(t) == pairs_map(s.drop_last()).insert(p.0@, p.1).insert(
            s.last().0@,
            s.last().1,
        ));
        assert(s.last().0@ != p.0@);
        assert(pairs_map(s.drop_last()).insert(p.0@, p.1).insert(s.last().0@, s.last().1)
            =~= pairs_map(s.drop_last()).insert(s.last().0@, s.last().1).insert(p.0@, p.1));
    }
}

impl Notifier {
    /// The remembered map from session name to last observed status.
    pub closed spec fn view(&self) -> Map<Seq<char>, AgentStatus> {
        pairs_map(self.prev@)
    }

    /// Internal shape: one entry per session.
    pub closed spec fn wf(&self) -> bool {
        forall|a: int, b: int|
            0 <= a < b < self.prev@.len() ==> self.prev@[a].0@ != self.prev@[b].0@
    }

    /// An empty baseline: nothing observed yet.
    pub fn new() -> (r: Notifier)
        ensures
            r.wf(),
            r@ == Map::<Seq<char>, AgentStatus>::empty(),
    {
        Notifier { prev: Vec::new() }
    }

    /// Record one (session, status) pair without deciding an alert: used
    /// to seed the baseline from the first reconciliation pass, so that
    /// startup fires nothing.
    pub fn seed(&mut self, session_name: &str, status: AgentStatus)
        requires
            old(self).wf(),
        ensures
            final(self).wf(),
            final(self)@ == old(self)@.insert(session_name@, status),
    {
        let _ = self.record(session_name, status);
    }

    /// The last status recorded for a session, if any.
    pub fn lookup(&self, session_name: &str) -> (r: Option<AgentStatus>)
        ensures
            match r {
                Some(v) => self@.contains_key(session_name@) && self@[session_name@] == v,
                None => !self@.contains_key(session_name@),
            },
    {
        let n = self.prev.len();
        let mut i: usize = n;
        while i > 0
            invariant
                n == self.prev@.len(),
                0 <= i <= n,
                forall|l: int| i <= l < n ==> self.prev@[l].0@ != session_name@,
        decreases i,
        {
            i = i - 1;
            if str_eq(self.prev[i].0.as_str(), session_name) {
                proof {
                    lemma_pairs_map_get(self.prev@, session_name@, i as int);
                }
                return Some(self.prev[i].1);
            }
        }
        proof {
            lemma_pairs_map_none(self.prev@, session_name@);
        }
        None
    }

    /// The index of the last entry for a key, if one exists.
    fn find_key(&self, session_name: &str) -> (r: Option<usize>)
        ensures
            match r {
                Some(i) => 0 <= i < self.prev@.len() && self.prev@[i as int].0@ == session_name@
                    && (forall|l: int|
                    i < l < self.prev@.len() ==> self.prev@[l].0@ != session_name@),
                None => forall|l: int|
                    0 <= l < self.prev@.len() ==> self.prev@[l].0@ != session_name@,
            },
    {
        let n = self.prev.len();
        let mut i: usize = n;
        while i > 0
            invariant
                n == self.prev@.len(),
                0 <= i <= n,
                forall|l: int| i <= l < n ==> self.prev@[l].0@ != session_name@,
        decreases i,
        {
            i = i - 1;
            if str_eq(self.prev[i].0.as_str(), session_name) {
                return Some(i);
            }
        }
        None
    }

    fn record(&mut self, session_name: &str, status: AgentStatus) -> (r: Option<AgentStatus>)
        requires
            old(self).wf(),
        ensures
            final(self).wf(),
            final(self)@ == old(self)@.insert(session_name@, status),
            r == (if old(self)@.contains_key(session_name@) {
                Some(old(self)@[session_name@])
            } else {
                None::<AgentStatus>
            }),
    {
        match self.find_key(session_name) {
            Some(i) => {
                let old_status = self.prev[i].1;
                proof {
                    lemma_pairs_map_get(self.prev@, session_name@, i as int);
                }
                let ghost s0 = self.prev@;
                self.prev.set(i, (session_name.to_owned(), status));
                proof {
                    lemma_pairs_map_update(s0, i as int, (self.prev@[i as int].0, status));
                    assert(self.prev@ =~= s0.update(i as int, (self.prev@[i as int].0, status)));
                    assert forall|a: int, b: int|
                        0 <= a < b < self.prev@.len() implies self.prev@[a].0@
                        != self.prev@[b].0@ by {
                        assert(s0[a].0@ != s0[b].0@);
                    }
                }
                Some(old_status)
            },
            None => {
                proof {
                    lemma_pairs_map_none(self.prev@, session_name@);
                }
                let ghost s0 = self.prev@;
                self.prev.push((session_name.to_owned(), status));
                proof {
                    assert(self.prev@.drop_last() =~= s0);
                    assert forall|a: int, b: int|
                        0 <= a < b < self.prev@.len() implies self.prev@[a].0@
                        != self.prev@[b].0@ by {
                        if b < s0.len() {
                            assert(s0[a].0@ != s0[b].0@);
                        } else {
                            assert(s0[a].0@ != session_name@);
                        }
                    }
                }
                None
            },
        }
    }

    /// Observe this tick's status for a session: remember it and decide
    /// the alert exactly as [`spec_alert`] states — an alert only on a
    /// transition into `NeedsInput` or into `Done`.
    pub fn observe(&mut self, session_name: &str, status: AgentStatus) -> (alert: Option<
        AlertKind,
    >)
        requires
            old(self).wf(),
        ensures
            final(self).wf(),
            final(self)@ == old(self)@.insert(session_name@, status),
            alert == spec_alert(old(self)@, session_name@, status),
    {
        let old_status = self.record(session_name, status);
        let was_needs_input = match old_status {
            Some(AgentStatus::NeedsInput) => true,
            _ => false,
        };
        let was_done = match old_status {
            Some(AgentStatus::Done) => true,
            _ => false,
        };
        match status {
            AgentStatus::NeedsInput => {
                if !was_needs_input {
                    Some(AlertKind::NeedsInput)
                } else {
                    None
                }
            },
            AgentStatus::Done => {
                if !was_done {
                    Some(AlertKind::Done)
                } else {
                    None
                }
            },
            _ => None,
        }
    }
}

} // verus!
