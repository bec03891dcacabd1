//! The inbox store: items and per-source fetch state addressed by
//! identifier, with identifiers sanitised into artifact names. The store
//! is modelled as maps here; mirroring records to disk happens outside.

use vstd::prelude::*;

use crate::inbox::{InboxItem, ItemMetadata, Sender, SourceState};
use crate::kvmap::{kv_distinct, kv_map, kv_values, lemma_kv_get, lemma_kv_none, lemma_kv_update};
use crate::strutil::str_eq;

verus! {

/// An identifier's characters with path separators replaced.
pub open spec fn spec_safe_chars(s: Seq<char>) -> Seq<char> {
    s.map_values(|c: char| if c == '/' || c == '\\' { '_' } else { c })
}

/// A string with every occurrence of two consecutive dots replaced by an
/// underscore, left to right.
pub open spec fn spec_fold_dotdot(s: Seq<char>) -> Seq<char>
    decreases s.len(),
{
    if s.len() >= 2 && s[0] == '.' && s[1] == '.' {
        seq!['_'] + spec_fold_dotdot(s.skip(2))
    } else if s.len() >= 1 {
        seq![s[0]] + spec_fold_dotdot(s.skip(1))
    } else {
        Seq::empty()
    }
}

/// An identifier sanitised for use as an artifact name: separators
/// replaced, then dot-dot sequences folded, so no id can escape the
/// store's directory.
pub open spec fn spec_sanitize_id(s: Seq<char>) -> Seq<char> {
    spec_fold_dotdot(spec_safe_chars(s))
}

fn safe_chars(s: &str) -> (r: String)
    ensures
        r@ == spec_safe_chars(s@),
{
    let n = s.unicode_len();
    let mut out = String::new();
    let mut seg: usize = 0;
    let mut i: usize = 0;
    proof {
        assert(out@ + s@.subrange(0, 0) =~= spec_safe_chars(s@.subrange(0, 0)));
    }
    while i < n
        invariant
            n == s@.len(),
            0 <= seg <= i <= n,
            out@ + s@.subrange(seg as int, i as int) == spec_safe_chars(s@.subrange(0, i as int)),
        decreases n - i,
    {
        proof {
            let t = s@.subrange(0, i + 1);
            assert(t.drop_last() =~= s@.subrange(0, i as int));
            assert(spec_safe_chars(t) =~= spec_safe_chars(s@.subrange(0, i as int)).push(
                (if s@[i as int] == '/' || s@[i as int] == '\\' {
                    '_'
                } else {
                    s@[i as int]
                }),
            ));
        }
        let c = s.get_char(i);
        if c == '/' || c == '\\' {
            let piece = s.substring_char(seg, i);
            out.append(piece);
            out.append("_");
            proof {
                reveal_strlit("_");
                assert(out@ + s@.subrange(i + 1, i + 1) =~= spec_safe_chars(
                    s@.subrange(0, i + 1),
                ));
            }
            seg = i + 1;
        } else {
            proof {
                assert(out@ + s@.subrange(seg as int, i + 1) =~= spec_safe_chars(
                    s@.subrange(0, i + 1),
                ));
            }
        }
        i = i + 1;
    }
    let last_piece = s.substring_char(seg, n);
    out.append(last_piece);
    proof {
        assert(s@.subrange(0, n as int) =~= s@);
        assert(out@ =~= spec_safe_chars(s@));
    }
    out
}

fn fold_dotdot(s: &str) -> (r: String)
    ensures
        r@ == spec_fold_dotdot(s@),
{
    let n = s.unicode_len();
    let mut out = String::new();
    let mut seg: usize = 0;
    let mut i: usize = 0;
    proof {
        assert(s@.skip(0) =~= s@);
        assert(out@ + s@.subrange(0, 0) =~= Seq::<char>::empty());
    }
    while i < n
        invariant
            n == s@.len(),
            0 <= seg <= i <= n,
            spec_fold_dotdot(s@) == out@ + s@.subrange(seg as int, i as int) + spec_fold_dotdot(
                s@.skip(i as int),
            ),
        decreases n - i,
    {
        proof {
            let rest = s@.skip(i as int);
            assert(rest.len() == n - i);
            if rest.len() >= 1 {
                assert(rest[0] == s@[i as int]);
            }
            if rest.len() >= 2 {
                assert(rest[1] == s@[i + 1]);
            }
            if rest.len() >= 1 {
                assert(rest.skip(1) =~= s@.skip(i + 1));
            }
            if rest.len() >= 2 {
                assert(rest.skip(2) =~= s@.skip(i + 2));
            }
        }
        if i + 1 < n && s.get_char(i) == '.' && s.get_char(i + 1) == '.' {
            let piece = s.substring_char(seg, i);
            out.append(piece);
            out.append("_");
            proof {
                reveal_strlit("_");
                assert(out@ + s@.subrange(i + 2, i + 2) + spec_fold_dotdot(s@.skip(i + 2))
                    =~= spec_fold_dotdot(s@));
            }
            seg = i + 2;
            i = i + 2;
        } else {
            proof {
                assert(out@ + s@.subrange(seg as int, i + 1) + spec_fold_dotdot(s@.skip(i + 1))
                    =~= spec_fold_dotdot(s@));
            }
            i = i + 1;
        }
    }
    let last_piece = s.substring_char(seg, n);
    out.append(last_piece);
    proof {
        assert(s@.skip(n as int) =~= Seq::<char>::empty());
        assert(out@ =~= spec_fold_dotdot(s@));
    }
    out
}

/// Sanitise an identifier for use as an artifact name.
pub fn sanitize_id(id: &str) -> (r: String)
    ensures
        r@ == spec_sanitize_id(id@),
{
    let safe = safe_chars(id);
    fold_dotdot(safe.as_str())
}

/// Storage failures surfaced to callers.
#[derive(Debug, Clone, PartialEq, Eq)]
pub enum InboxError {
    /// No record exists for the identifier.
    ItemNotFound,
}

/// View-level equality of string lists.
pub open spec fn strs_like(a: Seq<String>, b: Seq<String>) -> bool {
    a.len() == b.len() && forall|i: int| 0 <= i < a.len() ==> a[i]@ == b[i]@
}

/// View-level equality of string-pair lists.
pub open spec fn pairs_like(a: Seq<(String, String)>, b: Seq<(String, String)>) -> bool {
    a.len() == b.len() && forall|i: int|
        0 <= i < a.len() ==> a[i].0@ == b[i].0@ && a[i].1@ == b[i].1@
}

/// View-level equality of senders.
pub open spec fn sender_like(a: Sender, b: Sender) -> bool {
    &&& a.display_name@ == b.display_name@
    &&& a.identifier@ == b.identifier@
    &&& match (a.avatar_url, b.avatar_url) {
        (Option::Some(x), Option::Some(y)) => x@ == y@,
        (Option::None, Option::None) => true,
        _ => false,
    }
}

/// View-level equality of item metadata.
pub open spec fn metadata_like(a: ItemMetadata, b: ItemMetadata) -> bool {
    &&& strs_like(a.attachments@, b.attachments@)
    &&& a.is_group == b.is_group
    &&& match (a.group_name, b.group_name) {
        (Option::Some(x), Option::Some(y)) => x@ == y@,
        (Option::None, Option::None) => true,
        _ => false,
    }
}

/// View-level equality of inbox items: the same message in every
/// observable respect.
pub open spec fn item_like(a: InboxItem, b: InboxItem) -> bool {
    &&& a.id@ == b.id@
    &&& a.source@ == b.source@
    &&& a.timestamp == b.timestamp
    &&& a.content@ == b.content@
    &&& a.read == b.read
    &&& sender_like(a.sender, b.sender)
    &&& pairs_like(a.context@, b.context@)
    &&& metadata_like(a.metadata, b.metadata)
}

/// View-level equality of source states.
pub open spec fn state_like(a: SourceState, b: SourceState) -> bool {
    a.last_fetch == b.last_fetch && pairs_like(a.data@, b.data@)
}

fn dup_string_vec(v: &Vec<String>) -> (r: Vec<String>)
    ensures
        r@ == v@,
{
    let n = v.len();
    let mut r: Vec<String> = Vec::new();
    let mut i: usize = 0;
    while i < n
        invariant
            n == v@.len(),
            0 <= i <= n,
            r@ == v@.subrange(0, i as int),
        decreases n - i,
    {
        r.push(v[i].clone());
        proof {
            assert(r@ =~= v@.subrange(0, i + 1));
        }
        i = i + 1;
    }
    proof {
        assert(v@.subrange(0, n as int) =~= v@);
    }
    r
}

fn dup_pairs(v: &Vec<(String, String)>) -> (r: Vec<(String, String)>)
    ensures
        r@ == v@,
{
    let n = v.len();
    let mut r: Vec<(String, String)> = Vec::new();
    let mut i: usize = 0;
    while i < n
        invariant
            n == v@.len(),
            0 <= i <= n,
            r@ == v@.subrange(0, i as int),
        decreases n - i,
    {
        r.push((v[i].0.clone(), v[i].1.clone()));
        proof {
            assert(r@ =~= v@.subrange(0, i + 1));
        }
        i = i + 1;
    }
    proof {
        assert(v@.subrange(0, n as int) =~= v@);
    }
    r
}

fn dup_opt_string(o: &Option<String>) -> (r: Option<String>)
    ensures
        r == *o,
{
    match o {
        Some(s) => Some(s.clone()),
        None => None,
    }
}

fn dup_sender(s: &Sender) -> (r: Sender)
    ensures
        sender_like(r, *s),
{
    Sender {
        display_name: s.display_name.clone(),
        identifier: s.identifier.clone(),
        avatar_url: dup_opt_string(&s.avatar_url),
    }
}

fn dup_metadata(m: &ItemMetadata) -> (r: ItemMetadata)
    ensures
        metadata_like(r, *m),
{
    ItemMetadata {
        attachments: dup_string_vec(&m.attachments),
        is_group: m.is_group,
        group_name: dup_opt_string(&m.group_name),
    }
}

fn dup_item(item: &InboxItem) -> (r: InboxItem)
    ensures
        item_like(r, *item),
{
    InboxItem {
        id: item.id.clone(),
        source: item.source.clone(),
        timestamp: item.timestamp,
        content: item.content.clone(),
        read: item.read,
        sender: dup_sender(&item.sender),
        context: dup_pairs(&item.context),
        metadata: dup_metadata(&item.metadata),
    }
}

fn dup_state(s: &SourceState) -> (r: SourceState)
    ensures
        state_like(r, *s),
{
    SourceState { last_fetch: s.last_fetch, data: dup_pairs(&s.data) }
}

/// The inbox store: items and per-source state addressed by sanitised
/// identifier.
pub struct InboxStorage {
    inbox_dir: String,
    state_dir: String,
    items: Vec<(String, InboxItem)>,
    states: Vec<(String, SourceState)>,
}

impl InboxStorage {
    /// The stored items, by sanitised identifier.
    pub closed spec fn items_map(&self) -> Map<Seq<char>, InboxItem> {
        kv_map(self.items@)
    }

    /// The stored items, in insertion order.
    pub closed spec fn items_seq(&self) -> Seq<InboxItem> {
        kv_values(self.items@)
    }

    /// The stored per-source states, by sanitised source identifier.
    pub closed spec fn states_map(&self) -> Map<Seq<char>, SourceState> {
        kv_map(self.states@)
    }

    /// The item artifact directory.
    pub closed spec fn spec_inbox_dir(&self) -> Seq<char> {
        self.inbox_dir@
    }

    /// Internal shape: one record per identifier, the state directory
    /// inside the item directory.
    pub closed spec fn wf(&self) -> bool {
        &&& kv_distinct(self.items@)
        &&& kv_distinct(self.states@)
        &&& self.state_dir@ == self.inbox_dir@ + "/.state"@
        &&& forall|i: int|
            0 <= i < self.items@.len() ==> (#[trigger] self.items@[i]).0@ == spec_sanitize_id(
                self.items@[i].1.id@,
            )
    }

    /// An empty store rooted under a base directory: items live in its
    /// inbox directory, per-source state in a dot-directory inside that.
    pub fn new(base_dir: &str) -> (r: InboxStorage)
        ensures
            r.wf(),
            r.items_map() == Map::<Seq<char>, InboxItem>::empty(),
            r.states_map() == Map::<Seq<char>, SourceState>::empty(),
            r.spec_inbox_dir() == base_dir@ + "/inbox"@,
    {
        let mut inbox_dir = base_dir.to_owned();
        inbox_dir.append("/inbox");
        let mut state_dir = inbox_dir.clone();
        state_dir.append("/.state");
        InboxStorage { inbox_dir, state_dir, items: Vec::new(), states: Vec::new() }
    }

    /// The artifact path an item identifier maps to: a deterministic,
    /// sanitised function of the id.
    pub fn item_path(&self, id: &str) -> (r: String)
        ensures
            r@ == self.spec_inbox_dir() + "/"@ + spec_sanitize_id(id@) + ".json"@,
    {
        let safe = sanitize_id(id);
        let mut r = self.inbox_dir.clone();
        r.append("/");
        r.append(safe.as_str());
        r.append(".json");
        r
    }

    /// The artifact path a source identifier's state maps to.
    pub fn state_path(&self, source_id: &str) -> (r: String)
        requires
            self.wf(),
        ensures
            r@ == self.spec_inbox_dir() + "/.state"@ + "/"@ + spec_sanitize_id(source_id@)
                + ".json"@,
    {
        let safe = sanitize_id(source_id);
        let mut r = self.state_dir.clone();
        r.append("/");
        r.append(safe.as_str());
        r.append(".json");
        r
    }

    fn find_item(&self, key: &str) -> (r: Option<usize>)
        ensures
            match r {
                Some(i) => 0 <= i < self.items@.len() && self.items@[i as int].0@ == key@ && (
                forall|l: int| i < l < self.items@.len() ==> self.items@[l].0@ != key@),
                None => forall|l: int| 0 <= l < self.items@.len() ==> self.items@[l].0@ != key@,
            },
    {
        let n = self.items.len();
        let mut i: usize = n;
        while i > 0
            invariant
                n == self.items@.len(),
                0 <= i <= n,
                forall|l: int| i <= l < n ==> self.items@[l].0@ != key@,
            decreases i,
        {
            i = i - 1;
            if str_eq(self.items[i].0.as_str(), key) {
                return Some(i);
            }
        }
        None
    }

    fn find_state(&self, key: &str) -> (r: Option<usize>)
        ensures
            match r {
                Some(i) => 0 <= i < self.states@.len() && self.states@[i as int].0@ == key@ && (
                forall|l: int| i < l < self.states@.len() ==> self.states@[l].0@ != key@),
                None => forall|l: int| 0 <= l < self.states@.len() ==> self.states@[l].0@ != key@,
            },
    {
        let n = self.states.len();
        let mut i: usize = n;
        while i > 0
            invariant
                n == self.states@.len(),
                0 <= i <= n,
                forall|l: int| i <= l < n ==> self.states@[l].0@ != key@,
            decreases i,
        {
            i = i - 1;
            if str_eq(self.states[i].0.as_str(), key) {
                return Some(i);
            }
        }
        None
    }

    /// Store an item under its sanitised identifier; a second save for
    /// the same identifier replaces the first.
    pub fn save_item(&mut self, item: &InboxItem)
        requires
            old(self).wf(),
        ensures
            final(self).wf(),
            final(self).items_map().contains_key(spec_sanitize_id(item.id@)),
            item_like(final(self).items_map()[spec_sanitize_id(item.id@)], *item),
            final(self).items_map().remove(spec_sanitize_id(item.id@)) == old(self).items_map().remove(spec_sanitize_id(item.id@)),
            final(self).states_map() == old(self).states_map(),
            final(self).spec_inbox_dir() == old(self).spec_inbox_dir(),
    {
        let key = sanitize_id(item.id.as_str());
        let stored = dup_item(item);
        match self.find_item(key.as_str()) {
            Some(i) => {
                let k = self.items[i].0.clone();
                let ghost s0 = self.items@;
                let ghost storedg = stored;
                self.items.set(i, (k, stored));
                proof {
                    lemma_kv_update(s0, i as int, (self.items@[i as int].0, storedg));
                    assert(self.items@ =~= s0.update(i as int, (self.items@[i as int].0, storedg)));
                    assert forall|a: int, b: int|
                        0 <= a < b < self.items@.len() implies self.items@[a].0@
                        != self.items@[b].0@ by {
                        assert(s0[a].0@ != s0[b].0@);
                    }
                    assert forall|a: int|
                        0 <= a < self.items@.len() implies (#[trigger] self.items@[a]).0@
                        == spec_sanitize_id(self.items@[a].1.id@) by {
                        if a != i {
                            assert(s0[a].0@ == spec_sanitize_id(s0[a].1.id@));
                        }
                    }
                    assert(kv_map(self.items@).remove(key@) =~= kv_map(s0).remove(key@));
                }
            },
            None => {
                proof {
                    lemma_kv_none(self.items@, key@);
                }
                let ghost s0 = self.items@;
                self.items.push((key, stored));
                proof {
                    assert(self.items@.drop_last() =~= s0);
                    assert forall|a: int, b: int|
                        0 <= a < b < self.items@.len() implies self.items@[a].0@
                        != self.items@[b].0@ by {
                        if b < s0.len() {
                            assert(s0[a].0@ != s0[b].0@);
                        } else {
                            assert(s0[a].0@ != self.items@[b].0@);
                        }
                    }
                    assert forall|a: int|
                        0 <= a < self.items@.len() implies (#[trigger] self.items@[a]).0@
                        == spec_sanitize_id(self.items@[a].1.id@) by {
                        if a < s0.len() {
                            assert(s0[a].0@ == spec_sanitize_id(s0[a].1.id@));
                        }
                    }
                    assert(kv_map(self.items@).remove(key@) =~= kv_map(s0).remove(key@));
                }
            },
        }
    }

    /// Load the item stored under an identifier; absence is the only
    /// failure.
    pub fn load_item(&self, id: &str) -> (r: Result<InboxItem, InboxError>)
        ensures
            match r {
                Ok(item) => self.items_map().contains_key(spec_sanitize_id(id@)) && item_like(
                    item,
                    self.items_map()[spec_sanitize_id(id@)],
                ),
                Err(e) => !self.items_map().contains_key(spec_sanitize_id(id@)) && e
                    == InboxError::ItemNotFound,
            },
    {
        let key = sanitize_id(id);
        match self.find_item(key.as_str()) {
            Some(i) => {
                proof {
                    lemma_kv_get(self.items@, key@, i as int);
                }
                Ok(dup_item(&self.items[i].1))
            },
            None => {
                proof {
                    lemma_kv_none(self.items@, key@);
                }
                Err(InboxError::ItemNotFound)
            },
        }
    }

    /// Delete the item stored under an identifier; deleting an absent
    /// item succeeds.
    pub fn delete_item(&mut self, id: &str)
        requires
            old(self).wf(),
        ensures
            final(self).wf(),
            final(self).items_map() == old(self).items_map().remove(spec_sanitize_id(id@)),
            final(self).states_map() == old(self).states_map(),
            final(self).spec_inbox_dir() == old(self).spec_inbox_dir(),
    {
        let key = sanitize_id(id);
        match self.find_item(key.as_str()) {
            Some(i) => {
                let ghost s0 = self.items@;
                let _ = self.items.remove(i);
                proof {
                    crate::kvmap::lemma_kv_remove(s0, i as int);
                    assert(self.items@ =~= s0.remove(i as int));
                    assert forall|a: int, b: int|
                        0 <= a < b < self.items@.len() implies self.items@[a].0@
                        != self.items@[b].0@ by {
                        let a0 = if a < i {
                            a
                        } else {
                            a + 1
                        };
                        let b0 = if b < i {
                            b
                        } else {
                            b + 1
                        };
                        assert(s0[a0].0@ != s0[b0].0@);
                    }
                    assert forall|a: int|
                        0 <= a < self.items@.len() implies (#[trigger] self.items@[a]).0@
                        == spec_sanitize_id(self.items@[a].1.id@) by {
                        let a0 = if a < i {
                            a
                        } else {
                            a + 1
                        };
                        assert(s0[a0].0@ == spec_sanitize_id(s0[a0].1.id@));
                    }
                }
            },
            None => {
                proof {
                    lemma_kv_none(self.items@, key@);
                    assert(self.items_map().remove(key@) =~= self.items_map());
                }
            },
        }
    }

    /// Whether an item is stored under an identifier.
    pub fn item_exists(&self, id: &str) -> (r: bool)
        ensures
            r == self.items_map().contains_key(spec_sanitize_id(id@)),
    {
        let key = sanitize_id(id);
        match self.find_item(key.as_str()) {
            Some(i) => {
                proof {
                    lemma_kv_get(self.items@, key@, i as int);
                }
                true
            },
            None => {
                proof {
                    lemma_kv_none(self.items@, key@);
                }
                false
            },
        }
    }

    /// All stored items, newest first by timestamp.
    pub fn list_items(&self) -> (r: Vec<InboxItem>)
        ensures
            forall|i: int|
                0 <= i < r@.len() - 1 ==> #[trigger] r@[i].timestamp >= r@[i + 1].timestamp,
            exists|mid: Seq<InboxItem>|
                #![trigger mid.to_multiset()]
                mid.len() == self.items_seq().len() && (forall|j: int|
                    0 <= j < mid.len() ==> item_like(#[trigger] mid[j], self.items_seq()[j]))
                    && r@.to_multiset() == mid.to_multiset(),
    {
        broadcast use vstd::seq_lib::group_to_multiset_ensures;

        let n = self.items.len();
        let mut out: Vec<InboxItem> = Vec::new();
        let ghost mut mid: Seq<InboxItem> = Seq::empty();
        let mut taken: usize = 0;
        proof {
            assert(out@.to_multiset() =~= mid.to_multiset());
        }
        while taken < n
            invariant
                n == self.items@.len(),
                0 <= taken <= n,
                mid.len() == taken,
                forall|j: int|
                    0 <= j < taken ==> item_like(#[trigger] mid[j], kv_values(self.items@)[j]),
                out@.to_multiset() == mid.to_multiset(),
                forall|i: int|
                    0 <= i < out@.len() - 1 ==> #[trigger] out@[i].timestamp >= out@[i
                        + 1].timestamp,
            decreases n - taken,
        {
            let x = dup_item(&self.items[taken].1);
            proof {
                assert(kv_values(self.items@)[taken as int] == self.items@[taken as int].1);
            }
            let ghost xg = x;
            let mut j: usize = out.len();
            while j > 0 && out[j - 1].timestamp < x.timestamp
                invariant
                    0 <= j <= out@.len(),
                    x == xg,
                    forall|l: int| j <= l < out@.len() ==> !(out@[l].timestamp >= xg.timestamp),
                decreases j,
            {
                j = j - 1;
            }
            let ghost out0 = out@;
            out.insert(j, x);
            proof {
                let mid0 = mid;
                mid = mid.push(xg);
                assert(out@ =~= out0.insert(j as int, xg));
                vstd::seq_lib::to_multiset_insert(out0, j as int, xg);
                vstd::seq_lib::to_multiset_build(mid0, xg);
                assert(mid == mid0.push(xg));
                assert forall|i: int|
                    0 <= i < out@.len() - 1 implies #[trigger] out@[i].timestamp >= out@[i
                    + 1].timestamp by {
                    if i + 1 < j {
                        assert(out@[i] == out0[i] && out@[i + 1] == out0[i + 1]);
                        assert(out0[i].timestamp >= out0[i + 1].timestamp);
                    } else if i + 1 == j {
                        assert(out@[i] == out0[i] && out@[i + 1] == xg);
                        assert(out0[i].timestamp >= xg.timestamp);
                    } else if i == j {
                        assert(out@[i] == xg && out@[i + 1] == out0[i]);
                    } else {
                        assert(out@[i] == out0[i - 1] && out@[i + 1] == out0[i]);
                        assert(out0[i - 1].timestamp >= out0[i].timestamp);
                    }
                }
            }
            taken = taken + 1;
        }
        proof {
            assert(mid.len() == self.items_seq().len());
        }
        out
    }

    /// How many stored items are unread.
    pub fn count_unread(&self) -> (r: usize)
        ensures
            r == self.items_seq().filter(|i: InboxItem| !i.read).len(),
    {
        let n = self.items.len();
        let mut count: usize = 0;
        let mut i: usize = 0;
        proof {
            reveal(Seq::filter);
            assert(kv_values(self.items@.subrange(0, 0)) =~= Seq::<InboxItem>::empty());
            assert(kv_values(self.items@.subrange(0, 0)).filter(|x: InboxItem| !x.read)
                =~= Seq::<InboxItem>::empty());
        }
        while i < n
            invariant
                n == self.items@.len(),
                0 <= i <= n,
                count == kv_values(self.items@.subrange(0, i as int)).filter(
                    |x: InboxItem| !x.read,
                ).len(),
                count <= i,
        decreases n - i,
        {
            proof {
                reveal(Seq::filter);
                let pfx = kv_values(self.items@.subrange(0, i as int));
                let pfx2 = kv_values(self.items@.subrange(0, i + 1));
                assert(self.items@.subrange(0, i + 1).drop_last() =~= self.items@.subrange(
                    0,
                    i as int,
                ));
                assert(pfx2 =~= pfx.push(self.items@[i as int].1));
                assert(pfx2.drop_last() =~= pfx);
                assert(pfx2.last() == self.items@[i as int].1);
            }
            if !self.items[i].1.read {
                count = count + 1;
            }
            i = i + 1;
        }
        proof {
            assert(self.items@.subrange(0, n as int) =~= self.items@);
        }
        count
    }

    /// Mark a stored item read; absence is the only failure.
    pub fn mark_read(&mut self, id: &str) -> (r: Result<(), InboxError>)
        requires
            old(self).wf(),
        ensures
            final(self).wf(),
            final(self).states_map() == old(self).states_map(),
            final(self).spec_inbox_dir() == old(self).spec_inbox_dir(),
            match r {
                Ok(_) => ({
                    let key = spec_sanitize_id(id@);
                    &&& old(self).items_map().contains_key(key)
                    &&& final(self).items_map().contains_key(key)
                    &&& item_like(
                        final(self).items_map()[key],
                        (InboxItem { read: true, ..old(self).items_map()[key] }),
                    )
                    &&& final(self).items_map().remove(key) == old(self).items_map().remove(key)
                }),
                Err(e) => !old(self).items_map().contains_key(spec_sanitize_id(id@)) && final(self).items_map() == old(self).items_map() && e == InboxError::ItemNotFound,
            },
    {
        let mut item = match self.load_item(id) {
            Ok(item) => item,
            Err(e) => {
                return Err(e);
            },
        };
        proof {
            let key = spec_sanitize_id(id@);
            crate::kvmap::lemma_kv_key_of_value(self.items@, key);
        }
        item.read = true;
        self.save_item(&item);
        proof {
            let key = spec_sanitize_id(id@);
            assert(spec_sanitize_id(item.id@) == key);
            assert(item_like(
                self.items_map()[key],
                (InboxItem { read: true, ..old(self).items_map()[key] }),
            ));
        }
        Ok(())
    }

    /// Store a source's fetch state under its sanitised identifier.
    pub fn save_source_state(&mut self, source_id: &str, state: &SourceState)
        requires
            old(self).wf(),
        ensures
            final(self).wf(),
            final(self).states_map().contains_key(spec_sanitize_id(source_id@)),
            state_like(final(self).states_map()[spec_sanitize_id(source_id@)], *state),
            final(self).states_map().remove(spec_sanitize_id(source_id@)) == old(self).states_map().remove(spec_sanitize_id(source_id@)),
            final(self).items_map() == old(self).items_map(),
            final(self).spec_inbox_dir() == old(self).spec_inbox_dir(),
    {
        let key = sanitize_id(source_id);
        let stored = dup_state(state);
        match self.find_state(key.as_str()) {
            Some(i) => {
                let k = self.states[i].0.clone();
                let ghost s0 = self.states@;
                let ghost storedg = stored;
                self.states.set(i, (k, stored));
                proof {
                    lemma_kv_update(s0, i as int, (self.states@[i as int].0, storedg));
                    assert(self.states@ =~= s0.update(
                        i as int,
                        (self.states@[i as int].0, storedg),
                    ));
                    assert forall|a: int, b: int|
                        0 <= a < b < self.states@.len() implies self.states@[a].0@
                        != self.states@[b].0@ by {
                        assert(s0[a].0@ != s0[b].0@);
                    }
                    assert(kv_map(self.states@).remove(key@) =~= kv_map(s0).remove(key@));
                }
            },
            None => {
                proof {
                    lemma_kv_none(self.states@, key@);
                }
                let ghost s0 = self.states@;
                self.states.push((key, stored));
                proof {
                    assert(self.states@.drop_last() =~= s0);
                    assert forall|a: int, b: int|
                        0 <= a < b < self.states@.len() implies self.states@[a].0@
                        != self.states@[b].0@ by {
                        if b < s0.len() {
                            assert(s0[a].0@ != s0[b].0@);
                        } else {
                            assert(s0[a].0@ != self.states@[b].0@);
                        }
                    }
                    assert(kv_map(self.states@).remove(key@) =~= kv_map(s0).remove(key@));
                }
            },
        }
    }

    /// Load a source's fetch state: a source never stored has the default
    /// state, never an error.
    pub fn load_source_state(&self, source_id: &str) -> (r: SourceState)
        ensures
            ({
                let key = spec_sanitize_id(source_id@);
                if self.states_map().contains_key(key) {
                    state_like(r, self.states_map()[key])
                } else {
                    r.last_fetch is None && r.data@.len() == 0
                }
            }),
    {
        let key = sanitize_id(source_id);
        match self.find_state(key.as_str()) {
            Some(i) => {
                proof {
                    lemma_kv_get(self.states@, key@, i as int);
                }
                dup_state(&self.states[i].1)
            },
            None => {
                proof {
                    lemma_kv_none(self.states@, key@);
                }
                SourceState::default()
            },
        }
    }

    /// When a source was last fetched, if ever.
    pub fn get_last_fetch(&self, source_id: &str) -> (r: Option<i64>)
        ensures
            ({
                let key = spec_sanitize_id(source_id@);
                if self.states_map().contains_key(key) {
                    r == self.states_map()[key].last_fetch
                } else {
                    r is None
                }
            }),
    {
        let state = self.load_source_state(source_id);
        state.last_fetch
    }

    /// Record when a source was last fetched, keeping its other state.
    pub fn update_last_fetch(&mut self, source_id: &str, time: i64)
        requires
            old(self).wf(),
        ensures
            final(self).wf(),
            final(self).items_map() == old(self).items_map(),
            final(self).spec_inbox_dir() == old(self).spec_inbox_dir(),
            ({
                let key = spec_sanitize_id(source_id@);
                &&& final(self).states_map().contains_key(key)
                &&& final(self).states_map()[key].last_fetch == Some(time)
                &&& (old(self).states_map().contains_key(key) ==> pairs_like(
                    final(self).states_map()[key].data@,
                    old(self).states_map()[key].data@,
                ))
                &&& (!old(self).states_map().contains_key(key) ==> final(self).states_map()[key].data@.len() == 0)
                &&& final(self).states_map().remove(key) == old(self).states_map().remove(key)
            }),
    {
        let mut state = self.load_source_state(source_id);
        state.last_fetch = Some(time);
        self.save_source_state(source_id, &state);
        proof {
            let key = spec_sanitize_id(source_id@);
            assert(self.states_map().contains_key(key));
        }
    }

    /// Store several items at once, in order: afterwards every item's
    /// identifier is present in the store.
    pub fn save_items(&mut self, items: &Vec<InboxItem>)
        requires
            old(self).wf(),
        ensures
            final(self).wf(),
            final(self).states_map() == old(self).states_map(),
            final(self).spec_inbox_dir() == old(self).spec_inbox_dir(),
            forall|j: int|
                0 <= j < items@.len() ==> final(self).items_map().contains_key(
                    spec_sanitize_id(#[trigger] items@[j].id@),
                ),
    {
        let ghost orig_states = old(self).states_map();
        let ghost orig_dir = old(self).spec_inbox_dir();
        let n = items.len();
        let mut i: usize = 0;
        while i < n
            invariant
                n == items@.len(),
                0 <= i <= n,
                self.wf(),
                self.states_map() == orig_states,
                self.spec_inbox_dir() == orig_dir,
                forall|j: int|
                    0 <= j < i ==> self.items_map().contains_key(
                        spec_sanitize_id(#[trigger] items@[j].id@),
                    ),
            decreases n - i,
        {
            let ghost before = self.items_map();
            self.save_item(&items[i]);
            proof {
                let keyi = spec_sanitize_id(items@[i as int].id@);
                assert forall|j: int|
                    0 <= j < i + 1 implies self.items_map().contains_key(
                        spec_sanitize_id(#[trigger] items@[j].id@),
                    ) by {
                    let kj = spec_sanitize_id(items@[j].id@);
                    if j < i {
                        if kj != keyi {
                            assert(self.items_map().remove(keyi) == before.remove(keyi));
                            assert(before.contains_key(kj));
                        }
                    }
                }
            }
            i = i + 1;
        }
    }
}

/// Law: a listing ordered pair by adjacent pair is ordered throughout —
/// every earlier item is at least as fresh as every later one.
pub proof fn lemma_listing_sorted_pairwise(s: Seq<InboxItem>)
    requires
        forall|i: int| 0 <= i < s.len() - 1 ==> #[trigger] s[i].timestamp >= s[i + 1].timestamp,
    ensures
        forall|i: int, j: int|
            0 <= i <= j < s.len() ==> #[trigger] s[i].timestamp >= #[trigger] s[j].timestamp,
{
    assert forall|i: int, j: int|
        0 <= i <= j < s.len() implies #[trigger] s[i].timestamp >= #[trigger] s[j].timestamp by {
        lemma_listing_span(s, i, j);
    }
}

proof fn lemma_listing_span(s: Seq<InboxItem>, i: int, j: int)
    requires
        forall|k: int| 0 <= k < s.len() - 1 ==> #[trigger] s[k].timestamp >= s[k + 1].timestamp,
        0 <= i <= j < s.len(),
    ensures
        s[i].timestamp >= s[j].timestamp,
    decreases j - i,
{
    if i < j {
        lemma_listing_span(s, i, j - 1);
        assert(s[j - 1].timestamp >= s[j].timestamp);
    }
}

} // verus!
