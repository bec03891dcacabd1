//! Inbox items: messages from outside sources, their senders and
//! metadata, and relative-time display. Fetching from the sources happens
//! outside; this module models the items themselves.

use vstd::prelude::*;

use crate::kvmap::{kv_map, lemma_kv_get, lemma_kv_none};
use crate::host::now_epoch_seconds;
use crate::strutil::{str_eq, u64_to_string, spec_dec};

verus! {

/// Who sent an inbox item.
pub struct Sender {
    /// Display name.
    pub display_name: String,
    /// Stable identifier: a phone number, address or user id.
    pub identifier: String,
    /// An avatar location, when the source provides one.
    pub avatar_url: Option<String>,
}

impl Sender {
    /// A sender with no avatar.
    pub fn new(display_name: &str, identifier: &str) -> (r: Sender)
        ensures
            r.display_name@ == display_name@,
            r.identifier@ == identifier@,
            r.avatar_url is None,
    {
        Sender {
            display_name: display_name.to_owned(),
            identifier: identifier.to_owned(),
            avatar_url: None,
        }
    }
}

/// Additional metadata for an inbox item.
pub struct ItemMetadata {
    /// Attachment descriptions.
    pub attachments: Vec<String>,
    /// Whether the item came from a group conversation.
    pub is_group: bool,
    /// The group's name, when it has one.
    pub group_name: Option<String>,
}

impl Default for ItemMetadata {
    /// No attachments, not a group.
    fn default() -> (r: ItemMetadata)
        ensures
            r.attachments@.len() == 0,
            !r.is_group,
            r.group_name is None,
    {
        ItemMetadata { attachments: Vec::new(), is_group: false, group_name: None }
    }
}

/// One message in the inbox, from any source.
pub struct InboxItem {
    /// Unique identifier for this item.
    pub id: String,
    /// Source identifier.
    pub source: String,
    /// Seconds since the Unix epoch when the message was sent.
    pub timestamp: i64,
    /// The message content.
    pub content: String,
    /// Whether the item has been read.
    pub read: bool,
    /// Who sent it.
    pub sender: Sender,
    /// Source-specific context needed for replies and thread fetching,
    /// opaque to the inbox itself.
    pub context: Vec<(String, String)>,
    /// Additional metadata.
    pub metadata: ItemMetadata,
}

/// `s` with every newline flattened to a space.
pub open spec fn spec_flatten_nl(s: Seq<char>) -> Seq<char>
    decreases s.len(),
{
    if s.len() == 0 {
        Seq::empty()
    } else {
        spec_flatten_nl(s.drop_last()) + (if s.last() == '\n' {
            seq![' ']
        } else {
            seq![s.last()]
        })
    }
}

fn flatten_nl(s: &str) -> (r: String)
    ensures
        r@ == spec_flatten_nl(s@),
{
    let n = s.unicode_len();
    let mut out = String::new();
    let mut seg: usize = 0;
    let mut i: usize = 0;
    proof {
        assert(s@.subrange(0, 0) =~= Seq::<char>::empty());
        assert(out@ + s@.subrange(0, 0) =~= spec_flatten_nl(s@.subrange(0, 0)));
    }
    while i < n
        invariant
            n == s@.len(),
            0 <= seg <= i <= n,
            out@ + s@.subrange(seg as int, i as int) == spec_flatten_nl(s@.subrange(0, i as int)),
        decreases n - i,
    {
        proof {
            let t = s@.subrange(0, i + 1);
            assert(t.drop_last() =~= s@.subrange(0, i as int));
            assert(t.last() == s@[i as int]);
        }
        if s.get_char(i) == '\n' {
            let piece = s.substring_char(seg, i);
            out.append(piece);
            out.append(" ");
            proof {
                reveal_strlit(" ");
                assert(out@ + s@.subrange(i + 1, i + 1) =~= spec_flatten_nl(s@.subrange(0, i + 1)));
            }
            seg = i + 1;
        } else {
            proof {
                assert(out@ + s@.subrange(seg as int, i + 1) =~= spec_flatten_nl(
                    s@.subrange(0, i + 1),
                ));
            }
        }
        i = i + 1;
    }
    let last_piece = s.substring_char(seg, n);
    out.append(last_piece);
    proof {
        assert(s@.subrange(0, n as int) =~= s@);
    }
    out
}

impl InboxItem {
    /// The context entries as a map; a later entry for a key wins.
    pub open spec fn ctx(&self) -> Map<Seq<char>, Seq<char>> {
        kv_map(self.context@).map_values(|v: String| v@)
    }

    /// A new unread item stamped with the current time.
    pub fn new(id: &str, source: &str, content: &str, sender: Sender) -> (r: InboxItem)
        ensures
            r.id@ == id@,
            r.source@ == source@,
            r.content@ == content@,
            !r.read,
            r.sender == sender,
            r.context@.len() == 0,
            r.metadata.attachments@.len() == 0,
            !r.metadata.is_group,
            r.metadata.group_name is None,
    {
        InboxItem {
            id: id.to_owned(),
            source: source.to_owned(),
            timestamp: now_epoch_seconds(),
            content: content.to_owned(),
            read: false,
            sender,
            context: Vec::new(),
            metadata: ItemMetadata::default(),
        }
    }

    /// The item with its timestamp set.
    pub fn with_timestamp(self, timestamp: i64) -> (r: InboxItem)
        ensures
            r == (InboxItem { timestamp, ..self }),
    {
        InboxItem { timestamp, ..self }
    }

    /// The item with one context entry added.
    pub fn with_context(self, key: &str, value: &str) -> (r: InboxItem)
        ensures
            r.id == self.id,
            r.source == self.source,
            r.timestamp == self.timestamp,
            r.content == self.content,
            r.read == self.read,
            r.sender == self.sender,
            r.metadata == self.metadata,
            r.context@.len() == self.context@.len() + 1,
            r.context@.subrange(0, self.context@.len() as int) == self.context@,
            r.context@.last().0@ == key@,
            r.context@.last().1@ == value@,
    {
        let mut r = self;
        r.context.push((key.to_owned(), value.to_owned()));
        proof {
            assert(r.context@.subrange(0, self.context@.len() as int) =~= self.context@);
        }
        r
    }

    /// The item with its metadata set.
    pub fn with_metadata(self, metadata: ItemMetadata) -> (r: InboxItem)
        ensures
            r == (InboxItem { metadata, ..self }),
    {
        InboxItem { metadata, ..self }
    }

    /// The last context value recorded for a key, if any.
    pub fn context_str(&self, key: &str) -> (r: Option<String>)
        ensures
            match r {
                Some(v) => kv_map(self.context@).contains_key(key@) && kv_map(self.context@)[key@]@
                    == v@,
                None => !kv_map(self.context@).contains_key(key@),
            },
    {
        let n = self.context.len();
        let mut i: usize = n;
        while i > 0
            invariant
                n == self.context@.len(),
                0 <= i <= n,
                forall|l: int| i <= l < n ==> self.context@[l].0@ != key@,
            decreases i,
        {
            i = i - 1;
            if str_eq(self.context[i].0.as_str(), key) {
                proof {
                    lemma_kv_get(self.context@, key@, i as int);
                }
                return Some(self.context[i].1.clone());
            }
        }
        proof {
            lemma_kv_none(self.context@, key@);
        }
        None
    }

    /// The label shown for the sender: the group's name for group
    /// conversations, else the sender's display name.
    pub fn sender_label(&self) -> (r: String)
        ensures
            r@ == (if self.metadata.is_group && self.metadata.group_name is Some {
                "Group: "@ + self.metadata.group_name->0@
            } else {
                self.sender.display_name@
            }),
    {
        if self.metadata.is_group {
            match &self.metadata.group_name {
                Some(g) => {
                    let mut r = "Group: ".to_owned();
                    r.append(g.as_str());
                    return r;
                },
                None => {},
            }
        }
        self.sender.display_name.clone()
    }

    /// A one-line preview of the content: newlines flattened, cut to the
    /// given length with an ellipsis.
    pub fn preview(&self, max_len: usize) -> (r: String)
        ensures
            ({
                let flat = spec_flatten_nl(self.content@);
                if flat.len() <= max_len {
                    r@ == flat
                } else {
                    r@ == flat.take(
                        (if max_len >= 3 {
                            max_len - 3
                        } else {
                            0
                        }) as int,
                    ) + "..."@
                }
            }),
    {
        let flat = flatten_nl(self.content.as_str());
        let n = flat.as_str().unicode_len();
        if n <= max_len {
            flat
        } else {
            let keep = if max_len >= 3 {
                max_len - 3
            } else {
                0
            };
            let cut = flat.as_str().substring_char(0, keep);
            let mut r = cut.to_owned();
            r.append("...");
            proof {
                assert(spec_flatten_nl(self.content@).take(keep as int) =~= flat@.subrange(
                    0,
                    keep as int,
                ));
            }
            r
        }
    }
}

/// State for tracking what has been fetched from a source.
pub struct SourceState {
    /// Seconds since the Unix epoch of the last fetch, if one happened.
    pub last_fetch: Option<i64>,
    /// Source-specific state entries.
    pub data: Vec<(String, String)>,
}

impl Default for SourceState {
    /// Never fetched, no state.
    fn default() -> (r: SourceState)
        ensures
            r.last_fetch is None,
            r.data@.len() == 0,
    {
        SourceState { last_fetch: None, data: Vec::new() }
    }
}

/// The compact relative-age label for a timestamp against the current
/// time: under a minute is "just now", then whole minutes, hours, days.
pub open spec fn spec_time_ago_compact(timestamp: i64, now: i64) -> Seq<char> {
    let secs = now - timestamp;
    if secs < 60 {
        "just now"@
    } else if secs < 3600 {
        spec_dec((secs / 60) as nat) + "m ago"@
    } else if secs < 86400 {
        spec_dec((secs / 3600) as nat) + "h ago"@
    } else {
        spec_dec((secs / 86400) as nat) + "d ago"@
    }
}

/// Render a timestamp as a compact relative age against a current time.
pub fn format_time_ago(timestamp: i64, now: i64) -> (r: String)
    ensures
        r@ == spec_time_ago_compact(timestamp, now),
{
    let secs: i128 = now as i128 - timestamp as i128;
    if secs < 60 {
        "just now".to_owned()
    } else if secs < 3600 {
        let mut r = u64_to_string((secs / 60) as u64);
        r.append("m ago");
        r
    } else if secs < 86400 {
        let mut r = u64_to_string((secs / 3600) as u64);
        r.append("h ago");
        r
    } else {
        let mut r = u64_to_string((secs / 86400) as u64);
        r.append("d ago");
        r
    }
}

} // verus!
