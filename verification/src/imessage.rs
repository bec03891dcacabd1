//! The message source backed by the local messages CLI: which messages
//! become inbox items, and verbose relative-time display. Running the CLI
//! and decoding its output happen outside; this module decides what an
//! already-decoded message record becomes.

use vstd::prelude::*;

use crate::inbox::{InboxItem, ItemMetadata, Sender};
use crate::strutil::{contains_name, str_eq, u64_to_string, spec_dec, views_of};

verus! {

/// The message source: where its binary lives and which contacts are
/// kept out of the inbox.
pub struct IMessageSource {
    /// Path to the messages CLI binary.
    pub imsg_path: String,
    /// Contacts excluded from the inbox.
    pub blocked_contacts: Vec<String>,
}

/// One already-decoded message record, as plain values.
pub struct MessageRecord {
    /// The message's stable identifier.
    pub guid: String,
    /// Message text, when any.
    pub text: Option<String>,
    /// Sender handle, when known.
    pub sender: Option<String>,
    /// Whether the local user sent it.
    pub is_from_me: bool,
    /// Seconds since the Unix epoch when it was created; `None` when the
    /// record carried no readable timestamp.
    pub created_at: Option<i64>,
    /// The conversation it belongs to.
    pub chat_id: i64,
}

impl IMessageSource {
    /// A source reading through the CLI at this path, blocking nobody.
    pub fn new(imsg_path: &str) -> (r: IMessageSource)
        ensures
            r.imsg_path@ == imsg_path@,
            r.blocked_contacts@.len() == 0,
    {
        IMessageSource { imsg_path: imsg_path.to_owned(), blocked_contacts: Vec::new() }
    }

    /// The source with its blocked-contacts list set.
    pub fn with_blocked_contacts(self, blocked: Vec<String>) -> (r: IMessageSource)
        ensures
            r.imsg_path == self.imsg_path,
            r.blocked_contacts == blocked,
    {
        IMessageSource { blocked_contacts: blocked, ..self }
    }

    /// Verify that the messages CLI is where this source expects it.
    /// `binary_exists` is whether a file stands at that path; absence is
    /// the one failure, reported with a reinstall hint.
    pub fn check_binary(&self, binary_exists: bool) -> (r: Result<(), String>)
        ensures
            binary_exists <==> r is Ok,
            !binary_exists ==> r->Err_0@ == "imsg not found at "@ + self.imsg_path@
                + ". It should be bundled - please reinstall or build from source."@,
    {
        if binary_exists {
            Ok(())
        } else {
            let mut msg = "imsg not found at ".to_owned();
            msg.append(self.imsg_path.as_str());
            msg.append(". It should be bundled - please reinstall or build from source.");
            Err(msg)
        }
    }

    /// Whether a record is kept out of the inbox: sent by the local user,
    /// empty, or from a blocked contact.
    pub open spec fn spec_skips(&self, msg: MessageRecord) -> bool {
        ||| msg.is_from_me
        ||| match msg.text {
            Some(t) => t@.len() == 0,
            None => true,
        }
        ||| match msg.sender {
            Some(s) => views_of(self.blocked_contacts@).contains(s@),
            None => false,
        }
    }

    /// Turn a decoded message record into an inbox item, or nothing when
    /// the record is skipped. The sender label prefers a nonempty
    /// conversation name; a record without a timestamp is stamped with
    /// `now`. The item remembers the conversation and handle it came
    /// from, for replies.
    pub fn message_to_item(
        &self,
        msg: MessageRecord,
        chat_name: Option<&String>,
        now_secs: i64,
    ) -> (r: Option<InboxItem>)
        ensures
            r is None <==> self.spec_skips(msg),
            r is Some ==> ({
                let item = r->0;
                let handle = match msg.sender {
                    Some(s) => s@,
                    None => "Unknown"@,
                };
                let named_group = match chat_name {
                    Some(n) => n@.len() > 0,
                    None => false,
                };
                &&& item.id@ == msg.guid@
                &&& item.source@ == "imessage"@
                &&& item.content@ == msg.text->0@
                &&& !item.read
                &&& item.timestamp == (match msg.created_at {
                    Some(t) => t,
                    None => now_secs,
                })
                &&& item.sender.identifier@ == handle
                &&& item.sender.display_name@ == (if named_group {
                    chat_name->0@
                } else {
                    handle
                })
                &&& item.metadata.is_group == named_group
                &&& (match item.metadata.group_name {
                    Some(g) => named_group && g@ == chat_name->0@,
                    None => !named_group,
                })
                &&& item.metadata.attachments@.len() == 0
                &&& item.context@.len() == 2
                &&& item.context@[0].0@ == "chat_id"@
                &&& item.context@[0].1@ == spec_i64_dec(msg.chat_id as int)
                &&& item.context@[1].0@ == "handle"@
                &&& item.context@[1].1@ == handle
            }),
    {
        if msg.is_from_me {
            return None;
        }
        let content = match &msg.text {
            Some(t) => {
                if t.as_str().unicode_len() == 0 {
                    return None;
                }
                t.as_str()
            },
            None => {
                return None;
            },
        };
        match &msg.sender {
            Some(s) => {
                if contains_name(&self.blocked_contacts, s.as_str()) {
                    return None;
                }
            },
            None => {},
        }
        let handle = match &msg.sender {
            Some(s) => s.as_str(),
            None => "Unknown",
        };
        let named_group = match chat_name {
            Some(n) => n.as_str().unicode_len() > 0,
            None => false,
        };
        let display = if named_group {
            match chat_name {
                Some(n) => n.as_str(),
                None => handle,
            }
        } else {
            handle
        };
        let sender = Sender::new(display, handle);
        let timestamp = match msg.created_at {
            Some(t) => t,
            None => now_secs,
        };
        let group_name: Option<String> = if named_group {
            match chat_name {
                Some(n) => Some(n.clone()),
                None => None,
            }
        } else {
            None
        };
        let metadata = ItemMetadata { attachments: Vec::new(), is_group: named_group, group_name };
        let chat_id_str = i64_to_string(msg.chat_id);
        let item = InboxItem::new(msg.guid.as_str(), "imessage", content, sender).with_timestamp(
            timestamp,
        ).with_metadata(metadata).with_context("chat_id", chat_id_str.as_str()).with_context(
            "handle",
            handle,
        );
        proof {
            assert(item.context@[0] == item.context@.subrange(0, 1)[0]);
        }
        Some(item)
    }
}

/// The decimal rendering of a signed number.
pub open spec fn spec_i64_dec(n: int) -> Seq<char> {
    if n < 0 {
        "-"@ + spec_dec((-n) as nat)
    } else {
        spec_dec(n as nat)
    }
}

/// Render a signed number in decimal.
pub fn i64_to_string(n: i64) -> (r: String)
    ensures
        r@ == spec_i64_dec(n as int),
{
    if n < 0 {
        let mag: u64 = if n == i64::MIN {
            9223372036854775808u64
        } else {
            (-n) as u64
        };
        let mut r = "-".to_owned();
        let num = u64_to_string(mag);
        r.append(num.as_str());
        proof {
            reveal_strlit("-");
        }
        r
    } else {
        u64_to_string(n as u64)
    }
}

/// The verbose relative-age label for a timestamp against the current
/// time, with singular and plural units.
pub open spec fn spec_time_ago_verbose(timestamp: i64, now: i64) -> Seq<char> {
    let secs = now - timestamp;
    if secs < 60 {
        "just now"@
    } else if secs < 3600 {
        let mins = secs / 60;
        spec_dec(mins as nat) + (if mins == 1 {
            " minute ago"@
        } else {
            " minutes ago"@
        })
    } else if secs < 86400 {
        let hours = secs / 3600;
        spec_dec(hours as nat) + (if hours == 1 {
            " hour ago"@
        } else {
            " hours ago"@
        })
    } else {
        let days = secs / 86400;
        spec_dec(days as nat) + (if days == 1 {
            " day ago"@
        } else {
            " days ago"@
        })
    }
}

/// Render a timestamp as a verbose relative age against a current time.
pub fn format_time_ago(timestamp: i64, now: i64) -> (r: String)
    ensures
        r@ == spec_time_ago_verbose(timestamp, now),
{
    let secs: i128 = now as i128 - timestamp as i128;
    if secs < 60 {
        "just now".to_owned()
    } else if secs < 3600 {
        let mins = (secs / 60) as u64;
        let mut r = u64_to_string(mins);
        if mins == 1 {
            r.append(" minute ago");
        } else {
            r.append(" minutes ago");
        }
        r
    } else if secs < 86400 {
        let hours = (secs / 3600) as u64;
        let mut r = u64_to_string(hours);
        if hours == 1 {
            r.append(" hour ago");
        } else {
            r.append(" hours ago");
        }
        r
    } else {
        let days = (secs / 86400) as u64;
        let mut r = u64_to_string(days);
        if days == 1 {
            r.append(" day ago");
        } else {
            r.append(" days ago");
        }
        r
    }
}

} // verus!
