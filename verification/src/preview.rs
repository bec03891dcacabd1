//! Preview shaping for the session list: prompt-line detection, separator
//! collapsing, the one-line log snippet, and human-readable ages.

use vstd::prelude::*;

use crate::model::AgentStatus;
use crate::strutil::{
    contains, spec_contains, spec_dec, spec_starts_with, spec_trim, starts_with, str_eq, trim,
    u64_to_string, views_of,
};

verus! {

/// Whether a line looks like a prompt asking for user input.
pub open spec fn spec_is_prompt_line(line: Seq<char>) -> bool {
    let t = spec_trim(line);
    t.len() > 0 && (spec_contains(t, "[Y/n]"@) || spec_contains(t, "[y/N]"@) || spec_contains(
        t,
        "[yes/no]"@,
    ) || (t.len() > 0 && t[t.len() - 1] == '?') || spec_starts_with(t, "> "@) || spec_starts_with(
        t,
        "? "@,
    ) || spec_contains(t, "Do you want"@) || spec_contains(t, "Should I"@) || spec_contains(
        t,
        "Press enter"@,
    ) || spec_contains(t, "waiting for"@))
}

/// Whether a line looks like a prompt asking for user input.
pub fn is_prompt_line(line: &str) -> (r: bool)
    ensures
        r == spec_is_prompt_line(line@),
{
    let t = trim(line);
    let n = t.unicode_len();
    if n == 0 {
        return false;
    }
    contains(t, "[Y/n]") || contains(t, "[y/N]") || contains(t, "[yes/no]") || t.get_char(n - 1)
        == '?' || starts_with(t, "> ") || starts_with(t, "? ") || contains(t, "Do you want")
        || contains(t, "Should I") || contains(t, "Press enter") || contains(t, "waiting for")
}

/// Whether a line is a horizontal separator: every trimmed character is a
/// rule character. A blank line counts too.
pub open spec fn spec_is_separator(line: Seq<char>) -> bool {
    forall|i: int|
        0 <= i < spec_trim(line).len() ==> (spec_trim(line)[i] == '─' || spec_trim(line)[i] == '-'
            || spec_trim(line)[i] == '━')
}

fn is_separator(line: &str) -> (r: bool)
    ensures
        r == spec_is_separator(line@),
{
    let t = trim(line);
    let n = t.unicode_len();
    let mut i: usize = 0;
    while i < n
        invariant
            n == spec_trim(line@).len(),
            t@ == spec_trim(line@),
            0 <= i <= n,
            forall|j: int|
                0 <= j < i ==> (spec_trim(line@)[j] == '─' || spec_trim(line@)[j] == '-'
                    || spec_trim(line@)[j] == '━'),
        decreases n - i,
    {
        let c = t.get_char(i);
        if !(c == '─' || c == '-' || c == '━') {
            return false;
        }
        i = i + 1;
    }
    true
}

/// The preview with runs of identical separator lines collapsed, scanning
/// from line `i` with the last kept line in hand.
pub open spec fn spec_clean_from(lines: Seq<Seq<char>>, i: int, prev: Option<Seq<char>>) -> Seq<
    Seq<char>,
>
    decreases lines.len() - i,
{
    if i < 0 || i >= lines.len() {
        Seq::empty()
    } else {
        let l = lines[i];
        if spec_is_separator(l) && (prev is Some && spec_trim(prev->0) == spec_trim(l)) {
            spec_clean_from(lines, i + 1, prev)
        } else {
            seq![l] + spec_clean_from(lines, i + 1, Some(l))
        }
    }
}

/// What a cleaned preview shows: the lines with repeated separators
/// collapsed, or a hint when nothing is left.
pub open spec fn spec_clean_preview(lines: Seq<Seq<char>>) -> Seq<Seq<char>> {
    let cleaned = spec_clean_from(lines, 0, None);
    if cleaned.len() == 0 {
        seq!["(no recent output; select and attach to see more)"@]
    } else {
        cleaned
    }
}

/// Collapse repeated separator lines in a preview window; an empty result
/// becomes a hint line.
pub fn clean_preview(lines: &Vec<String>) -> (r: Vec<String>)
    ensures
        views_of(r@) == spec_clean_preview(views_of(lines@)),
{
    let n = lines.len();
    let mut out: Vec<String> = Vec::new();
    let mut i: usize = 0;
    proof {
        assert(views_of(out@) =~= Seq::<Seq<char>>::empty());
    }
    while i < n
        invariant
            n == lines@.len(),
            0 <= i <= n,
            spec_clean_from(views_of(lines@), 0, None) =~= views_of(out@) + spec_clean_from(
                views_of(lines@),
                i as int,
                (if out@.len() > 0 {
                    Some(out@.last()@)
                } else {
                    None
                }),
            ),
        decreases n - i,
    {
        let sep = is_separator(lines[i].as_str());
        let mut skip = false;
        if sep && out.len() > 0 {
            let prev_t = trim(out[out.len() - 1].as_str());
            let cur_t = trim(lines[i].as_str());
            if crate::strutil::str_eq(prev_t, cur_t) {
                skip = true;
            }
        }
        if !skip {
            let ghost out0 = out@;
            out.push(lines[i].clone());
            proof {
                assert(views_of(out@) =~= views_of(out0).push(lines@[i as int]@));
                assert(out@.last()@ == lines@[i as int]@);
            }
        }
        i = i + 1;
    }
    if out.len() == 0 {
        out.push("(no recent output; select and attach to see more)".to_owned());
        proof {
            assert(views_of(out@) =~= seq![
                "(no recent output; select and attach to see more)"@,
            ]);
        }
    }
    out
}

/// The last line of a cleaned preview with visible content, if any.
pub open spec fn spec_last_nonblank(lines: Seq<Seq<char>>) -> Option<Seq<char>>
    decreases lines.len(),
{
    if lines.len() == 0 {
        None
    } else if spec_trim(lines.last()).len() > 0 {
        Some(lines.last())
    } else {
        spec_last_nonblank(lines.drop_last())
    }
}

/// The one-line snippet shown beside a session: the last line of the
/// cleaned preview with visible content, cut to eighty characters with an
/// ellipsis.
pub fn mini_log_preview(lines: &Vec<String>) -> (r: Option<String>)
    ensures
        match spec_last_nonblank(spec_clean_preview(views_of(lines@))) {
            Some(snippet) => r is Some && r->0@ == (if snippet.len() > 80 {
                snippet.take(80) + "\u{2026}"@
            } else {
                snippet
            }),
            None => r is None,
        },
{
    let cleaned = clean_preview(lines);
    let n = cleaned.len();
    let mut i: usize = n;
    proof {
        assert(views_of(cleaned@).take(n as int) =~= views_of(cleaned@));
    }
    while i > 0
        invariant
            n == cleaned@.len(),
            0 <= i <= n,
            views_of(cleaned@) == spec_clean_preview(views_of(lines@)),
            spec_last_nonblank(views_of(cleaned@)) == spec_last_nonblank(
                views_of(cleaned@).take(i as int),
            ),
        decreases i,
    {
        proof {
            let pfx = views_of(cleaned@).take(i as int);
            assert(pfx.drop_last() =~= views_of(cleaned@).take(i - 1));
            assert(pfx.last() == cleaned@[i - 1]@);
        }
        let t = trim(cleaned[i - 1].as_str());
        if t.unicode_len() > 0 {
            proof {
                let pfx = views_of(cleaned@).take(i as int);
                assert(spec_last_nonblank(pfx) == Some(cleaned@[i - 1]@));
            }
            let snippet = cleaned[i - 1].as_str();
            let count = snippet.unicode_len();
            if count > 80 {
                let cut = snippet.substring_char(0, 80);
                let mut s = cut.to_owned();
                s.append("\u{2026}");
                proof {
                    assert(snippet@.take(80) =~= snippet@.subrange(0, 80));
                }
                return Some(s);
            } else {
                return Some(snippet.to_owned());
            }
        }
        i = i - 1;
    }
    proof {
        assert(views_of(cleaned@).take(0) =~= Seq::<Seq<char>>::empty());
    }
    None
}

/// The list-view indicator text for a status under a given style. The
/// emoji and unicode styles use symbols, the text style bracketed words;
/// an unknown style falls back to the unicode symbols.
pub open spec fn spec_status_indicator(status: AgentStatus, style: Seq<char>) -> Seq<char> {
    if style == "emoji"@ {
        match status {
            AgentStatus::NeedsInput => "\u{1f534}"@,
            AgentStatus::Running => "\u{1f7e2}"@,
            AgentStatus::Idle => "\u{1f7e1}"@,
            AgentStatus::Done => "\u{2713} "@,
            AgentStatus::Unknown => "\u{26aa}"@,
        }
    } else if style == "text"@ {
        match status {
            AgentStatus::NeedsInput => "[WAIT]"@,
            AgentStatus::Running => "[RUN] "@,
            AgentStatus::Idle => "[idle]"@,
            AgentStatus::Done => "[done]"@,
            AgentStatus::Unknown => "[ ? ] "@,
        }
    } else {
        match status {
            AgentStatus::NeedsInput => "\u{25cf}"@,
            AgentStatus::Running => "\u{25b6}"@,
            AgentStatus::Idle => "\u{25cb}"@,
            AgentStatus::Done => "\u{2713}"@,
            AgentStatus::Unknown => "\u{b7}"@,
        }
    }
}

/// The list-view indicator text for a status under a style.
pub fn status_indicator(status: AgentStatus, style: &str) -> (r: &'static str)
    ensures
        r@ == spec_status_indicator(status, style@),
{
    if str_eq(style, "emoji") {
        match status {
            AgentStatus::NeedsInput => "\u{1f534}",
            AgentStatus::Running => "\u{1f7e2}",
            AgentStatus::Idle => "\u{1f7e1}",
            AgentStatus::Done => "\u{2713} ",
            AgentStatus::Unknown => "\u{26aa}",
        }
    } else if str_eq(style, "text") {
        match status {
            AgentStatus::NeedsInput => "[WAIT]",
            AgentStatus::Running => "[RUN] ",
            AgentStatus::Idle => "[idle]",
            AgentStatus::Done => "[done]",
            AgentStatus::Unknown => "[ ? ] ",
        }
    } else {
        match status {
            AgentStatus::NeedsInput => "\u{25cf}",
            AgentStatus::Running => "\u{25b6}",
            AgentStatus::Idle => "\u{25cb}",
            AgentStatus::Done => "\u{2713}",
            AgentStatus::Unknown => "\u{b7}",
        }
    }
}

/// A duration as a coarse human age.
pub open spec fn spec_human_duration(secs: u64) -> Seq<char> {
    if secs < 60 {
        spec_dec(secs as nat) + "s ago"@
    } else if secs < 3600 {
        spec_dec((secs / 60) as nat) + "m ago"@
    } else if secs < 86400 {
        spec_dec((secs / 3600) as nat) + "h ago"@
    } else {
        spec_dec((secs / 86400) as nat) + "d ago"@
    }
}

/// Render a duration as a coarse human age.
pub fn format_human_duration(secs: u64) -> (r: String)
    ensures
        r@ == spec_human_duration(secs),
{
    if secs < 60 {
        let mut r = u64_to_string(secs);
        r.append("s ago");
        r
    } else if secs < 3600 {
        let mut r = u64_to_string(secs / 60);
        r.append("m ago");
        r
    } else if secs < 86400 {
        let mut r = u64_to_string(secs / 3600);
        r.append("h ago");
        r
    } else {
        let mut r = u64_to_string(secs / 86400);
        r.append("d ago");
        r
    }
}

} // verus!
