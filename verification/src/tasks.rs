//! Task files: the optional leading key-value block exposing `status`,
//! `due` and `summary`, title extraction, the task list with its ordering,
//! and new-task creation.

use vstd::prelude::*;

use crate::dates::{
    date_lt, day_number, days_in_month, format_date, next_day, parse_date, spec_date_lt,
    spec_day_number, spec_days_in_month, spec_format_date, spec_next_day, spec_parse_date,
};
use crate::model::{AgentSession, Date, TaskEntry, TaskInfo};
use crate::strutil::{
    contains, ends_with, find_char, parse_u64_digits, spec_contains, spec_dec, spec_ends_with,
    spec_find_char, spec_lines, spec_parse_u64_digits, spec_starts_with, spec_strip_prefix_all,
    spec_trim, spec_trim_char, split_lines, starts_with, str_eq, strip_prefix_all, trim,
    trim_char, u64_to_string, views_of,
};

verus! {

/// What `str::to_lowercase` returns for a string: a function of its
/// characters alone.
pub uninterp spec fn lower_of(s: Seq<char>) -> Seq<char>;

/// Relies on `str::to_lowercase`: the lowercase mapping of the string,
/// a function of its characters alone; an empty string stays empty.
#[verifier::external_body]
pub fn to_lowercase(s: &str) -> (r: String)
    ensures
        r@ == lower_of(s@),
        s@.len() == 0 ==> r@.len() == 0,
{
    s.to_lowercase()
}

/// Scan a key-value block for a key from line `i` on: the first line
/// whose trimmed form starts with the key yields the rest of that line;
/// the closing delimiter ends the block.
pub open spec fn spec_fm_scan(lines: Seq<Seq<char>>, i: int, key: Seq<char>) -> Option<Seq<char>>
    decreases lines.len() - i,
{
    if i < 0 || i >= lines.len() {
        None
    } else {
        let t = spec_trim(lines[i]);
        if t == "---"@ {
            None
        } else if spec_starts_with(t, key) {
            Some(t.skip(key.len() as int))
        } else {
            spec_fm_scan(lines, i + 1, key)
        }
    }
}

/// The raw value of a key in a document's leading key-value block, if the
/// document opens with one and the key appears before it closes.
pub open spec fn spec_frontmatter_value(lines: Seq<Seq<char>>, key: Seq<char>) -> Option<Seq<char>> {
    if lines.len() == 0 || lines[0] != "---"@ {
        None
    } else {
        spec_fm_scan(lines, 1, key)
    }
}

/// Find a key's raw value in a document's leading key-value block.
pub fn frontmatter_value(content: &str, key: &str) -> (r: Option<String>)
    ensures
        match spec_frontmatter_value(spec_lines(content@), key@) {
            Some(v) => r is Some && r->0@ == v,
            None => r is None,
        },
{
    let lines = split_lines(content);
    let n = lines.len();
    if n == 0 {
        return None;
    }
    if !str_eq(lines[0].as_str(), "---") {
        return None;
    }
    let mut i: usize = 1;
    while i < n
        invariant
            n == lines@.len(),
            1 <= i <= n,
            views_of(lines@) == spec_lines(content@),
            views_of(lines@)[0] == "---"@,
            spec_fm_scan(views_of(lines@), 1, key@) == spec_fm_scan(views_of(lines@), i as int, key@),
        decreases n - i,
    {
        let t = trim(lines[i].as_str());
        if str_eq(t, "---") {
            return None;
        }
        if starts_with(t, key) {
            let tn = t.unicode_len();
            let kn = key.unicode_len();
            let rest = t.substring_char(kn, tn);
            proof {
                assert(t@.skip(kn as int) =~= t@.subrange(kn as int, tn as int));
            }
            return Some(rest.to_owned());
        }
        i = i + 1;
    }
    None
}

/// The status a task document declares: the value of its status key,
/// unquoted and lowercased.
pub fn parse_status(content: &str) -> (r: Option<String>)
    ensures
        match spec_frontmatter_value(spec_lines(content@), "status:"@) {
            Some(raw) => r is Some && r->0@ == lower_of(spec_trim_char(spec_trim(raw), '"')),
            None => r is None,
        },
{
    match frontmatter_value(content, "status:") {
        Some(raw) => {
            let t = trim(raw.as_str());
            let unq = trim_char(t, '"');
            Some(to_lowercase(unq))
        },
        None => None,
    }
}

/// The summary a task document declares: the value of its summary key,
/// trimmed and unquoted.
pub fn parse_summary(content: &str) -> (r: Option<String>)
    ensures
        match spec_frontmatter_value(spec_lines(content@), "summary:"@) {
            Some(raw) => r is Some && r->0@ == spec_trim_char(spec_trim(raw), '"'),
            None => r is None,
        },
{
    match frontmatter_value(content, "summary:") {
        Some(raw) => {
            let t = trim(raw.as_str());
            let unq = trim_char(t, '"');
            Some(unq.to_owned())
        },
        None => None,
    }
}

/// The due date a task document declares, when its value is a
/// well-formed year-month-day date.
pub fn parse_due(content: &str) -> (r: Option<Date>)
    ensures
        match spec_frontmatter_value(spec_lines(content@), "due:"@) {
            Some(raw) => r == spec_parse_date(spec_trim(spec_trim_char(spec_trim(raw), '"'))),
            None => r is None,
        },
        r is Some ==> r->0.wf(),
{
    match frontmatter_value(content, "due:") {
        Some(raw) => {
            let t = trim(raw.as_str());
            let unq = trim_char(t, '"');
            let val = trim(unq);
            parse_date(val)
        },
        None => None,
    }
}

/// The first heading line's text, scanning from line `i`.
pub open spec fn spec_title_scan(lines: Seq<Seq<char>>, i: int) -> Option<Seq<char>>
    decreases lines.len() - i,
{
    if i < 0 || i >= lines.len() {
        None
    } else if spec_starts_with(lines[i], "# "@) {
        Some(spec_strip_prefix_all(lines[i], "# "@))
    } else {
        spec_title_scan(lines, i + 1)
    }
}

/// The document's title: the text of its first heading line.
pub fn extract_title(content: &str) -> (r: Option<String>)
    ensures
        match spec_title_scan(spec_lines(content@), 0) {
            Some(v) => r is Some && r->0@ == v,
            None => r is None,
        },
{
    let lines = split_lines(content);
    let n = lines.len();
    let mut i: usize = 0;
    proof {
        reveal_strlit("# ");
    }
    while i < n
        invariant
            n == lines@.len(),
            0 <= i <= n,
            "# "@.len() > 0,
            views_of(lines@) == spec_lines(content@),
            spec_title_scan(views_of(lines@), 0) == spec_title_scan(views_of(lines@), i as int),
        decreases n - i,
    {
        if starts_with(lines[i].as_str(), "# ") {
            let t = strip_prefix_all(lines[i].as_str(), "# ");
            return Some(t.to_owned());
        }
        i = i + 1;
    }
    None
}

/// The order tasks are listed in: by due date, dated before undated, then
/// by lowercased title.
pub open spec fn spec_task_le(a: TaskEntry, b: TaskEntry) -> bool {
    match (a.due, b.due) {
        (Option::Some(da), Option::Some(db)) => spec_date_lt(da, db) || da == db,
        (Option::Some(_), Option::None) => true,
        (Option::None, Option::Some(_)) => false,
        (Option::None, Option::None) => spec_lex_le(lower_of(a.title@), lower_of(b.title@)),
    }
}

/// Lexicographic order on character sequences.
pub open spec fn spec_lex_le(a: Seq<char>, b: Seq<char>) -> bool
    decreases a.len(),
{
    if a.len() == 0 {
        true
    } else if b.len() == 0 {
        false
    } else if (a[0] as u32) != (b[0] as u32) {
        (a[0] as u32) < (b[0] as u32)
    } else {
        spec_lex_le(a.drop_first(), b.drop_first())
    }
}

proof fn lemma_lex_total(a: Seq<char>, b: Seq<char>)
    ensures
        spec_lex_le(a, b) || spec_lex_le(b, a),
    decreases a.len(),
{
    if a.len() > 0 && b.len() > 0 && (a[0] as u32) == (b[0] as u32) {
        lemma_lex_total(a.drop_first(), b.drop_first());
    }
}

/// The task order is total.
proof fn lemma_task_le_total(a: TaskEntry, b: TaskEntry)
    ensures
        spec_task_le(a, b) || spec_task_le(b, a),
{
    match (a.due, b.due) {
        (Option::Some(_), Option::Some(_)) => {},
        (Option::None, Option::None) => {
            lemma_lex_total(lower_of(a.title@), lower_of(b.title@));
        },
        _ => {},
    }
}

proof fn lemma_lex_trans(a: Seq<char>, b: Seq<char>, c: Seq<char>)
    requires
        spec_lex_le(a, b),
        spec_lex_le(b, c),
    ensures
        spec_lex_le(a, c),
    decreases a.len(),
{
    if a.len() == 0 {
    } else {
        assert(b.len() > 0);
        assert(c.len() > 0);
        if (a[0] as u32) == (b[0] as u32) && (b[0] as u32) == (c[0] as u32) {
            lemma_lex_trans(a.drop_first(), b.drop_first(), c.drop_first());
        }
    }
}

/// The task order is transitive.
proof fn lemma_task_le_trans(a: TaskEntry, b: TaskEntry, c: TaskEntry)
    requires
        spec_task_le(a, b),
        spec_task_le(b, c),
    ensures
        spec_task_le(a, c),
{
    match (a.due, b.due, c.due) {
        (Option::None, Option::None, Option::None) => {
            lemma_lex_trans(lower_of(a.title@), lower_of(b.title@), lower_of(c.title@));
        },
        _ => {},
    }
}

/// Law: a task list ordered pair by adjacent pair is ordered throughout —
/// any earlier entry sorts at or before any later one.
pub proof fn lemma_tasks_sorted_pairwise(s: Seq<TaskEntry>)
    requires
        spec_tasks_sorted(s),
    ensures
        forall|i: int, j: int| 0 <= i <= j < s.len() ==> spec_task_le(#[trigger] s[i], #[trigger] s[j]),
{
    assert forall|i: int, j: int|
        0 <= i <= j < s.len() implies spec_task_le(#[trigger] s[i], #[trigger] s[j]) by {
        lemma_tasks_sorted_span(s, i, j);
    }
}

proof fn lemma_tasks_sorted_span(s: Seq<TaskEntry>, i: int, j: int)
    requires
        spec_tasks_sorted(s),
        0 <= i <= j < s.len(),
    ensures
        spec_task_le(s[i], s[j]),
    decreases j - i,
{
    if i == j {
        lemma_task_le_total(s[i], s[i]);
    } else {
        lemma_tasks_sorted_span(s, i, j - 1);
        assert(spec_task_le(s[j - 1], s[j]));
        lemma_task_le_trans(s[i], s[j - 1], s[j]);
    }
}

/// Whether `a@` is lexicographically at most `b@`.
pub fn lex_le(a: &str, b: &str) -> (r: bool)
    ensures
        r == spec_lex_le(a@, b@),
{
    let an = a.unicode_len();
    let bn = b.unicode_len();
    let mut i: usize = 0;
    proof {
        assert(a@.subrange(0, an as int) =~= a@);
        assert(b@.subrange(0, bn as int) =~= b@);
    }
    while i < an && i < bn
        invariant
            an == a@.len(),
            bn == b@.len(),
            0 <= i <= an,
            i <= bn,
            spec_lex_le(a@, b@) == spec_lex_le(
                a@.subrange(i as int, an as int),
                b@.subrange(i as int, bn as int),
            ),
        decreases an - i,
    {
        let ca = a.get_char(i);
        let cb = b.get_char(i);
        proof {
            let ar = a@.subrange(i as int, an as int);
            let br = b@.subrange(i as int, bn as int);
            assert(ar[0] == a@[i as int]);
            assert(br[0] == b@[i as int]);
            assert(ar.drop_first() =~= a@.subrange(i + 1, an as int));
            assert(br.drop_first() =~= b@.subrange(i + 1, bn as int));
        }
        if (ca as u32) != (cb as u32) {
            return (ca as u32) < (cb as u32);
        }
        i = i + 1;
    }
    proof {
        let ar = a@.subrange(i as int, an as int);
        let br = b@.subrange(i as int, bn as int);
        if i == an {
            assert(ar =~= Seq::<char>::empty());
        } else {
            assert(br =~= Seq::<char>::empty());
            assert(ar.len() > 0);
        }
    }
    i == an
}

/// Whether `a` sorts at or before `b` in the task list.
pub fn task_le(a: &TaskEntry, b: &TaskEntry) -> (r: bool)
    ensures
        r == spec_task_le(*a, *b),
{
    match (&a.due, &b.due) {
        (Some(da), Some(db)) => {
            let lt = date_lt(da, db);
            lt || (da.year == db.year && da.month == db.month && da.day == db.day)
        },
        (Some(_), None) => true,
        (None, Some(_)) => false,
        (None, None) => {
            let la = to_lowercase(a.title.as_str());
            let lb = to_lowercase(b.title.as_str());
            lex_le(la.as_str(), lb.as_str())
        },
    }
}

/// Adjacent-pairs sortedness under the task order.
pub open spec fn spec_tasks_sorted(s: Seq<TaskEntry>) -> bool {
    forall|i: int| 0 <= i < s.len() - 1 ==> spec_task_le(#[trigger] s[i], s[i + 1])
}

/// Sort task entries by due date, dated first, then by lowercased title:
/// the result is ordered and holds exactly the given entries.
#[verifier::rlimit(60)]
pub fn sort_tasks(tasks: Vec<TaskEntry>) -> (r: Vec<TaskEntry>)
    ensures
        spec_tasks_sorted(r@),
        r@.to_multiset() == tasks@.to_multiset(),
        r@.len() == tasks@.len(),
{
    broadcast use vstd::seq_lib::group_to_multiset_ensures;

    let ghost all = tasks@;
    let total = tasks.len();
    let mut out: Vec<TaskEntry> = Vec::new();
    let mut rest = tasks;
    let mut taken: usize = 0;
    proof {
        assert(out@.to_multiset() =~= Seq::<TaskEntry>::empty().to_multiset());
        assert(all.subrange(0, 0) =~= Seq::<TaskEntry>::empty());
        assert(out@.to_multiset() =~= all.subrange(0, 0).to_multiset());
    }
    while rest.len() > 0
        invariant
            total == all.len(),
            taken + rest@.len() == all.len(),
            out@.len() == taken,
            all.subrange(taken as int, all.len() as int) == rest@,
            out@.to_multiset() == all.subrange(0, taken as int).to_multiset(),
            spec_tasks_sorted(out@),
        decreases rest@.len(),
    {
        let x = rest.remove(0);
        proof {
            assert(x == all[taken as int]);
            assert(all.subrange(taken + 1, all.len() as int) =~= rest@);
        }
        let mut j: usize = out.len();
        while j > 0 && !task_le(&out[j - 1], &x)
            invariant
                0 <= j <= out@.len(),
                forall|l: int| j <= l < out@.len() ==> !spec_task_le(#[trigger] out@[l], x),
            decreases j,
        {
            j = j - 1;
        }
        let ghost out0 = out@;
        out.insert(j, x);
        proof {
            assert(out@ =~= out0.insert(j as int, x));
            vstd::seq_lib::to_multiset_insert(out0, j as int, x);
            assert(all.subrange(0, taken + 1).drop_last() =~= all.subrange(0, taken as int));
            assert(all.subrange(0, taken + 1) =~= all.subrange(0, taken as int).push(x));
            vstd::seq_lib::to_multiset_build(all.subrange(0, taken as int), x);
            assert forall|i: int| 0 <= i < out@.len() - 1 implies spec_task_le(
                #[trigger] out@[i],
                out@[i + 1],
            ) by {
                if i + 1 < j {
                    assert(out@[i] == out0[i] && out@[i + 1] == out0[i + 1]);
                    assert(spec_task_le(out0[i], out0[i + 1]));
                } else if i + 1 == j {
                    assert(out@[i] == out0[i] && out@[i + 1] == x);
                } else if i == j {
                    assert(out@[i] == x && out@[i + 1] == out0[i]);
                    assert(!spec_task_le(out0[i as int], x));
                    lemma_task_le_total(out0[i as int], x);
                } else {
                    assert(out@[i] == out0[i - 1] && out@[i + 1] == out0[i]);
                    assert(spec_task_le(out0[i - 1], out0[i]));
                }
            }
        }
        taken = taken + 1;
    }
    proof {
        assert(all.subrange(0, total as int) =~= all);
    }
    out
}

/// One task file as read from the tasks directory: its file name, its
/// full path, and its content.
pub struct TaskFile {
    pub name: String,
    pub path: String,
    pub content: String,
}

/// The file name without its task extension.
pub open spec fn spec_md_stem(name: Seq<char>) -> Seq<char> {
    name.take(name.len() - 3)
}

/// Whether a directory entry appears in the task list: a task file that
/// is not the index document and is not marked finished.
pub open spec fn spec_is_listed(f: TaskFile) -> bool {
    &&& spec_ends_with(f.name@, ".md"@)
    &&& spec_md_stem(f.name@) != "README"@
    &&& match spec_frontmatter_value(spec_lines(f.content@), "status:"@) {
        Some(raw) => {
            let st = lower_of(spec_trim_char(spec_trim(raw), '"'));
            st != "done"@ && st != "completed"@
        },
        None => true,
    }
}

/// The files the task list shows, in directory order.
pub open spec fn spec_listed(files: Seq<TaskFile>) -> Seq<TaskFile> {
    files.filter(|f: TaskFile| spec_is_listed(f))
}

/// The title a listed file shows: its summary, else its heading, else its
/// stem.
pub open spec fn spec_entry_title(f: TaskFile) -> Seq<char> {
    match spec_frontmatter_value(spec_lines(f.content@), "summary:"@) {
        Some(raw) => spec_trim_char(spec_trim(raw), '"'),
        None => match spec_title_scan(spec_lines(f.content@), 0) {
            Some(t) => t,
            None => spec_md_stem(f.name@),
        },
    }
}

/// The due date a listed file shows.
pub open spec fn spec_entry_due(f: TaskFile) -> Option<Date> {
    match spec_frontmatter_value(spec_lines(f.content@), "due:"@) {
        Some(raw) => spec_parse_date(spec_trim(spec_trim_char(spec_trim(raw), '"'))),
        None => None,
    }
}

/// What one entry must say about the file it lists.
pub open spec fn spec_entry_matches(e: TaskEntry, f: TaskFile) -> bool {
    &&& e.path@ == f.path@
    &&& e.title@ == spec_entry_title(f)
    &&& e.due == spec_entry_due(f)
    &&& match (e.status, spec_frontmatter_value(spec_lines(f.content@), "status:"@)) {
        (Option::Some(st), Option::Some(raw)) => st@ == lower_of(
            spec_trim_char(spec_trim(raw), '"'),
        ),
        (Option::None, Option::None) => true,
        _ => false,
    }
}

proof fn lemma_listed_push(s: Seq<TaskFile>, x: TaskFile)
    ensures
        spec_listed(s.push(x)) == (if spec_is_listed(x) {
            spec_listed(s).push(x)
        } else {
            spec_listed(s)
        }),
{
    reveal(Seq::filter);
    assert(s.push(x).drop_last() =~= s);
    assert(s.push(x).last() == x);
}

fn is_listed(f: &TaskFile) -> (r: bool)
    ensures
        r == spec_is_listed(*f),
{
    if !ends_with(f.name.as_str(), ".md") {
        return false;
    }
    proof {
        reveal_strlit(".md");
    }
    let n = f.name.unicode_len();
    let stem = f.name.as_str().substring_char(0, n - 3);
    proof {
        assert(f.name@.take(f.name@.len() - 3) =~= f.name@.subrange(0, n - 3));
    }
    if str_eq(stem, "README") {
        return false;
    }
    match parse_status(f.content.as_str()) {
        Some(st) => !(str_eq(st.as_str(), "done") || str_eq(st.as_str(), "completed")),
        None => true,
    }
}

fn entry_for(f: &TaskFile) -> (e: TaskEntry)
    requires
        spec_is_listed(*f),
    ensures
        spec_entry_matches(e, *f),
{
    proof {
        reveal_strlit(".md");
    }
    let n = f.name.unicode_len();
    let title = match parse_summary(f.content.as_str()) {
        Some(t) => t,
        None => match extract_title(f.content.as_str()) {
            Some(t) => t,
            None => {
                let stem = f.name.as_str().substring_char(0, n - 3);
                proof {
                    assert(f.name@.take(f.name@.len() - 3) =~= f.name@.subrange(0, n - 3));
                }
                stem.to_owned()
            },
        },
    };
    let due = parse_due(f.content.as_str());
    let status = parse_status(f.content.as_str());
    TaskEntry { title, path: f.path.clone(), due, status }
}

/// Build the task list entries from the directory's files: one entry per
/// listed file, in directory order, each carrying the file's title, due
/// date and status.
#[verifier::rlimit(60)]
pub fn build_task_entries(files: Vec<TaskFile>) -> (r: Vec<TaskEntry>)
    ensures
        r@.len() == spec_listed(files@).len(),
        forall|k: int| 0 <= k < r@.len() ==> spec_entry_matches(#[trigger] r@[k], spec_listed(files@)[k]),
{
    let ghost all = files@;
    let total = files.len();
    let mut out: Vec<TaskEntry> = Vec::new();
    let mut rest = files;
    let mut taken: usize = 0;
    proof {
        reveal(Seq::filter);
        assert(all.subrange(0, 0) =~= Seq::<TaskFile>::empty());
        assert(spec_listed(all.subrange(0, 0)) =~= Seq::<TaskFile>::empty());
    }
    while rest.len() > 0
        invariant
            total == all.len(),
            taken + rest@.len() == all.len(),
            all.subrange(taken as int, all.len() as int) == rest@,
            out@.len() == spec_listed(all.subrange(0, taken as int)).len(),
            forall|k: int|
                0 <= k < out@.len() ==> spec_entry_matches(
                    #[trigger] out@[k],
                    spec_listed(all.subrange(0, taken as int))[k],
                ),
        decreases rest@.len(),
    {
        let f = rest.remove(0);
        proof {
            assert(f == all[taken as int]);
            assert(all.subrange(taken + 1, all.len() as int) =~= rest@);
            lemma_listed_push(all.subrange(0, taken as int), f);
            assert(all.subrange(0, taken + 1) =~= all.subrange(0, taken as int).push(f));
        }
        if is_listed(&f) {
            let e = entry_for(&f);
            out.push(e);
        }
        taken = taken + 1;
    }
    proof {
        assert(all.subrange(0, total as int) =~= all);
    }
    out
}

/// Load the task list: the listed files' entries, ordered by due date,
/// dated before undated, then by lowercased title.
pub fn load_tasks(files: Vec<TaskFile>) -> (r: Vec<TaskEntry>)
    ensures
        spec_tasks_sorted(r@),
        r@.len() == spec_listed(files@).len(),
        exists|mid: Seq<TaskEntry>|
            #![trigger mid.to_multiset()]
            mid.len() == spec_listed(files@).len() && (forall|k: int|
                0 <= k < mid.len() ==> spec_entry_matches(
                    #[trigger] mid[k],
                    spec_listed(files@)[k],
                )) && r@.to_multiset() == mid.to_multiset(),
{
    let entries = build_task_entries(files);
    let ghost mid = entries@;
    let r = sort_tasks(entries);
    proof {
        broadcast use vstd::seq_lib::group_to_multiset_ensures;

        assert(r@.to_multiset().len() == r@.len());
        assert(mid.to_multiset().len() == mid.len());
    }
    r
}

/// The first `max_lines` lines of a document, joined with newlines.
pub open spec fn spec_join_nl(lines: Seq<Seq<char>>) -> Seq<char>
    decreases lines.len(),
{
    if lines.len() == 0 {
        Seq::empty()
    } else if lines.len() == 1 {
        lines[0]
    } else {
        spec_join_nl(lines.drop_last()) + "\n"@ + lines.last()
    }
}

/// A preview of a task document: its first `max_lines` lines, joined.
pub fn task_preview(content: &str, max_lines: usize) -> (r: String)
    ensures
        r@ == spec_join_nl(
            (if spec_lines(content@).len() <= max_lines {
                spec_lines(content@)
            } else {
                spec_lines(content@).take(max_lines as int)
            }),
        ),
{
    let lines = split_lines(content);
    let n = lines.len();
    let m = if n <= max_lines {
        n
    } else {
        max_lines
    };
    let ghost shown = if views_of(lines@).len() <= max_lines {
        views_of(lines@)
    } else {
        views_of(lines@).take(max_lines as int)
    };
    proof {
        assert(shown =~= views_of(lines@).take(m as int));
    }
    let mut out = String::new();
    let mut i: usize = 0;
    proof {
        assert(shown.take(0) =~= Seq::<Seq<char>>::empty());
        assert(out@ =~= spec_join_nl(shown.take(0)));
    }
    while i < m
        invariant
            m <= n == lines@.len(),
            0 <= i <= m,
            shown == views_of(lines@).take(m as int),
            out@ == spec_join_nl(shown.take(i as int)),
        decreases m - i,
    {
        if i > 0 {
            out.append("\n");
        }
        out.append(lines[i].as_str());
        proof {
            let pfx2 = shown.take(i + 1);
            assert(pfx2.drop_last() =~= shown.take(i as int));
            assert(pfx2.last() == lines@[i as int]@);
            assert(out@ =~= spec_join_nl(pfx2));
        }
        i = i + 1;
    }
    proof {
        assert(shown.take(m as int) =~= shown);
    }
    out
}

/// The due date a new task gets from the quick-entry field: a
/// month-and-day taken into the current year, pushed to next year when it
/// has already passed; anything unusable falls back to tomorrow.
pub open spec fn spec_due_input(input: Option<Seq<char>>, today: Date) -> Date {
    let tomorrow = spec_next_day(today);
    match input {
        None => tomorrow,
        Some(s) => {
            let i = spec_find_char(s, '-');
            if i < 0 {
                tomorrow
            } else {
                let ms = s.subrange(0, i);
                let ds = s.subrange(i + 1, s.len() as int);
                if spec_find_char(ds, '-') >= 0 {
                    tomorrow
                } else {
                    match (spec_parse_u64_digits(ms), spec_parse_u64_digits(ds)) {
                        (Some(m), Some(d)) => {
                            if 1 <= m <= 12 && 1 <= d && d <= spec_days_in_month(
                                today.year as int,
                                m as int,
                            ) {
                                let cand = Date { year: today.year, month: m as u8, day: d as u8 };
                                if spec_date_lt(cand, today) {
                                    let bumped = Date {
                                        year: (today.year + 1) as i32,
                                        month: m as u8,
                                        day: d as u8,
                                    };
                                    if d <= spec_days_in_month(bumped.year as int, m as int) {
                                        bumped
                                    } else {
                                        tomorrow
                                    }
                                } else {
                                    cand
                                }
                            } else {
                                tomorrow
                            }
                        },
                        _ => tomorrow,
                    }
                }
            }
        },
    }
}

/// Resolve the quick-entry due field against today's date.
pub fn parse_due_input(input: Option<&String>, today: &Date) -> (r: Date)
    requires
        today.wf(),
        today.year < 9999,
    ensures
        r == spec_due_input(
            match input {
                Some(s) => Some(s@),
                None => None,
            },
            *today,
        ),
        r.wf(),
{
    let tomorrow = next_day(today);
    let s = match input {
        Some(s) => s,
        None => {
            return tomorrow;
        },
    };
    let n = s.as_str().unicode_len();
    let i = match find_char(s.as_str(), '-') {
        Some(i) => i,
        None => {
            return tomorrow;
        },
    };
    let ms = s.as_str().substring_char(0, i);
    let ds = s.as_str().substring_char(i + 1, n);
    match find_char(ds, '-') {
        Some(_) => {
            return tomorrow;
        },
        None => {},
    }
    let m = match parse_u64_digits(ms) {
        Some(m) => m,
        None => {
            return tomorrow;
        },
    };
    let d = match parse_u64_digits(ds) {
        Some(d) => d,
        None => {
            return tomorrow;
        },
    };
    if !(1 <= m && m <= 12) {
        return tomorrow;
    }
    let dim = days_in_month(today.year, m as u8);
    if !(1 <= d && d <= dim as u64) {
        return tomorrow;
    }
    let cand = Date { year: today.year, month: m as u8, day: d as u8 };
    if date_lt(&cand, today) {
        let by = today.year + 1;
        let bdim = days_in_month(by, m as u8);
        if d <= bdim as u64 {
            Date { year: by, month: m as u8, day: d as u8 }
        } else {
            tomorrow
        }
    } else {
        cand
    }
}

/// The notify section of a new task file.
pub open spec fn spec_notify_section(notify: Option<Seq<char>>) -> Seq<char> {
    match notify {
        Some(who) => "- "@ + who,
        None => "- (fill in who to notify)"@,
    }
}

/// The content of a freshly created task file: the key-value block with
/// status, due date, tags and summary, then the heading, the description,
/// the notify section, and an empty process log.
pub open spec fn spec_task_file_content(
    description: Seq<char>,
    notify: Option<Seq<char>>,
    due: Date,
) -> Seq<char> {
    "---\nstatus: todo\ndue: "@ + spec_format_date(due) + "\ntags: [work]\nsummary: "@
        + description + "\n---\n\n# "@ + description + "\n\n"@ + description
        + "\n\n## When done\n"@ + spec_notify_section(notify) + "\n\n## Process Log\n(the agent logs progress here)\n"@
}

/// Build the content of a new task file.
pub fn task_file_content(description: &str, notify: Option<&String>, due: &Date) -> (r: String)
    requires
        due.wf(),
    ensures
        r@ == spec_task_file_content(
            description@,
            match notify {
                Some(w) => Some(w@),
                None => None,
            },
            *due,
        ),
{
    let mut r = "---\nstatus: todo\ndue: ".to_owned();
    let datestr = format_date(due);
    r.append(datestr.as_str());
    r.append("\ntags: [work]\nsummary: ");
    r.append(description);
    r.append("\n---\n\n# ");
    r.append(description);
    r.append("\n\n");
    r.append(description);
    r.append("\n\n## When done\n");
    match notify {
        Some(who) => {
            r.append("- ");
            r.append(who.as_str());
        },
        None => {
            r.append("- (fill in who to notify)");
        },
    }
    r.append("\n\n## Process Log\n(the agent logs progress here)\n");
    r
}

/// The three-letter abbreviation of a month.
pub open spec fn spec_month_abbrev(m: int) -> Seq<char> {
    if m == 1 {
        "Jan"@
    } else if m == 2 {
        "Feb"@
    } else if m == 3 {
        "Mar"@
    } else if m == 4 {
        "Apr"@
    } else if m == 5 {
        "May"@
    } else if m == 6 {
        "Jun"@
    } else if m == 7 {
        "Jul"@
    } else if m == 8 {
        "Aug"@
    } else if m == 9 {
        "Sep"@
    } else if m == 10 {
        "Oct"@
    } else if m == 11 {
        "Nov"@
    } else {
        "Dec"@
    }
}

fn month_abbrev(m: u8) -> (r: &'static str)
    requires
        1 <= m <= 12,
    ensures
        r@ == spec_month_abbrev(m as int),
{
    if m == 1 {
        "Jan"
    } else if m == 2 {
        "Feb"
    } else if m == 3 {
        "Mar"
    } else if m == 4 {
        "Apr"
    } else if m == 5 {
        "May"
    } else if m == 6 {
        "Jun"
    } else if m == 7 {
        "Jul"
    } else if m == 8 {
        "Aug"
    } else if m == 9 {
        "Sep"
    } else if m == 10 {
        "Oct"
    } else {
        if m == 11 {
            "Nov"
        } else {
            "Dec"
        }
    }
}

/// The due label a date gets against today: named days nearby, a day
/// count within a week either way, and the calendar date beyond that.
pub open spec fn spec_due_label(due: Date, today: Date) -> Seq<char> {
    let days = spec_day_number(due) - spec_day_number(today);
    if days == 0 {
        "due today"@
    } else if days == 1 {
        "due tomorrow"@
    } else if 1 < days <= 7 {
        "due in "@ + spec_dec(days as nat) + "d"@
    } else if days == -1 {
        "due yesterday"@
    } else if -7 <= days < -1 {
        "due "@ + spec_dec((-days) as nat) + "d ago"@
    } else {
        "due "@ + spec_month_abbrev(due.month as int) + " "@ + spec_dec(due.day as nat)
    }
}

/// Render a due date against today.
pub fn format_due(due: &Date, today: &Date) -> (r: String)
    requires
        due.wf(),
        today.wf(),
    ensures
        r@ == spec_due_label(*due, *today),
{
    let days: i64 = day_number(due) - day_number(today);
    if days == 0 {
        "due today".to_owned()
    } else if days == 1 {
        "due tomorrow".to_owned()
    } else if 1 < days && days <= 7 {
        let mut r = "due in ".to_owned();
        let num = u64_to_string(days as u64);
        r.append(num.as_str());
        r.append("d");
        r
    } else if days == -1 {
        "due yesterday".to_owned()
    } else if -7 <= days && days < -1 {
        let mut r = "due ".to_owned();
        let num = u64_to_string((-days) as u64);
        r.append(num.as_str());
        r.append("d ago");
        r
    } else {
        let mut r = "due ".to_owned();
        r.append(month_abbrev(due.month));
        r.append(" ");
        let num = u64_to_string(due.day as u64);
        r.append(num.as_str());
        r
    }
}

/// Index of the last occurrence of `c` in `s`, or `-1`.
pub open spec fn spec_rfind_char(s: Seq<char>, c: char) -> int
    decreases s.len(),
{
    if s.len() == 0 {
        -1
    } else if s[s.len() - 1] == c {
        s.len() - 1
    } else {
        spec_rfind_char(s.drop_last(), c)
    }
}

proof fn lemma_rfind_char_at(s: Seq<char>, c: char, i: int)
    requires
        0 <= i <= s.len(),
        forall|j: int| i <= j < s.len() ==> s[j] != c,
        i == 0 || s[i - 1] == c,
    ensures
        spec_rfind_char(s, c) == i - 1,
    decreases s.len(),
{
    if i == s.len() {
        if s.len() > 0 {
        }
    } else {
        lemma_rfind_char_at(s.drop_last(), c, i);
    }
}

fn rfind_char(s: &str, c: char) -> (r: Option<usize>)
    ensures
        match r {
            Some(i) => 0 <= i < s@.len() && spec_rfind_char(s@, c) == i,
            None => spec_rfind_char(s@, c) == -1,
        },
{
    let n = s.unicode_len();
    let mut i: usize = n;
    while i > 0
        invariant
            n == s@.len(),
            0 <= i <= n,
            forall|j: int| i <= j < n ==> s@[j] != c,
        decreases i,
    {
        i = i - 1;
        if s.get_char(i) == c {
            proof {
                lemma_rfind_char_at(s@, c, i + 1);
            }
            return Some(i);
        }
    }
    proof {
        lemma_rfind_char_at(s@, c, 0);
    }
    None
}

/// The stem of a path: the component after the last separator, with the
/// extension after its last interior dot removed.
pub open spec fn spec_path_stem(path: Seq<char>) -> Seq<char> {
    let base = path.subrange(spec_rfind_char(path, '/') + 1, path.len() as int);
    let dot = spec_rfind_char(base, '.');
    if dot > 0 {
        base.subrange(0, dot)
    } else {
        base
    }
}

/// The task info a bound reference yields: the document's title when the
/// file could be read, its path stem when it has no heading, and a
/// placeholder when the file is missing.
pub fn build_task_info_from_content(path: &str, content: Option<&String>) -> (r: TaskInfo)
    ensures
        r.path@ == path@,
        match content {
            Some(c) => match spec_title_scan(spec_lines(c@), 0) {
                Some(t) => r.title@ == t,
                None => r.title@ == spec_path_stem(path@),
            },
            None => r.title@ == "Missing task file"@,
        },
{
    let title = match content {
        Some(c) => match extract_title(c.as_str()) {
            Some(t) => t,
            None => path_stem(path),
        },
        None => "Missing task file".to_owned(),
    };
    TaskInfo { path: path.to_owned(), title }
}

fn path_stem(path: &str) -> (r: String)
    ensures
        r@ == spec_path_stem(path@),
{
    let n = path.unicode_len();
    let start = match rfind_char(path, '/') {
        Some(i) => i + 1,
        None => 0,
    };
    let base = path.substring_char(start, n);
    proof {
        assert(path@.subrange(spec_rfind_char(path@, '/') + 1, n as int) =~= base@);
    }
    let bn = base.unicode_len();
    match rfind_char(base, '.') {
        Some(dot) if dot > 0 => {
            let stem = base.substring_char(0, dot);
            stem.to_owned()
        },
        _ => base.to_owned(),
    }
}

/// Whether a session is bound to the given task file.
pub open spec fn spec_session_has_task(s: AgentSession, task_path: Seq<char>) -> bool {
    match s.task {
        Some(t) => t.path@ == task_path,
        None => false,
    }
}

/// The first session bound to a task file, if one exists: starting a task
/// switches to its live session instead of creating a second one.
pub fn find_session_for_task(sessions: &Vec<AgentSession>, task_path: &str) -> (r: Option<usize>)
    ensures
        match r {
            Some(i) => 0 <= i < sessions@.len() && spec_session_has_task(
                sessions@[i as int],
                task_path@,
            ) && (forall|j: int|
                0 <= j < i ==> !spec_session_has_task(#[trigger] sessions@[j], task_path@)),
            None => forall|j: int|
                0 <= j < sessions@.len() ==> !spec_session_has_task(
                    #[trigger] sessions@[j],
                    task_path@,
                ),
        },
{
    let n = sessions.len();
    let mut i: usize = 0;
    while i < n
        invariant
            n == sessions@.len(),
            0 <= i <= n,
            forall|j: int| 0 <= j < i ==> !spec_session_has_task(#[trigger] sessions@[j], task_path@),
        decreases n - i,
    {
        match &sessions[i].task {
            Some(t) => {
                if str_eq(t.path.as_str(), task_path) {
                    return Some(i);
                }
            },
            None => {},
        }
        i = i + 1;
    }
    None
}

/// Whether a task matches a text filter: a blank filter matches
/// everything; otherwise the lowercased title must hold the lowercased
/// needle.
pub fn task_matches_filter(task: &TaskEntry, filter: &str) -> (r: bool)
    ensures
        r == (spec_trim(filter@).len() == 0 || spec_contains(
            lower_of(task.title@),
            lower_of(filter@),
        )),
{
    let t = trim(filter);
    if t.unicode_len() == 0 {
        return true;
    }
    let needle = to_lowercase(filter);
    let hay = to_lowercase(task.title.as_str());
    contains(hay.as_str(), needle.as_str())
}

/// The indices of the tasks a text filter keeps, in order.
pub fn filtered_tasks(tasks: &Vec<TaskEntry>, filter: &str) -> (r: Vec<usize>)
    ensures
        forall|k: int|
            0 <= k < r@.len() ==> 0 <= #[trigger] r@[k] < tasks@.len(),
        forall|k: int|
            0 <= k < r@.len() ==> (spec_trim(filter@).len() == 0 || spec_contains(
                lower_of(tasks@[r@[k] as int].title@),
                lower_of(filter@),
            )),
{
    let n = tasks.len();
    let mut r: Vec<usize> = Vec::new();
    let mut i: usize = 0;
    while i < n
        invariant
            n == tasks@.len(),
            0 <= i <= n,
            forall|k: int| 0 <= k < r@.len() ==> 0 <= #[trigger] r@[k] < n,
            forall|k: int|
                0 <= k < r@.len() ==> (spec_trim(filter@).len() == 0 || spec_contains(
                    lower_of(tasks@[r@[k] as int].title@),
                    lower_of(filter@),
                )),
        decreases n - i,
    {
        if task_matches_filter(&tasks[i], filter) {
            r.push(i);
        }
        i = i + 1;
    }
    r
}


} // verus!
