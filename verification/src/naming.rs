//! Unique session naming: probe the live session list and suffix on
//! collision, so that session identifiers stay unique among live sessions.

use vstd::prelude::*;

use crate::strutil::{
    matches_at, parse_u64, spec_dec, spec_parse_u64, spec_strip_prefix_all, str_eq,
    strip_prefix_all, u64_to_string, lemma_dec_roundtrip, views_of,
};
use vstd::set_lib::{set_int_range, lemma_int_range, lemma_len_subset};

verus! {

/// The `k`-th candidate name for a base: the base itself first, then
/// `base-2`, `base-3`, and so on.
pub open spec fn spec_candidate(base: Seq<char>, k: nat) -> Seq<char> {
    if k <= 1 {
        base
    } else {
        base + seq!['-'] + spec_dec(k)
    }
}

/// Whether some live session, its reserved prefix stripped, carries this
/// name.
pub open spec fn spec_name_taken(existing: Seq<Seq<char>>, cand: Seq<char>) -> bool {
    exists|i: int|
        0 <= i < existing.len() && spec_strip_prefix_all(existing[i], "swarm-"@) == cand
}

fn vec_contains_u64(v: &Vec<u64>, x: u64) -> (r: bool)
    ensures
        r == v@.contains(x),
{
    let n = v.len();
    let mut i: usize = 0;
    while i < n
        invariant
            n == v@.len(),
            0 <= i <= n,
            forall|k: int| 0 <= k < i ==> v@[k] != x,
        decreases n - i,
    {
        if v[i] == x {
            return true;
        }
        i = i + 1;
    }
    proof {
        if v@.contains(x) {
            let k = choose|k: int| 0 <= k < v@.len() && v@[k] == x;
        }
    }
    false
}

/// The smallest positive integer not in `taken`.
fn smallest_free(taken: &Vec<u64>) -> (k: u64)
    requires
        taken@.len() < 0xffff_ffff_ffff_fffe,
    ensures
        1 <= k,
        !taken@.contains(k),
        forall|j: u64| 1 <= j < k ==> taken@.contains(j),
{
    let mut k: u64 = 1;
    while vec_contains_u64(taken, k)
        invariant
            taken@.len() < 0xffff_ffff_ffff_fffe,
            1 <= k <= taken@.len() + 1,
            forall|j: u64| 1 <= j < k ==> taken@.contains(j),
        decreases taken@.len() + 1 - k,
    {
        proof {
            broadcast use vstd::seq_lib::seq_to_set_is_finite;

            let ints = taken@.map_values(|x: u64| x as int);
            let ts = ints.to_set();
            let si = set_int_range(1, k + 1);
            assert forall|j: int| si.contains(j) implies ts.contains(j) by {
                let ju = j as u64;
                if j == k {
                    assert(taken@.contains(ju));
                } else {
                    assert(1 <= ju < k);
                    assert(taken@.contains(ju));
                }
                let idx = choose|idx: int| 0 <= idx < taken@.len() && taken@[idx] == ju;
                assert(ints[idx] == j);
                assert(ints.contains(j));
            }
            lemma_int_range(1, k + 1);
            ints.lemma_cardinality_of_set();
            lemma_len_subset(si, ts);
            assert(k <= taken@.len());
        }
        k = k + 1;
    }
    k
}

/// The suffix number an existing stripped name contributes: `1` for the
/// base itself, `k >= 2` for `base-k` in canonical decimal, nothing
/// otherwise.
pub open spec fn spec_suffix_number(base: Seq<char>, name: Seq<char>) -> Option<u64> {
    if name == base {
        Some(1u64)
    } else if name.len() > base.len() + 1 && name.subrange(0, base.len() as int) == base && name[
        base.len() as int
    ] == '-' {
        match spec_parse_u64(name.subrange(base.len() + 1 as int, name.len() as int)) {
            Some(k) => if k >= 2 {
                Some(k)
            } else {
                None
            },
            None => None,
        }
    } else {
        None
    }
}

fn suffix_number(base: &str, name: &str) -> (r: Option<u64>)
    ensures
        r == spec_suffix_number(base@, name@),
{
    if str_eq(name, base) {
        return Some(1);
    }
    let bn = base.unicode_len();
    let nn = name.unicode_len();
    if nn > bn && nn - bn > 1 && matches_at(name, base, 0) && name.get_char(bn) == '-' {
        proof {
            assert(name@.subrange(0, bn as int) =~= base@);
        }
        let tail = name.substring_char(bn + 1, nn);
        match parse_u64(tail) {
            Some(k) => {
                if k >= 2 {
                    Some(k)
                } else {
                    None
                }
            },
            None => None,
        }
    } else {
        proof {
            if name@.len() > base@.len() + 1 && name@.subrange(0, base@.len() as int) == base@
                && name@[base@.len() as int] == '-' {
                assert forall|j2: int| 0 <= j2 < base@.len() implies name@[j2] == base@[j2] by {
                    assert(name@.subrange(0, base@.len() as int)[j2] == name@[j2]);
                }
                assert(crate::strutil::contains_at(name@, base@, 0));
                assert(false);
            }
        }
        None
    }
}

/// A candidate whose number is free is not a taken name.
proof fn lemma_candidate_free(base: Seq<char>, existing: Seq<Seq<char>>, taken: Seq<u64>, k: u64)
    requires
        k >= 1,
        forall|i: int|
            0 <= i < existing.len() ==> match spec_suffix_number(
                base,
                #[trigger] spec_strip_prefix_all(existing[i], "swarm-"@),
            ) {
                Some(n) => taken.contains(n),
                None => true,
            },
        !taken.contains(k),
    ensures
        !spec_name_taken(existing, spec_candidate(base, k as nat)),
{
    if spec_name_taken(existing, spec_candidate(base, k as nat)) {
        let i = choose|i: int|
            0 <= i < existing.len() && spec_strip_prefix_all(existing[i], "swarm-"@)
                == spec_candidate(base, k as nat);
        let stripped = spec_strip_prefix_all(existing[i], "swarm-"@);
        if k == 1 {
            assert(stripped == base);
            assert(spec_suffix_number(base, stripped) == Some(1u64));
            assert(taken.contains(1u64));
        } else {
            let cand = base + seq!['-'] + spec_dec(k as nat);
            assert(stripped == cand);
            crate::strutil::lemma_dec_canonical(k as nat);
            assert(spec_dec(k as nat).len() >= 1);
            assert(cand.len() == base.len() + 1 + spec_dec(k as nat).len());
            assert(cand.subrange(0, base.len() as int) =~= base);
            assert(cand[base.len() as int] == '-');
            assert(cand.subrange(base.len() + 1 as int, cand.len() as int) =~= spec_dec(k as nat));
            lemma_dec_roundtrip(k);
            assert(spec_suffix_number(base, stripped) == Some(k));
            assert(taken.contains(k));
        }
    }
}

/// Pick a unique session name from a base: the base itself when free,
/// else `base-k` for the smallest free counter — probing the live session
/// list with the reserved prefix stripped, exactly as session creation
/// must to keep identifiers unique.
pub fn unique_session_name(base: &str, existing: &Vec<String>) -> (r: String)
    requires
        existing@.len() < 0xffff_ffff_ffff_fffe,
    ensures
        !spec_name_taken(views_of(existing@), r@),
        exists|k: nat|
            1 <= k && r@ == spec_candidate(base@, k) && (forall|j: nat|
                1 <= j < k ==> spec_name_taken(views_of(existing@), spec_candidate(base@, j))),
{
    let n = existing.len();
    let mut taken: Vec<u64> = Vec::new();
    let mut i: usize = 0;
    proof {
        reveal_strlit("swarm-");
    }
    while i < n
        invariant
            n == existing@.len(),
            0 <= i <= n,
            taken@.len() <= i,
            "swarm-"@.len() > 0,
            forall|l: int|
                0 <= l < i ==> match spec_suffix_number(
                    base@,
                    #[trigger] spec_strip_prefix_all(views_of(existing@)[l], "swarm-"@),
                ) {
                    Some(nn) => taken@.contains(nn),
                    None => true,
                },
            forall|nn: u64| taken@.contains(nn) ==> exists|l: int|
                0 <= l < i && spec_suffix_number(
                    base@,
                    spec_strip_prefix_all(views_of(existing@)[l], "swarm-"@),
                ) == Some(nn),
        decreases n - i,
    {
        let stripped = strip_prefix_all(existing[i].as_str(), "swarm-");
        let ghost taken0 = taken@;
        let ghost pushed = spec_suffix_number(
            base@,
            spec_strip_prefix_all(views_of(existing@)[i as int], "swarm-"@),
        );
        match suffix_number(base, stripped) {
            Some(nn) => {
                taken.push(nn);
                proof {
                    assert(taken@ =~= taken0.push(nn));
                    assert forall|x: u64| taken@.contains(x) implies taken0.contains(x) || x
                        == nn by {
                        let idx = choose|idx: int| 0 <= idx < taken@.len() && taken@[idx] == x;
                        if idx < taken0.len() {
                            assert(taken0[idx] == x);
                        }
                    }
                    assert forall|x: u64| taken0.contains(x) implies taken@.contains(x) by {
                        let idx = choose|idx: int| 0 <= idx < taken0.len() && taken0[idx] == x;
                        assert(taken@[idx] == x);
                    }
                    assert(taken@.contains(nn)) by {
                        assert(taken@[taken@.len() - 1] == nn);
                    }
                }
            },
            None => {},
        }
        proof {
            assert forall|nn2: u64| taken@.contains(nn2) implies exists|l: int|
                0 <= l < i + 1 && spec_suffix_number(
                    base@,
                    spec_strip_prefix_all(views_of(existing@)[l], "swarm-"@),
                ) == Some(nn2) by {
                if taken0.contains(nn2) {
                    let l = choose|l: int|
                        0 <= l < i && spec_suffix_number(
                            base@,
                            spec_strip_prefix_all(views_of(existing@)[l], "swarm-"@),
                        ) == Some(nn2);
                    assert(0 <= l < i + 1 && spec_suffix_number(
                        base@,
                        spec_strip_prefix_all(views_of(existing@)[l], "swarm-"@),
                    ) == Some(nn2));
                } else {
                    assert(pushed == Some(nn2));
                    let l = i as int;
                    assert(0 <= l < i + 1 && spec_suffix_number(
                        base@,
                        spec_strip_prefix_all(views_of(existing@)[l], "swarm-"@),
                    ) == Some(nn2));
                }
            }
        }
        i = i + 1;
    }
    let k = smallest_free(&taken);
    proof {
        lemma_candidate_free(base@, views_of(existing@), taken@, k);
        assert forall|j: u64| 1 <= j < k implies spec_name_taken(
            views_of(existing@),
            spec_candidate(base@, j as nat),
        ) by {
            assert(taken@.contains(j));
            let l = choose|l: int|
                0 <= l < n && spec_suffix_number(
                    base@,
                    spec_strip_prefix_all(views_of(existing@)[l], "swarm-"@),
                ) == Some(j);
            let stripped = spec_strip_prefix_all(views_of(existing@)[l], "swarm-"@);
            lemma_suffix_number_candidate(base@, stripped, j);
        }
    }
    if k == 1 {
        let r = base.to_owned();
        proof {
            assert(r@ == spec_candidate(base@, 1));
            assert forall|j: nat| 1 <= j < 1 implies spec_name_taken(
                views_of(existing@),
                spec_candidate(base@, j),
            ) by {}
        }
        r
    } else {
        let mut r = base.to_owned();
        r.append("-");
        let num = u64_to_string(k);
        r.append(num.as_str());
        proof {
            reveal_strlit("-");
            assert(r@ =~= base@ + seq!['-'] + spec_dec(k as nat));
            assert(r@ == spec_candidate(base@, k as nat));
            assert forall|j: nat| 1 <= j < k implies spec_name_taken(
                views_of(existing@),
                spec_candidate(base@, j),
            ) by {
                assert(1 <= (j as u64) < k);
            }
        }
        r
    }
}

/// A name whose suffix number is `j` is the `j`-th candidate.
proof fn lemma_suffix_number_candidate(base: Seq<char>, name: Seq<char>, j: u64)
    requires
        spec_suffix_number(base, name) == Some(j),
    ensures
        name == spec_candidate(base, j as nat),
{
    if name == base {
        assert(spec_suffix_number(base, name) == Some(1u64));
        assert(j == 1);
    } else {
        assert(name.len() > base.len() + 1);
        let tail = name.subrange(base.len() + 1 as int, name.len() as int);
        assert(spec_parse_u64(tail) == Some(j));
        crate::strutil::lemma_parse_unique(tail, j);
        assert(name =~= base + seq!['-'] + spec_dec(j as nat));
    }
}

/// What `slug::slugify` returns for a string: a function of its
/// characters alone.
pub uninterp spec fn slug_of(s: Seq<char>) -> Seq<char>;

/// A character a slug may hold: a lowercase ascii letter, a digit, or a
/// dash.
pub open spec fn is_slug_char(c: char) -> bool {
    (('a' as u32) <= (c as u32) && (c as u32) <= ('z' as u32)) || (('0' as u32) <= (c as u32) && (
    c as u32) <= ('9' as u32)) || c == '-'
}

/// Relies on `slug::slugify`: an ascii slug consisting of lowercase
/// letters, digits and dashes; the result depends on the characters
/// alone.
#[verifier::external_body]
pub fn slugify(s: &str) -> (r: String)
    ensures
        r@ == slug_of(s@),
        forall|i: int| 0 <= i < r@.len() ==> is_slug_char(#[trigger] r@[i]),
{
    slug::slugify(s)
}

/// A slug cut to a length budget.
pub fn slug_truncate(s: &String, max: usize) -> (r: String)
    ensures
        r@ == (if s@.len() <= max {
            s@
        } else {
            s@.take(max as int)
        }),
{
    let n = s.as_str().unicode_len();
    if n <= max {
        s.clone()
    } else {
        let cut = s.as_str().substring_char(0, max);
        proof {
            assert(s@.take(max as int) =~= s@.subrange(0, max as int));
        }
        cut.to_owned()
    }
}

/// The session base name a task title yields: its slug, cut to fifty
/// characters for the file name.
pub fn session_base_for_title(title: &str) -> (r: String)
    ensures
        r@ == (if slug_of(title@).len() <= 50 {
            slug_of(title@)
        } else {
            slug_of(title@).take(50)
        }),
{
    let s = slugify(title);
    slug_truncate(&s, 50)
}

} // verus!
