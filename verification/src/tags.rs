//! Tags attached to sessions: trimming, and the sorted set of distinct tags.
use crate::paths::string_views;
use crate::text::{self, chars_of, trim_string};
use vstd::prelude::*;

verus! {

broadcast use vstd::string::group_string_axioms;

/// Lexicographic order of character sequences, comparing code points — the
/// order of `String`/`str` in Rust (byte order of UTF-8 agrees with it).
pub open spec fn seq_lt(a: Seq<char>, b: Seq<char>) -> bool
    decreases a.len(),
{
    if a.len() == 0 {
        b.len() > 0
    } else if b.len() == 0 {
        false
    } else if a[0] != b[0] {
        a[0] < b[0]
    } else {
        seq_lt(a.drop_first(), b.drop_first())
    }
}

pub proof fn lemma_lt_irreflexive(a: Seq<char>)
    ensures
        !seq_lt(a, a),
    decreases a.len(),
{
    if a.len() > 0 {
        lemma_lt_irreflexive(a.drop_first());
    }
}

pub proof fn lemma_lt_transitive(a: Seq<char>, b: Seq<char>, c: Seq<char>)
    requires
        seq_lt(a, b),
        seq_lt(b, c),
    ensures
        seq_lt(a, c),
    decreases a.len(),
{
    if a.len() > 0 && b.len() > 0 && c.len() > 0 {
        if a[0] == b[0] && b[0] == c[0] {
            lemma_lt_transitive(a.drop_first(), b.drop_first(), c.drop_first());
        }
    }
}

pub proof fn lemma_lt_total(a: Seq<char>, b: Seq<char>)
    ensures
        a == b || seq_lt(a, b) || seq_lt(b, a),
    decreases a.len(),
{
    if a.len() > 0 && b.len() > 0 && a[0] == b[0] {
        lemma_lt_total(a.drop_first(), b.drop_first());
        if a.drop_first() == b.drop_first() {
            assert(a =~= seq![a[0]] + a.drop_first());
            assert(b =~= seq![b[0]] + b.drop_first());
        }
    } else if a.len() == 0 && b.len() == 0 {
        assert(a =~= b);
    }
}

pub proof fn lemma_lt_asymmetric(a: Seq<char>, b: Seq<char>)
    requires
        seq_lt(a, b),
    ensures
        !seq_lt(b, a),
{
    if seq_lt(b, a) {
        lemma_lt_transitive(a, b, a);
        lemma_lt_irreflexive(a);
    }
}

/// `a < b` for two character slices.
pub fn chars_lt(a: &[char], b: &[char]) -> (r: bool)
    ensures
        r == seq_lt(a@, b@),
{
    let mut i: usize = 0;
    proof {
        assert(a@.subrange(0, a@.len() as int) =~= a@);
        assert(b@.subrange(0, b@.len() as int) =~= b@);
    }
    while i < a.len() && i < b.len() && a[i] == b[i]
        invariant
            i <= a@.len(),
            i <= b@.len(),
            seq_lt(a@, b@) == seq_lt(
                a@.subrange(i as int, a@.len() as int),
                b@.subrange(i as int, b@.len() as int),
            ),
        decreases a@.len() - i,
    {
        proof {
            let ra = a@.subrange(i as int, a@.len() as int);
            let rb = b@.subrange(i as int, b@.len() as int);
            assert(ra.drop_first() =~= a@.subrange(i + 1, a@.len() as int));
            assert(rb.drop_first() =~= b@.subrange(i + 1, b@.len() as int));
        }
        i = i + 1;
    }
    proof {
        assert(a@.subrange(0, a@.len() as int) =~= a@);
        assert(b@.subrange(0, b@.len() as int) =~= b@);
    }
    if i == a.len() {
        i < b.len()
    } else if i == b.len() {
        false
    } else {
        a[i] < b[i]
    }
}

/// A tag as stored: trimmed, or nothing when blank.
pub open spec fn normalized_tag(value: Seq<char>) -> Option<Seq<char>> {
    if text::trim(value).len() == 0 {
        None
    } else {
        Some(text::trim(value))
    }
}

/// The tag `value` trimmed, or `None` when it is blank.
pub fn normalize_tag(value: &str) -> (r: Option<String>)
    ensures
        match r {
            Some(t) => normalized_tag(value@) == Some(t@),
            None => normalized_tag(value@) is None,
        },
{
    let t = trim_string(value);
    if t.as_str().unicode_len() == 0 {
        None
    } else {
        Some(t)
    }
}

/// Strictly increasing, hence free of duplicates.
pub open spec fn strictly_sorted(s: Seq<Seq<char>>) -> bool {
    forall|i: int, j: int| 0 <= i < j < s.len() ==> seq_lt(s[i], s[j])
}

/// `x` is the normalized form of one of `values`.
pub open spec fn is_normalized_member(values: Seq<Seq<char>>, x: Seq<char>) -> bool {
    exists|j: int| 0 <= j < values.len() && normalized_tag(values[j]) == Some(x)
}

/// Inserts `t` into the strictly sorted `out`, keeping it sorted and without
/// duplicates.
pub fn insert_sorted(out: &mut Vec<String>, t: String)
    requires
        strictly_sorted(string_views(old(out)@)),
    ensures
        strictly_sorted(string_views(final(out)@)),
        forall|x: Seq<char>|
            string_views(final(out)@).contains(x) <==> (string_views(old(out)@).contains(x)
                || x == t@),
{
    let tv = chars_of(t.as_str());
    let mut p: usize = 0;
    while p < out.len() && chars_lt(chars_of(out[p].as_str()).as_slice(), tv.as_slice())
        invariant
            p <= out@.len(),
            strictly_sorted(string_views(out@)),
            forall|k: int| 0 <= k < p ==> seq_lt(#[trigger] out@[k]@, t@),
            tv@ == t@,
        decreases out@.len() - p,
    {
        p = p + 1;
    }
    let ghost before = string_views(out@);
    if p < out.len() && text::str_eq(out[p].as_str(), t.as_str()) {
        proof {
            assert(before[p as int] == t@);
            assert forall|x: Seq<char>| before.contains(x) <==> (before.contains(x) || x == t@) by {
                if x == t@ {
                    assert(before[p as int] == x);
                }
            }
        }
        return;
    }
    proof {
        if p < out@.len() {
            lemma_lt_total(out@[p as int]@, t@);
            assert(seq_lt(t@, out@[p as int]@));
        }
    }
    out.insert(p, t);
    proof {
        let after = string_views(out@);
        assert(after =~= before.subrange(0, p as int) + seq![t@] + before.subrange(
            p as int,
            before.len() as int,
        ));
        assert forall|i: int, j: int| 0 <= i < j < after.len() implies seq_lt(
            after[i],
            after[j],
        ) by {
            if j < p {
            } else if i < p && j == p {
            } else if i < p && j > p {
                assert(seq_lt(after[i], t@));
                if j - 1 > p {
                    assert(seq_lt(before[p as int], before[j - 1]));
                    lemma_lt_transitive(t@, before[p as int], before[j - 1]);
                }
                lemma_lt_transitive(after[i], t@, after[j]);
            } else if i == p {
                if j - 1 > p {
                    assert(seq_lt(before[p as int], before[j - 1]));
                    lemma_lt_transitive(t@, before[p as int], before[j - 1]);
                }
            } else {
                assert(after[i] == before[i - 1]);
                assert(after[j] == before[j - 1]);
            }
        }
        assert forall|x: Seq<char>| after.contains(x) <==> (before.contains(x) || x == t@) by {
            if after.contains(x) {
                let k = choose|k: int| 0 <= k < after.len() && after[k] == x;
                if k < p {
                    assert(before[k] == x);
                } else if k > p {
                    assert(before[k - 1] == x);
                }
            }
            if before.contains(x) {
                let k = choose|k: int| 0 <= k < before.len() && before[k] == x;
                if k < p {
                    assert(after[k] == x);
                } else {
                    assert(after[k + 1] == x);
                }
            }
            if x == t@ {
                assert(after[p as int] == x);
            }
        }
    }
}

/// The distinct non-blank tags of `values`, trimmed and in ascending order.
pub fn normalize_tags(values: Vec<String>) -> (r: Vec<String>)
    ensures
        strictly_sorted(string_views(r@)),
        forall|x: Seq<char>|
            string_views(r@).contains(x) <==> is_normalized_member(string_views(values@), x),
{
    let mut tags: Vec<String> = Vec::new();
    let mut i: usize = 0;
    while i < values.len()
        invariant
            i <= values@.len(),
            strictly_sorted(string_views(tags@)),
            forall|x: Seq<char>|
                string_views(tags@).contains(x) <==> is_normalized_member(
                    string_views(values@).subrange(0, i as int),
                    x,
                ),
        decreases values@.len() - i,
    {
        let ghost prev = string_views(values@).subrange(0, i as int);
        let ghost next = string_views(values@).subrange(0, i + 1);
        let n = normalize_tag(values[i].as_str());
        match n {
            Some(t) => {
                let ghost tv = t@;
                insert_sorted(&mut tags, t);
                proof {
                    assert forall|x: Seq<char>|
                        string_views(tags@).contains(x) <==> is_normalized_member(next, x) by {
                        if is_normalized_member(next, x) {
                            let j = choose|j: int|
                                0 <= j < next.len() && normalized_tag(next[j]) == Some(x);
                            if j < i {
                                assert(prev[j] == next[j]);
                            }
                        }
                        if is_normalized_member(prev, x) {
                            let j = choose|j: int|
                                0 <= j < prev.len() && normalized_tag(prev[j]) == Some(x);
                            assert(next[j] == prev[j]);
                        }
                        if x == tv {
                            assert(next[i as int] == values@[i as int]@);
                        }
                    }
                }
            },
            None => {
                proof {
                    assert forall|x: Seq<char>|
                        string_views(tags@).contains(x) <==> is_normalized_member(next, x) by {
                        if is_normalized_member(next, x) {
                            let j = choose|j: int|
                                0 <= j < next.len() && normalized_tag(next[j]) == Some(x);
                            if j < i {
                                assert(prev[j] == next[j]);
                            } else {
                                assert(next[j] == values@[i as int]@);
                            }
                        }
                        if is_normalized_member(prev, x) {
                            let j = choose|j: int|
                                0 <= j < prev.len() && normalized_tag(prev[j]) == Some(x);
                            assert(next[j] == prev[j]);
                        }
                    }
                }
            },
        }
        i = i + 1;
    }
    proof {
        assert(string_views(values@).subrange(0, values@.len() as int) =~= string_views(values@));
    }
    tags
}

/// What normalizing `values` gives: sorted, and exactly their normalized tags.
pub open spec fn normalizes_to(values: Seq<Seq<char>>, r: Seq<Seq<char>>) -> bool {
    &&& strictly_sorted(r)
    &&& forall|x: Seq<char>| r.contains(x) <==> is_normalized_member(values, x)
}

/// Two strictly sorted sequences with the same members are equal.
proof fn lemma_sorted_same_members(a: Seq<Seq<char>>, b: Seq<Seq<char>>)
    requires
        strictly_sorted(a),
        strictly_sorted(b),
        forall|x: Seq<char>| a.contains(x) <==> b.contains(x),
    ensures
        a == b,
    decreases a.len(),
{
    if a.len() == 0 {
        if b.len() > 0 {
            assert(b.contains(b[0]));
        }
        assert(a =~= b);
    } else {
        assert(a.contains(a[0]));
        assert(b.contains(a[0]));
        let k = choose|k: int| 0 <= k < b.len() && b[k] == a[0];
        assert(b.contains(b[0]));
        let m = choose|m: int| 0 <= m < a.len() && a[m] == b[0];
        if k > 0 {
            assert(seq_lt(b[0], b[k]));
            if m > 0 {
                assert(seq_lt(a[0], a[m]));
                lemma_lt_asymmetric(a[0], b[0]);
            } else {
                lemma_lt_irreflexive(a[0]);
            }
        }
        let a2 = a.drop_first();
        let b2 = b.drop_first();
        assert forall|x: Seq<char>| a2.contains(x) <==> b2.contains(x) by {
            if a2.contains(x) {
                let i = choose|i: int| 0 <= i < a2.len() && a2[i] == x;
                assert(a[i + 1] == x);
                assert(seq_lt(a[0], x));
                lemma_lt_irreflexive(x);
                assert(a.contains(x));
                let j = choose|j: int| 0 <= j < b.len() && b[j] == x;
                assert(j != 0);
                assert(b2[j - 1] == x);
            }
            if b2.contains(x) {
                let i = choose|i: int| 0 <= i < b2.len() && b2[i] == x;
                assert(b[i + 1] == x);
                assert(seq_lt(b[0], x));
                lemma_lt_irreflexive(x);
                assert(b.contains(x));
                let j = choose|j: int| 0 <= j < a.len() && a[j] == x;
                assert(j != 0);
                assert(a2[j - 1] == x);
            }
        }
        assert forall|i: int, j: int| 0 <= i < j < a2.len() implies seq_lt(a2[i], a2[j]) by {
            assert(a2[i] == a[i + 1] && a2[j] == a[j + 1]);
        }
        assert forall|i: int, j: int| 0 <= i < j < b2.len() implies seq_lt(b2[i], b2[j]) by {
            assert(b2[i] == b[i + 1] && b2[j] == b[j + 1]);
        }
        lemma_sorted_same_members(a2, b2);
        assert(a =~= seq![a[0]] + a2);
        assert(b =~= seq![b[0]] + b2);
    }
}

/// A normalized tag normalizes to itself.
proof fn lemma_normalized_member_is_fixed(values: Seq<Seq<char>>, t: Seq<char>)
    requires
        is_normalized_member(values, t),
    ensures
        normalized_tag(t) == Some(t),
{
    let j = choose|j: int| 0 <= j < values.len() && normalized_tag(values[j]) == Some(t);
    crate::settings::lemma_trim_idempotent(values[j]);
}

/// Normalizing tags that are already normalized changes nothing: the known
/// tags, saved and read back, stay the same list.
pub proof fn lemma_normalized_tags_are_stable(
    values: Seq<Seq<char>>,
    r: Seq<Seq<char>>,
    r2: Seq<Seq<char>>,
)
    requires
        normalizes_to(values, r),
        normalizes_to(r, r2),
    ensures
        r2 == r,
{
    assert forall|x: Seq<char>| r2.contains(x) <==> r.contains(x) by {
        if r.contains(x) {
            let i = choose|i: int| 0 <= i < r.len() && r[i] == x;
            lemma_normalized_member_is_fixed(values, x);
            assert(normalized_tag(r[i]) == Some(x));
            assert(is_normalized_member(r, x));
        }
        if r2.contains(x) {
            let j = choose|j: int| 0 <= j < r.len() && normalized_tag(r[j]) == Some(x);
            assert(r.contains(r[j]));
            lemma_normalized_member_is_fixed(values, r[j]);
        }
    }
    lemma_sorted_same_members(r2, r);
}

/// Every tag of every session, in order.
pub open spec fn all_tags(lists: Seq<Vec<String>>) -> Seq<Seq<char>> {
    lists.map_values(|v: Vec<String>| string_views(v@)).flatten()
}

/// The tags known across sessions: the distinct non-blank tags of all the
/// sessions' tag lists, trimmed and in ascending order.
pub fn collect_known_tags(tag_lists: &Vec<Vec<String>>) -> (r: Vec<String>)
    ensures
        strictly_sorted(string_views(r@)),
        forall|x: Seq<char>|
            string_views(r@).contains(x) <==> is_normalized_member(all_tags(tag_lists@), x),
{
    let ghost lists = tag_lists@.map_values(|v: Vec<String>| string_views(v@));
    let mut flat: Vec<String> = Vec::new();
    let mut i: usize = 0;
    proof {
        assert(lists.subrange(0, 0) =~= Seq::<Seq<Seq<char>>>::empty());
        lists.subrange(0, 0).lemma_flatten_and_flatten_alt_are_equivalent();
        assert(string_views(flat@) =~= lists.subrange(0, 0).flatten());
    }
    while i < tag_lists.len()
        invariant
            i <= tag_lists@.len(),
            lists == tag_lists@.map_values(|v: Vec<String>| string_views(v@)),
            string_views(flat@) == lists.subrange(0, i as int).flatten(),
        decreases tag_lists@.len() - i,
    {
        let list = &tag_lists[i];
        let ghost base = string_views(flat@);
        let mut j: usize = 0;
        while j < list.len()
            invariant
                j <= list@.len(),
                string_views(flat@) == base + string_views(list@).subrange(0, j as int),
            decreases list@.len() - j,
        {
            let ghost before = string_views(flat@);
            flat.push(list[j].clone());
            proof {
                assert(string_views(flat@) =~= before.push(list@[j as int]@));
                assert(string_views(list@).subrange(0, j + 1) =~= string_views(list@).subrange(
                    0,
                    j as int,
                ).push(list@[j as int]@));
                assert(string_views(flat@) =~= base + string_views(list@).subrange(0, j + 1));
            }
            j = j + 1;
        }
        proof {
            let sub = lists.subrange(0, i + 1);
            sub.lemma_flatten_and_flatten_alt_are_equivalent();
            lists.subrange(0, i as int).lemma_flatten_and_flatten_alt_are_equivalent();
            assert(sub.drop_last() =~= lists.subrange(0, i as int));
            assert(sub.last() == string_views(list@));
            assert(string_views(list@).subrange(0, list@.len() as int) =~= string_views(list@));
            assert(string_views(flat@) =~= sub.flatten());
        }
        i = i + 1;
    }
    proof {
        assert(lists.subrange(0, tag_lists@.len() as int) =~= lists);
    }
    normalize_tags(flat)
}

} // verus!
