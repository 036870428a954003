//! Keeping secrets out of error text: exact token replacement, and the short
//! sanitized preview of a server's reply body that upload errors carry.
use crate::paths::join_with;
use crate::text::{
    self, ascii_lower_seq, chars_contain, chars_contain_char, chars_of, chars_occur_at,
    contains_char, contains_seq, has_prefix, is_control, is_control_char, is_ws, is_ws_char,
    occurs_at, replace_all, string_from_chars,
};
use vstd::prelude::*;

verus! {

broadcast use vstd::string::group_string_axioms;

/// What stands in place of a removed secret.
pub open spec fn redacted_marker() -> Seq<char> {
    seq!['[', 'r', 'e', 'd', 'a', 'c', 't', 'e', 'd', ']']
}

/// Every occurrence of the token replaced by the marker (nothing to do for an
/// empty token).
pub open spec fn without_token(raw: Seq<char>, token: Seq<char>) -> Seq<char> {
    if token.len() == 0 {
        raw
    } else {
        replace_all(raw, token, redacted_marker())
    }
}

fn marker_chars() -> (r: Vec<char>)
    ensures
        r@ == redacted_marker(),
{
    let r = vec!['[', 'r', 'e', 'd', 'a', 'c', 't', 'e', 'd', ']'];
    assert(r@ =~= redacted_marker());
    r
}

fn push_all(out: &mut Vec<char>, s: &[char])
    ensures
        final(out)@ == old(out)@ + s@,
{
    let mut i: usize = 0;
    while i < s.len()
        invariant
            i <= s@.len(),
            out@ == old(out)@ + s@.subrange(0, i as int),
        decreases s@.len() - i,
    {
        out.push(s[i]);
        i = i + 1;
        assert(out@ =~= old(out)@ + s@.subrange(0, i as int));
    }
    assert(s@.subrange(0, s@.len() as int) =~= s@);
}

/// `str::replace` with a non-empty pattern, on character slices.
pub fn replace_chars(s: &[char], p: &[char], r: &[char]) -> (out: Vec<char>)
    requires
        p@.len() > 0,
    ensures
        out@ == replace_all(s@, p@, r@),
{
    let mut out: Vec<char> = Vec::new();
    let mut i: usize = 0;
    proof {
        assert(s@.subrange(0, s@.len() as int) =~= s@);
    }
    while i < s.len()
        invariant
            p@.len() > 0,
            i <= s@.len(),
            out@ + replace_all(s@.subrange(i as int, s@.len() as int), p@, r@) == replace_all(
                s@,
                p@,
                r@,
            ),
        decreases s@.len() - i,
    {
        let ghost rest = s@.subrange(i as int, s@.len() as int);
        if chars_occur_at(s, p, i) {
            proof {
                assert(rest.subrange(0, p@.len() as int) =~= s@.subrange(i as int, i + p@.len()));
                assert(has_prefix(rest, p@));
                assert(rest.subrange(p@.len() as int, rest.len() as int) =~= s@.subrange(
                    i + p@.len(),
                    s@.len() as int,
                ));
            }
            let ghost before = out@;
            push_all(&mut out, r);
            i = i + p.len();
            proof {
                assert(out@ + replace_all(s@.subrange(i as int, s@.len() as int), p@, r@) =~= before
                    + replace_all(rest, p@, r@));
            }
        } else {
            proof {
                if has_prefix(rest, p@) {
                    assert(rest.subrange(0, p@.len() as int) =~= s@.subrange(
                        i as int,
                        i + p@.len(),
                    ));
                    assert(occurs_at(s@, p@, i as int));
                }
                assert(rest.drop_first() =~= s@.subrange(i + 1, s@.len() as int));
            }
            let ghost before = out@;
            out.push(s[i]);
            i = i + 1;
            proof {
                assert(out@ + replace_all(s@.subrange(i as int, s@.len() as int), p@, r@) =~= before
                    + replace_all(rest, p@, r@));
            }
        }
    }
    proof {
        assert(s@.subrange(i as int, s@.len() as int) =~= Seq::<char>::empty());
        assert(out@ + Seq::<char>::empty() =~= out@);
    }
    out
}

/// The text with every occurrence of the token replaced by `[redacted]`.
pub fn sanitize_error(raw: String, token: &str) -> (r: String)
    ensures
        r@ == without_token(raw@, token@),
{
    let t = chars_of(token);
    if t.len() == 0 {
        raw
    } else {
        let s = chars_of(raw.as_str());
        let m = marker_chars();
        let out = replace_chars(s.as_slice(), t.as_slice(), m.as_slice());
        string_from_chars(out.as_slice())
    }
}

/// No character of `p` occurs in `r`.
pub open spec fn shares_no_char(p: Seq<char>, r: Seq<char>) -> bool {
    forall|i: int| 0 <= i < p.len() ==> !contains_char(r, #[trigger] p[i])
}

/// `p` placed at position `i` of `r` disagrees with `r` somewhere the two
/// overlap.
pub open spec fn clashes_at(p: Seq<char>, r: Seq<char>, i: int) -> bool {
    exists|k: int| 0 <= k < p.len() && i + k < r.len() && p[k] != r[i + k]
}

/// `p` holds no copy of the first character of `r`, and cannot be laid over
/// `r` from any later position of `r` without a mismatch; a text of `r`s and
/// other text then holds `p` only where the other text does.
pub open spec fn never_inside(p: Seq<char>, r: Seq<char>) -> bool {
    &&& !contains_char(p, r[0])
    &&& forall|i: int| 1 <= i < r.len() ==> #[trigger] clashes_at(p, r, i)
}

/// A replacement's output begins with input text up to the first character
/// of the replacement: a prefix without that character was in the input.
proof fn lemma_replaced_prefix(s: Seq<char>, p: Seq<char>, r: Seq<char>, q: Seq<char>)
    requires
        p.len() > 0,
        r.len() > 0,
        !contains_char(q, r[0]),
        has_prefix(replace_all(s, p, r), q),
    ensures
        has_prefix(s, q),
    decreases s.len(),
{
    let out = replace_all(s, p, r);
    if q.len() == 0 {
        assert(s.subrange(0, 0) =~= q);
    } else if s.len() == 0 {
        assert(out.len() == 0);
    } else if has_prefix(s, p) {
        assert(out[0] == r[0]);
        assert(q[0] == out.subrange(0, q.len() as int)[0]);
    } else {
        let rest = s.drop_first();
        let x = replace_all(rest, p, r);
        let q2 = q.drop_first();
        assert(out == seq![s[0]] + x);
        assert(x.subrange(0, q2.len() as int) =~= out.subrange(0, q.len() as int).drop_first());
        assert(!contains_char(q2, r[0])) by {
            if contains_char(q2, r[0]) {
                let j = choose|j: int| 0 <= j < q2.len() && q2[j] == r[0];
                assert(q[j + 1] == r[0]);
            }
        }
        lemma_replaced_prefix(rest, p, r, q2);
        assert(q[0] == out[0]);
        assert(s.subrange(0, q.len() as int) =~= seq![s[0]] + rest.subrange(0, q2.len() as int));
        assert(q =~= seq![q[0]] + q2);
    }
}

/// After a replacement the pattern occurs no more, when it can never be
/// found inside or across what replaces it.
proof fn lemma_replaced_absent(s: Seq<char>, p: Seq<char>, r: Seq<char>)
    requires
        p.len() > 0,
        r.len() > 0,
        never_inside(p, r),
    ensures
        !contains_seq(replace_all(s, p, r), p),
    decreases s.len(),
{
    let out = replace_all(s, p, r);
    if s.len() == 0 {
        assert forall|i: int| !occurs_at(out, p, i) by {}
    } else if has_prefix(s, p) {
        let rest = s.subrange(p.len() as int, s.len() as int);
        let x = replace_all(rest, p, r);
        lemma_replaced_absent(rest, p, r);
        assert(out == r + x);
        assert forall|i: int| !occurs_at(out, p, i) by {
            if occurs_at(out, p, i) {
                if i == 0 {
                    assert(out[0] == r[0]);
                    assert(out.subrange(0, p.len() as int)[0] == p[0]);
                    assert(contains_char(p, r[0]));
                } else if i < r.len() {
                    assert(clashes_at(p, r, i));
                    let k = choose|k: int| 0 <= k < p.len() && i + k < r.len() && p[k] != r[i + k];
                    assert(out.subrange(i, i + p.len())[k] == out[i + k]);
                    assert(out[i + k] == r[i + k]);
                } else {
                    assert(out.subrange(i, i + p.len()) =~= x.subrange(i - r.len(), i - r.len() + p.len()));
                    assert(occurs_at(x, p, i - r.len()));
                }
            }
        }
    } else {
        let rest = s.drop_first();
        let x = replace_all(rest, p, r);
        lemma_replaced_absent(rest, p, r);
        assert(out == seq![s[0]] + x);
        assert forall|i: int| !occurs_at(out, p, i) by {
            if occurs_at(out, p, i) {
                if i == 0 {
                    let p2 = p.drop_first();
                    assert(x.subrange(0, p2.len() as int) =~= out.subrange(0, p.len() as int).drop_first());
                    assert(!contains_char(p2, r[0])) by {
                        if contains_char(p2, r[0]) {
                            let j = choose|j: int| 0 <= j < p2.len() && p2[j] == r[0];
                            assert(p[j + 1] == r[0]);
                        }
                    }
                    lemma_replaced_prefix(rest, p, r, p2);
                    assert(p[0] == out[0]);
                    assert(s.subrange(0, p.len() as int) =~= seq![s[0]] + rest.subrange(0, p2.len() as int));
                    assert(p =~= seq![p[0]] + p2);
                    assert(has_prefix(s, p));
                } else {
                    assert(out.subrange(i, i + p.len()) =~= x.subrange(i - 1, i - 1 + p.len()));
                    assert(occurs_at(x, p, i - 1));
                }
            }
        }
    }
}

/// A sanitized message never contains the token, for any token that shares
/// no character with the `[redacted]` marker.
pub proof fn lemma_sanitized_text_hides_token(raw: Seq<char>, token: Seq<char>)
    requires
        token.len() > 0,
        shares_no_char(token, redacted_marker()),
    ensures
        !contains_seq(without_token(raw, token), token),
{
    let r = redacted_marker();
    assert(!contains_char(token, r[0])) by {
        if contains_char(token, r[0]) {
            let j = choose|j: int| 0 <= j < token.len() && token[j] == r[0];
            assert(contains_char(r, token[j])) by {
                assert(r[0] == token[j]);
            }
        }
    }
    assert forall|i: int| 1 <= i < r.len() implies #[trigger] clashes_at(token, r, i) by {
        if token[0] == r[i] {
            assert(contains_char(r, token[0]));
        }
    }
    lemma_replaced_absent(raw, token, r);
}

/// A sanitized message never contains the token, for any token longer than
/// eight characters that holds neither `[` nor `]`.
pub proof fn lemma_sanitized_text_hides_long_token(raw: Seq<char>, token: Seq<char>)
    requires
        token.len() > 8,
        !contains_char(token, '['),
        !contains_char(token, ']'),
    ensures
        !contains_seq(without_token(raw, token), token),
{
    let r = redacted_marker();
    assert(r[0] == '[' && r[9] == ']' && r.len() == 10);
    assert forall|i: int| 1 <= i < r.len() implies #[trigger] clashes_at(token, r, i) by {
        let k = 9 - i;
        if token[k] == ']' {
            assert(contains_char(token, ']'));
        }
        assert(token[k] != r[i + k]);
    }
    lemma_replaced_absent(raw, token, r);
}

/// Length of the run of non-whitespace characters at the start of `s`.
pub open spec fn word_len(s: Seq<char>) -> nat
    decreases s.len(),
{
    if s.len() > 0 && !is_ws(s[0]) {
        1 + word_len(s.drop_first())
    } else {
        0
    }
}

pub proof fn lemma_word_len_bound(s: Seq<char>)
    ensures
        word_len(s) <= s.len(),
    decreases s.len(),
{
    if s.len() > 0 && !is_ws(s[0]) {
        lemma_word_len_bound(s.drop_first());
    }
}

/// `str::split_whitespace`: the maximal runs of non-whitespace characters.
pub open spec fn words(s: Seq<char>) -> Seq<Seq<char>>
    decreases s.len(),
{
    if s.len() == 0 {
        seq![]
    } else if is_ws(s[0]) {
        words(s.drop_first())
    } else {
        let k = word_len(s);
        proof {
            lemma_word_len_bound(s);
        }
        seq![s.subrange(0, k as int)] + words(s.subrange(k as int, s.len() as int))
    }
}

/// Characters a bare credential is commonly made of.
pub open spec fn secret_char(c: char) -> bool {
    text::is_ascii_alnum(c) || c == '_' || c == '-' || c == '=' || c == '+' || c == '/' || c == '.'
}

/// A word of at least twenty characters, all of them credential characters.
/// (The length is counted in bytes in UTF-8, which for such a word equals the
/// number of characters.)
pub open spec fn looks_like_secret(part: Seq<char>) -> bool {
    part.len() >= 20 && forall|i: int| 0 <= i < part.len() ==> secret_char(#[trigger] part[i])
}

/// A word that is dropped from a preview.
pub open spec fn is_sensitive_word(part: Seq<char>) -> bool {
    let lowered = ascii_lower_seq(part);
    ||| contains_seq(lowered, "token"@)
    ||| contains_seq(lowered, "secret"@)
    ||| contains_seq(lowered, "authorization"@)
    ||| contains_seq(lowered, "bearer"@)
    ||| contains_char(part, '@')
    ||| looks_like_secret(part)
}

pub open spec fn shown_word(part: Seq<char>) -> Seq<char> {
    if is_sensitive_word(part) {
        redacted_marker()
    } else {
        part
    }
}

/// Control characters turned into spaces.
pub open spec fn controls_as_spaces(s: Seq<char>) -> Seq<char> {
    s.map_values(|c: char| if is_control(c) { ' ' } else { c })
}

/// At most this many characters of a reply body are kept.
pub open spec fn max_preview_chars() -> nat {
    200
}

/// The sanitized words of the reply, single-space separated.
pub open spec fn sanitized_words(raw: Seq<char>, token: Seq<char>) -> Seq<char> {
    join_with(
        words(controls_as_spaces(without_token(raw, token))).map_values(
            |w: Seq<char>| shown_word(w),
        ),
        seq![' '],
    )
}

/// The preview of a reply body kept in an upload error: the token replaced,
/// control characters turned into spaces, every suspicious word replaced,
/// whitespace collapsed, and the result cut to 200 characters (with `...`
/// when something was cut).
pub open spec fn preview(raw: Seq<char>, token: Seq<char>) -> Seq<char> {
    let collapsed = sanitized_words(raw, token);
    if collapsed.len() > max_preview_chars() {
        collapsed.subrange(0, max_preview_chars() as int) + "..."@
    } else {
        collapsed
    }
}

fn is_secret_char(c: char) -> (b: bool)
    ensures
        b == secret_char(c),
{
    ('0' <= c && c <= '9') || ('a' <= c && c <= 'z') || ('A' <= c && c <= 'Z') || c == '_' || c
        == '-' || c == '=' || c == '+' || c == '/' || c == '.'
}

fn looks_like_secret_fragment(part: &[char]) -> (b: bool)
    ensures
        b == looks_like_secret(part@),
{
    if part.len() < 20 {
        return false;
    }
    let mut i: usize = 0;
    while i < part.len()
        invariant
            i <= part@.len(),
            forall|k: int| 0 <= k < i ==> secret_char(#[trigger] part@[k]),
        decreases part@.len() - i,
    {
        if !is_secret_char(part[i]) {
            return false;
        }
        i = i + 1;
    }
    true
}

fn literal_chars(s: &str) -> (v: Vec<char>)
    ensures
        v@ == s@,
{
    chars_of(s)
}

fn is_sensitive(part: &[char]) -> (b: bool)
    ensures
        b == is_sensitive_word(part@),
{
    let lowered = text::ascii_lower_vec(part);
    let token = literal_chars("token");
    let secret = literal_chars("secret");
    let authorization = literal_chars("authorization");
    let bearer = literal_chars("bearer");
    chars_contain(lowered.as_slice(), token.as_slice()) || chars_contain(
        lowered.as_slice(),
        secret.as_slice(),
    ) || chars_contain(lowered.as_slice(), authorization.as_slice()) || chars_contain(
        lowered.as_slice(),
        bearer.as_slice(),
    ) || chars_contain_char(part, '@') || looks_like_secret_fragment(part)
}

proof fn lemma_word_len_run(s: Seq<char>, i: int, j: int)
    requires
        0 <= i <= j <= s.len(),
        forall|k: int| i <= k < j ==> !is_ws(#[trigger] s[k]),
        j == s.len() || is_ws(s[j]),
    ensures
        word_len(s.subrange(i, s.len() as int)) == j - i,
    decreases j - i,
{
    let t = s.subrange(i, s.len() as int);
    if i < j {
        assert(t[0] == s[i]);
        assert(t.drop_first() =~= s.subrange(i + 1, s.len() as int));
        lemma_word_len_run(s, i + 1, j);
    } else {
        if t.len() > 0 {
            assert(t[0] == s[j]);
        }
    }
}

/// Collapses `v` (control characters already spaced out) into its sanitized
/// words joined by single spaces.
fn collapse_words(v: &[char]) -> (out: Vec<char>)
    ensures
        out@ == join_with(words(v@).map_values(|w: Seq<char>| shown_word(w)), seq![' ']),
{
    let n = v.len();
    let mut out: Vec<char> = Vec::new();
    let ghost mut done: Seq<Seq<char>> = seq![];
    let mut i: usize = 0;
    let mut any = false;
    proof {
        assert(v@.subrange(0, n as int) =~= v@);
    }
    while i < n
        invariant
            n == v@.len(),
            i <= n,
            any == (done.len() > 0),
            done + words(v@.subrange(i as int, n as int)) == words(v@),
            out@ == join_with(done.map_values(|w: Seq<char>| shown_word(w)), seq![' ']),
        decreases n - i,
    {
        let ghost rest = v@.subrange(i as int, n as int);
        if is_ws_char(v[i]) {
            proof {
                assert(rest[0] == v@[i as int]);
                assert(rest.drop_first() =~= v@.subrange(i + 1, n as int));
            }
            i = i + 1;
        } else {
            let mut j: usize = i + 1;
            while j < n && !is_ws_char(v[j])
                invariant
                    n == v@.len(),
                    i < j <= n,
                    forall|k: int| i <= k < j ==> !is_ws(#[trigger] v@[k]),
                decreases n - j,
            {
                j = j + 1;
            }
            let word = text::sub_vec(v, i, j);
            let ghost w = v@.subrange(i as int, j as int);
            proof {
                lemma_word_len_run(v@, i as int, j as int);
                assert(rest[0] == v@[i as int]);
                assert(rest.subrange(0, j - i) =~= w);
                assert(rest.subrange(j - i, rest.len() as int) =~= v@.subrange(j as int, n as int));
                assert(words(rest) == seq![w] + words(v@.subrange(j as int, n as int)));
            }
            let ghost before = done.map_values(|x: Seq<char>| shown_word(x));
            if any {
                out.push(' ');
            }
            if is_sensitive(word.as_slice()) {
                let m = marker_chars();
                push_all(&mut out, m.as_slice());
            } else {
                push_all(&mut out, word.as_slice());
            }
            proof {
                let after = (done + seq![w]).map_values(|x: Seq<char>| shown_word(x));
                assert(after =~= before.push(shown_word(w)));
                if done.len() > 0 {
                    assert(after.drop_last() =~= before);
                    assert(out@ =~= join_with(before, seq![' ']) + seq![' '] + shown_word(w));
                } else {
                    assert(before.len() == 0);
                    assert(out@ =~= shown_word(w));
                }
                assert(done + seq![w] + words(v@.subrange(j as int, n as int)) =~= done + words(
                    rest,
                ));
                done = done + seq![w];
            }
            any = true;
            i = j;
        }
    }
    proof {
        assert(v@.subrange(n as int, n as int) =~= Seq::<char>::empty());
        assert(done + Seq::<Seq<char>>::empty() =~= done);
    }
    out
}

fn spaced_controls(v: &[char]) -> (out: Vec<char>)
    ensures
        out@ == controls_as_spaces(v@),
{
    let mut out: Vec<char> = Vec::new();
    let mut i: usize = 0;
    while i < v.len()
        invariant
            i <= v@.len(),
            out@ == controls_as_spaces(v@.subrange(0, i as int)),
        decreases v@.len() - i,
    {
        let c = v[i];
        if is_control_char(c) {
            out.push(' ');
        } else {
            out.push(c);
        }
        i = i + 1;
        assert(controls_as_spaces(v@.subrange(0, i as int)) =~= controls_as_spaces(
            v@.subrange(0, i - 1),
        ).push(if is_control(v@[i - 1]) { ' ' } else { v@[i - 1] }));
    }
    assert(v@.subrange(0, v@.len() as int) =~= v@);
    out
}

/// The sanitized, truncated preview of a reply body for an upload error.
pub fn body_preview(raw: &str, token: &str) -> (r: String)
    ensures
        r@ == preview(raw@, token@),
{
    let redacted = sanitize_error(raw.to_string(), token);
    let v = chars_of(redacted.as_str());
    let spaced = spaced_controls(v.as_slice());
    let collapsed = collapse_words(spaced.as_slice());
    if collapsed.len() > 200 {
        let mut cut = text::sub_vec(collapsed.as_slice(), 0, 200);
        cut.push('.');
        cut.push('.');
        cut.push('.');
        proof {
            reveal_strlit("...");
            assert(cut@ =~= collapsed@.subrange(0, 200) + "..."@);
        }
        string_from_chars(cut.as_slice())
    } else {
        string_from_chars(collapsed.as_slice())
    }
}

/// No character of `t` is whitespace.
pub open spec fn no_whitespace(t: Seq<char>) -> bool {
    forall|k: int| 0 <= k < t.len() ==> !is_ws(#[trigger] t[k])
}

proof fn lemma_subrange_keeps_absence(s: Seq<char>, t: Seq<char>, a: int, b: int)
    requires
        !contains_seq(s, t),
        0 <= a <= b <= s.len(),
    ensures
        !contains_seq(s.subrange(a, b), t),
{
    let sub = s.subrange(a, b);
    assert forall|i: int| !occurs_at(sub, t, i) by {
        if occurs_at(sub, t, i) {
            assert(s.subrange(a + i, a + i + t.len()) =~= sub.subrange(i, i + t.len()));
            assert(occurs_at(s, t, a + i));
        }
    }
}

proof fn lemma_spacing_keeps_absence(s: Seq<char>, t: Seq<char>)
    requires
        !contains_seq(s, t),
        no_whitespace(t),
    ensures
        !contains_seq(controls_as_spaces(s), t),
{
    let c = controls_as_spaces(s);
    assert forall|i: int| !occurs_at(c, t, i) by {
        if occurs_at(c, t, i) {
            assert forall|k: int| 0 <= k < t.len() implies s.subrange(i, i + t.len())[k] == t[k] by {
                assert(c.subrange(i, i + t.len())[k] == t[k]);
                assert(c[i + k] == t[k]);
                assert(!is_ws(t[k]));
                assert(!is_control(s[i + k]));
            }
            assert(s.subrange(i, i + t.len()) =~= t);
            assert(occurs_at(s, t, i));
        }
    }
}

proof fn lemma_words_keep_absence(s: Seq<char>, t: Seq<char>)
    requires
        !contains_seq(s, t),
    ensures
        forall|j: int| 0 <= j < words(s).len() ==> !contains_seq(#[trigger] words(s)[j], t),
    decreases s.len(),
{
    if s.len() == 0 {
        assert(words(s).len() == 0);
    } else if is_ws(s[0]) {
        lemma_subrange_keeps_absence(s, t, 1, s.len() as int);
        assert(s.drop_first() =~= s.subrange(1, s.len() as int));
        lemma_words_keep_absence(s.drop_first(), t);
        assert(words(s) == words(s.drop_first()));
    } else {
        let k = word_len(s);
        lemma_word_len_bound(s);
        lemma_subrange_keeps_absence(s, t, 0, k as int);
        lemma_subrange_keeps_absence(s, t, k as int, s.len() as int);
        lemma_words_keep_absence(s.subrange(k as int, s.len() as int), t);
        let rest = words(s.subrange(k as int, s.len() as int));
        assert(words(s) == seq![s.subrange(0, k as int)] + rest);
        assert forall|j: int| 0 <= j < words(s).len() implies !contains_seq(#[trigger] words(s)[j], t) by {
            if j > 0 {
                assert(words(s)[j] == rest[j - 1]);
            }
        }
    }
}

proof fn lemma_marker_hides_long_token(t: Seq<char>)
    requires
        t.len() > 8,
        !contains_char(t, '['),
        !contains_char(t, ']'),
    ensures
        !contains_seq(redacted_marker(), t),
{
    let r = redacted_marker();
    assert forall|i: int| !occurs_at(r, t, i) by {
        if occurs_at(r, t, i) {
            assert(r.subrange(i, i + t.len())[0] == t[0]);
            if i == 0 {
                assert(t[0] == '[');
                assert(contains_char(t, '['));
            } else {
                assert(i == 1 && t.len() == 9);
                assert(r.subrange(i, i + t.len())[8] == t[8]);
                assert(t[8] == ']');
                assert(contains_char(t, ']'));
            }
        }
    }
}

proof fn lemma_join_keeps_absence(parts: Seq<Seq<char>>, t: Seq<char>)
    requires
        t.len() > 0,
        no_whitespace(t),
        forall|j: int| 0 <= j < parts.len() ==> !contains_seq(#[trigger] parts[j], t),
    ensures
        !contains_seq(join_with(parts, seq![' ']), t),
    decreases parts.len(),
{
    if parts.len() == 0 {
        assert forall|i: int| !occurs_at(join_with(parts, seq![' ']), t, i) by {}
    } else if parts.len() == 1 {
        assert(!contains_seq(parts[0], t));
    } else {
        let a = join_with(parts.drop_last(), seq![' ']);
        let b = parts.last();
        assert forall|j: int| 0 <= j < parts.drop_last().len() implies !contains_seq(
            #[trigger] parts.drop_last()[j],
            t,
        ) by {
            assert(parts.drop_last()[j] == parts[j]);
        }
        lemma_join_keeps_absence(parts.drop_last(), t);
        assert(!contains_seq(b, t));
        let x = a + seq![' '] + b;
        assert(join_with(parts, seq![' ']) == x);
        assert forall|i: int| !occurs_at(x, t, i) by {
            if occurs_at(x, t, i) {
                if i + t.len() <= a.len() {
                    assert(x.subrange(i, i + t.len()) =~= a.subrange(i, i + t.len()));
                    assert(occurs_at(a, t, i));
                } else if i > a.len() {
                    let i2 = i - a.len() - 1;
                    assert(x.subrange(i, i + t.len()) =~= b.subrange(i2, i2 + t.len()));
                    assert(occurs_at(b, t, i2));
                } else {
                    let k = a.len() - i;
                    assert(x.subrange(i, i + t.len())[k] == x[a.len() as int]);
                    assert(x[a.len() as int] == ' ');
                    assert(!is_ws(t[k]));
                }
            }
        }
    }
}

/// The preview of a reply body kept in an upload error never shows the
/// token, for any token longer than eight characters that holds no square
/// bracket and no whitespace and does not end with a dot.
pub proof fn lemma_preview_hides_token(raw: Seq<char>, token: Seq<char>)
    requires
        token.len() > 8,
        !contains_char(token, '['),
        !contains_char(token, ']'),
        no_whitespace(token),
        token.last() != '.',
    ensures
        !contains_seq(preview(raw, token), token),
{
    lemma_sanitized_text_hides_long_token(raw, token);
    let s0 = without_token(raw, token);
    lemma_spacing_keeps_absence(s0, token);
    let s1 = controls_as_spaces(s0);
    lemma_words_keep_absence(s1, token);
    lemma_marker_hides_long_token(token);
    let ws = words(s1);
    let shown = ws.map_values(|w: Seq<char>| shown_word(w));
    assert forall|j: int| 0 <= j < shown.len() implies !contains_seq(#[trigger] shown[j], token) by {
        assert(shown[j] == shown_word(ws[j]));
        assert(!contains_seq(ws[j], token));
    }
    lemma_join_keeps_absence(shown, token);
    let collapsed = sanitized_words(raw, token);
    assert(collapsed == join_with(shown, seq![' ']));
    if collapsed.len() > max_preview_chars() {
        let cut = collapsed.subrange(0, 200);
        let p = cut + "..."@;
        assert("..."@ =~= seq!['.', '.', '.']) by {
            reveal_strlit("...");
        }
        assert(preview(raw, token) == p);
        assert forall|i: int| !occurs_at(p, token, i) by {
            if occurs_at(p, token, i) {
                if i + token.len() <= 200 {
                    assert(p.subrange(i, i + token.len()) =~= collapsed.subrange(i, i + token.len()));
                    assert(occurs_at(collapsed, token, i));
                } else {
                    let last = i + token.len() - 1;
                    assert(p.subrange(i, i + token.len())[token.len() - 1] == p[last]);
                    assert(p[last] == '.');
                    assert(token[token.len() - 1] == '.');
                }
            }
        }
    }
}

} // verus!
