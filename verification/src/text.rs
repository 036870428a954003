//! Character-level text primitives shared by the rest of the library.
//!
//! Every routine here works on the `Seq<char>` view of a string, so that the
//! contracts of the higher-level modules can be phrased over plain sequences.
use vstd::prelude::*;

verus! {

broadcast use vstd::string::group_string_axioms;

/// Unicode `White_Space`, the property behind `char::is_whitespace`.
pub open spec fn is_ws(c: char) -> bool {
    ||| ('\u{9}' <= c && c <= '\u{d}')
    ||| c == ' '
    ||| c == '\u{85}'
    ||| c == '\u{a0}'
    ||| c == '\u{1680}'
    ||| ('\u{2000}' <= c && c <= '\u{200a}')
    ||| c == '\u{2028}'
    ||| c == '\u{2029}'
    ||| c == '\u{202f}'
    ||| c == '\u{205f}'
    ||| c == '\u{3000}'
}

/// Unicode general category `Cc`, the property behind `char::is_control`.
pub open spec fn is_control(c: char) -> bool {
    ||| c <= '\u{1f}'
    ||| ('\u{7f}' <= c && c <= '\u{9f}')
}

pub open spec fn is_ascii_alnum(c: char) -> bool {
    ||| ('0' <= c && c <= '9')
    ||| ('a' <= c && c <= 'z')
    ||| ('A' <= c && c <= 'Z')
}

pub open spec fn ascii_lower(c: char) -> char {
    if 'A' <= c && c <= 'Z' {
        ((c as u32) + 32) as char
    } else {
        c
    }
}

pub open spec fn ascii_lower_seq(s: Seq<char>) -> Seq<char> {
    s.map_values(|c: char| ascii_lower(c))
}

/// Length of the run of whitespace at the start of `s`.
pub open spec fn lead_ws(s: Seq<char>) -> nat
    decreases s.len(),
{
    if s.len() > 0 && is_ws(s[0]) {
        1 + lead_ws(s.drop_first())
    } else {
        0
    }
}

/// Length of the run of whitespace at the end of `s`.
pub open spec fn trail_ws(s: Seq<char>) -> nat
    decreases s.len(),
{
    if s.len() > 0 && is_ws(s.last()) {
        1 + trail_ws(s.drop_last())
    } else {
        0
    }
}

pub open spec fn trim_start(s: Seq<char>) -> Seq<char> {
    s.subrange(lead_ws(s) as int, s.len() as int)
}

pub open spec fn trim_end(s: Seq<char>) -> Seq<char> {
    s.subrange(0, s.len() - trail_ws(s))
}

/// `str::trim`: both whitespace runs removed.
pub open spec fn trim(s: Seq<char>) -> Seq<char> {
    trim_end(trim_start(s))
}

/// Strips every leading and trailing occurrence of `c` (`str::trim_matches`).
pub open spec fn lead_run(s: Seq<char>, c: char) -> nat
    decreases s.len(),
{
    if s.len() > 0 && s[0] == c {
        1 + lead_run(s.drop_first(), c)
    } else {
        0
    }
}

pub open spec fn trail_run(s: Seq<char>, c: char) -> nat
    decreases s.len(),
{
    if s.len() > 0 && s.last() == c {
        1 + trail_run(s.drop_last(), c)
    } else {
        0
    }
}

pub open spec fn trim_char(s: Seq<char>, c: char) -> Seq<char> {
    let t = s.subrange(lead_run(s, c) as int, s.len() as int);
    t.subrange(0, t.len() - trail_run(t, c))
}

pub open spec fn has_prefix(s: Seq<char>, p: Seq<char>) -> bool {
    p.len() <= s.len() && s.subrange(0, p.len() as int) == p
}

pub open spec fn has_suffix(s: Seq<char>, p: Seq<char>) -> bool {
    p.len() <= s.len() && s.subrange(s.len() - p.len(), s.len() as int) == p
}

/// `p` occurs in `s` starting at position `i`.
pub open spec fn occurs_at(s: Seq<char>, p: Seq<char>, i: int) -> bool {
    0 <= i && i + p.len() <= s.len() && s.subrange(i, i + p.len()) == p
}

/// `str::contains` with a string pattern (the empty pattern occurs everywhere).
pub open spec fn contains_seq(s: Seq<char>, p: Seq<char>) -> bool {
    exists|i: int| occurs_at(s, p, i)
}

pub open spec fn contains_char(s: Seq<char>, c: char) -> bool {
    exists|i: int| 0 <= i < s.len() && s[i] == c
}

/// `str::replace` for a non-empty pattern: every non-overlapping occurrence,
/// scanning from the left, is replaced.
pub open spec fn replace_all(s: Seq<char>, p: Seq<char>, r: Seq<char>) -> Seq<char>
    recommends
        p.len() > 0,
    decreases s.len(),
{
    if s.len() == 0 || p.len() == 0 {
        s
    } else if has_prefix(s, p) {
        r + replace_all(s.subrange(p.len() as int, s.len() as int), p, r)
    } else {
        seq![s[0]] + replace_all(s.drop_first(), p, r)
    }
}

/// Decimal digits of a natural number, without leading zeros ("0" for zero).
pub open spec fn decimal(n: nat) -> Seq<char>
    decreases n,
{
    if n < 10 {
        seq![digit_char(n)]
    } else {
        decimal(n / 10) + seq![digit_char(n % 10)]
    }
}

pub open spec fn digit_char(d: nat) -> char {
    (('0' as nat) + d) as char
}

/// Decimal digits padded on the left with zeros to at least two characters.
pub open spec fn decimal2(n: nat) -> Seq<char> {
    if n < 10 {
        seq!['0', digit_char(n)]
    } else {
        decimal(n)
    }
}

/// Decimal digits of `n`, padded on the left with zeros to at least `width`
/// characters.
pub open spec fn zero_padded(n: nat, width: nat) -> Seq<char> {
    if decimal(n).len() >= width {
        decimal(n)
    } else {
        Seq::new((width - decimal(n).len()) as nat, |_i: int| '0') + decimal(n)
    }
}

/// Index of the first occurrence of `c` in `s`, or -1.
pub open spec fn first_index(s: Seq<char>, c: char) -> int
    decreases s.len(),
{
    if s.len() == 0 {
        -1
    } else if s[0] == c {
        0
    } else {
        let r = first_index(s.drop_first(), c);
        if r < 0 {
            -1
        } else {
            r + 1
        }
    }
}

pub proof fn lemma_first_index(s: Seq<char>, c: char)
    ensures
        -1 <= first_index(s, c) < s.len(),
        first_index(s, c) >= 0 ==> s[first_index(s, c)] == c,
        forall|j: int|
            0 <= j < s.len() && (first_index(s, c) < 0 || j < first_index(s, c)) ==> s[j] != c,
    decreases s.len(),
{
    if s.len() > 0 && s[0] != c {
        lemma_first_index(s.drop_first(), c);
        assert forall|j: int|
            0 <= j < s.len() && (first_index(s, c) < 0 || j < first_index(s, c)) implies s[j]
            != c by {
            if j > 0 {
                assert(s[j] == s.drop_first()[j - 1]);
            }
        }
    }
}

pub proof fn lemma_first_index_at(s: Seq<char>, c: char, k: int)
    requires
        0 <= k < s.len(),
        s[k] == c,
        forall|j: int| 0 <= j < k ==> s[j] != c,
    ensures
        first_index(s, c) == k,
    decreases k,
{
    if k > 0 {
        lemma_first_index_at(s.drop_first(), c, k - 1);
    }
}

pub proof fn lemma_first_index_none(s: Seq<char>, c: char)
    requires
        forall|j: int| 0 <= j < s.len() ==> s[j] != c,
    ensures
        first_index(s, c) == -1,
    decreases s.len(),
{
    if s.len() > 0 {
        lemma_first_index_none(s.drop_first(), c);
    }
}

/// Position of the first `c` at or after `from`, if any.
pub fn find_char_from(v: &[char], c: char, from: usize) -> (r: Option<usize>)
    requires
        from <= v@.len(),
    ensures
        match r {
            Some(k) => from <= k < v@.len() && k - from == first_index(
                v@.subrange(from as int, v@.len() as int),
                c,
            ),
            None => first_index(v@.subrange(from as int, v@.len() as int), c) == -1,
        },
{
    let mut k = from;
    while k < v.len()
        invariant
            from <= k <= v@.len(),
            forall|j: int| from <= j < k ==> v@[j] != c,
        decreases v@.len() - k,
    {
        if v[k] == c {
            proof {
                lemma_first_index_at(v@.subrange(from as int, v@.len() as int), c, k - from);
            }
            return Some(k);
        }
        k = k + 1;
    }
    proof {
        lemma_first_index_none(v@.subrange(from as int, v@.len() as int), c);
    }
    None
}

pub proof fn lemma_lead_ws_bound(s: Seq<char>)
    ensures
        lead_ws(s) <= s.len(),
    decreases s.len(),
{
    if s.len() > 0 && is_ws(s[0]) {
        lemma_lead_ws_bound(s.drop_first());
    }
}

pub proof fn lemma_trail_ws_bound(s: Seq<char>)
    ensures
        trail_ws(s) <= s.len(),
    decreases s.len(),
{
    if s.len() > 0 && is_ws(s.last()) {
        lemma_trail_ws_bound(s.drop_last());
    }
}

pub proof fn lemma_lead_run_bound(s: Seq<char>, c: char)
    ensures
        lead_run(s, c) <= s.len(),
    decreases s.len(),
{
    if s.len() > 0 && s[0] == c {
        lemma_lead_run_bound(s.drop_first(), c);
    }
}

pub proof fn lemma_trail_run_bound(s: Seq<char>, c: char)
    ensures
        trail_run(s, c) <= s.len(),
    decreases s.len(),
{
    if s.len() > 0 && s.last() == c {
        lemma_trail_run_bound(s.drop_last(), c);
    }
}

/// The trimmed text carries no whitespace at either end.
pub proof fn lemma_trim_ends(s: Seq<char>)
    ensures
        trim(s).len() > 0 ==> !is_ws(trim(s)[0]) && !is_ws(trim(s).last()),
        trim(s).len() <= s.len(),
{
    lemma_lead_ws_bound(s);
    let t = trim_start(s);
    lemma_trail_ws_bound(t);
    lemma_lead_ws_first(s);
    lemma_trail_ws_last(t);
    if trim(s).len() > 0 {
        assert(trim(s)[0] == t[0]);
    }
}

proof fn lemma_lead_ws_first(s: Seq<char>)
    ensures
        lead_ws(s) < s.len() ==> !is_ws(s[lead_ws(s) as int]),
        forall|i: int| 0 <= i < lead_ws(s) ==> is_ws(#[trigger] s[i]),
    decreases s.len(),
{
    lemma_lead_ws_bound(s);
    if s.len() > 0 && is_ws(s[0]) {
        lemma_lead_ws_first(s.drop_first());
        assert forall|i: int| 0 <= i < lead_ws(s) implies is_ws(#[trigger] s[i]) by {
            if i > 0 {
                assert(s[i] == s.drop_first()[i - 1]);
            }
        }
    }
}

proof fn lemma_trail_ws_last(s: Seq<char>)
    ensures
        trail_ws(s) < s.len() ==> !is_ws(s[s.len() - 1 - trail_ws(s)]),
    decreases s.len(),
{
    if s.len() > 0 && is_ws(s.last()) {
        lemma_trail_ws_last(s.drop_last());
    }
}

/// A copy of the characters of `s`, in order.
pub fn chars_of(s: &str) -> (v: Vec<char>)
    ensures
        v@ == s@,
{
    let mut v: Vec<char> = Vec::new();
    for c in it: s.chars()
        invariant
            it.seq() == s@,
            v@ == it.seq().take(it.index() as int),
    {
        v.push(c);
    }
    v
}

/// Builds a `String` whose characters are exactly `v`.
#[verifier::external_body]
pub(crate) fn string_from_chars(v: &[char]) -> (s: String)
    ensures
        s@ == v@,
{
    String::from_iter(v.iter())
}

/// An owned copy of `s`.
pub fn to_owned_string(s: &str) -> (r: String)
    ensures
        r@ == s@,
{
    s.to_string()
}

pub fn is_ws_char(c: char) -> (b: bool)
    ensures
        b == is_ws(c),
{
    ('\u{9}' <= c && c <= '\u{d}') || c == ' ' || c == '\u{85}' || c == '\u{a0}' || c
        == '\u{1680}' || ('\u{2000}' <= c && c <= '\u{200a}') || c == '\u{2028}' || c
        == '\u{2029}' || c == '\u{202f}' || c == '\u{205f}' || c == '\u{3000}'
}

pub fn is_control_char(c: char) -> (b: bool)
    ensures
        b == is_control(c),
{
    c <= '\u{1f}' || ('\u{7f}' <= c && c <= '\u{9f}')
}

pub fn ascii_lower_char(c: char) -> (r: char)
    ensures
        r == ascii_lower(c),
{
    if 'A' <= c && c <= 'Z' {
        let code: u32 = (c as u32) + 32;
        assert(code < 0xD800);
        char_from_ascii_code(code)
    } else {
        c
    }
}

fn char_from_ascii_code(code: u32) -> (c: char)
    requires
        code < 0x80,
    ensures
        c == code as char,
{
    let b: u8 = code as u8;
    b as char
}

/// Index range `[lo, hi)` of `v` that survives trimming whitespace at both ends.
pub fn trim_bounds(v: &[char]) -> (r: (usize, usize))
    ensures
        r.0 == lead_ws(v@),
        r.1 - r.0 == trim(v@).len(),
        r.0 <= r.1 <= v@.len(),
        v@.subrange(r.0 as int, r.1 as int) == trim(v@),
{
    let n = v.len();
    let mut lo: usize = 0;
    proof {
        lemma_lead_ws_bound(v@);
        assert(v@.subrange(0, n as int) =~= v@);
    }
    while lo < n && is_ws_char(v[lo])
        invariant
            n == v@.len(),
            lo <= n,
            lead_ws(v@) == lo + lead_ws(v@.subrange(lo as int, n as int)),
        decreases n - lo,
    {
        let ghost rest = v@.subrange(lo as int, n as int);
        assert(rest.drop_first() =~= v@.subrange(lo + 1, n as int));
        lo = lo + 1;
    }
    let ghost t = v@.subrange(lo as int, n as int);
    assert(lead_ws(t) == 0);
    assert(lo == lead_ws(v@));
    assert(t =~= trim_start(v@));
    let mut hi: usize = n;
    while hi > lo && is_ws_char(v[hi - 1])
        invariant
            n == v@.len(),
            lo <= hi <= n,
            t == v@.subrange(lo as int, n as int),
            trail_ws(t) == (n - hi) + trail_ws(v@.subrange(lo as int, hi as int)),
        decreases hi - lo,
    {
        let ghost rest = v@.subrange(lo as int, hi as int);
        assert(rest.drop_last() =~= v@.subrange(lo as int, hi - 1));
        hi = hi - 1;
    }
    proof {
        let u = v@.subrange(lo as int, hi as int);
        assert(trail_ws(u) == 0);
        assert(t.subrange(0, t.len() - trail_ws(t)) =~= u);
    }
    (lo, hi)
}

/// `str::trim`.
pub fn trim_str(s: &str) -> (r: &str)
    ensures
        r@ == trim(s@),
{
    let v = chars_of(s);
    let (lo, hi) = trim_bounds(v.as_slice());
    s.substring_char(lo, hi)
}

/// `str::trim` followed by `to_string`.
pub fn trim_string(s: &str) -> (r: String)
    ensures
        r@ == trim(s@),
{
    to_owned_string(trim_str(s))
}

/// `str::trim().is_empty()`.
pub fn is_blank(s: &str) -> (b: bool)
    ensures
        b == (trim(s@).len() == 0),
{
    let v = chars_of(s);
    let (lo, hi) = trim_bounds(v.as_slice());
    lo == hi
}

/// Element-wise equality of two character slices.
pub fn chars_eq(a: &[char], b: &[char]) -> (r: bool)
    ensures
        r == (a@ == b@),
{
    if a.len() != b.len() {
        return false;
    }
    let mut i: usize = 0;
    while i < a.len()
        invariant
            a@.len() == b@.len(),
            i <= a@.len(),
            forall|j: int| 0 <= j < i ==> a@[j] == b@[j],
        decreases a@.len() - i,
    {
        if a[i] != b[i] {
            return false;
        }
        i = i + 1;
    }
    assert(a@ =~= b@);
    true
}

/// `==` on two strings.
pub fn str_eq(a: &str, b: &str) -> (r: bool)
    ensures
        r == (a@ == b@),
{
    let va = chars_of(a);
    let vb = chars_of(b);
    chars_eq(va.as_slice(), vb.as_slice())
}

/// `p` occurs in `s` at position `i`.
pub fn chars_occur_at(s: &[char], p: &[char], i: usize) -> (r: bool)
    ensures
        r == occurs_at(s@, p@, i as int),
{
    if i > s.len() || p.len() > s.len() - i {
        return false;
    }
    let mut j: usize = 0;
    while j < p.len()
        invariant
            i + p@.len() <= s@.len(),
            s@.len() <= usize::MAX,
            j <= p@.len(),
            forall|k: int| 0 <= k < j ==> s@[i + k] == p@[k],
        decreases p@.len() - j,
    {
        if s[i + j] != p[j] {
            assert(s@.subrange(i as int, i + p@.len())[j as int] != p@[j as int]);
            return false;
        }
        j = j + 1;
    }
    assert(s@.subrange(i as int, i + p@.len()) =~= p@);
    true
}

/// `str::contains` on character slices.
pub fn chars_contain(s: &[char], p: &[char]) -> (r: bool)
    ensures
        r == contains_seq(s@, p@),
{
    if p.len() > s.len() {
        assert forall|i: int| !occurs_at(s@, p@, i) by {}
        return false;
    }
    let last: usize = s.len() - p.len();
    let mut i: usize = 0;
    loop
        invariant
            p@.len() <= s@.len(),
            last == s@.len() - p@.len(),
            i <= last,
            forall|k: int| 0 <= k < i ==> !occurs_at(s@, p@, k),
        ensures
            forall|k: int| 0 <= k <= last ==> !occurs_at(s@, p@, k),
        decreases last - i,
    {
        if chars_occur_at(s, p, i) {
            return true;
        }
        if i == last {
            break;
        }
        i = i + 1;
    }
    assert forall|k: int| !occurs_at(s@, p@, k) by {
        if 0 <= k <= last {
        }
    }
    false
}

/// `str::contains` with a string pattern.
pub fn str_contains(s: &str, p: &str) -> (r: bool)
    ensures
        r == contains_seq(s@, p@),
{
    let vs = chars_of(s);
    let vp = chars_of(p);
    chars_contain(vs.as_slice(), vp.as_slice())
}

/// `str::contains` with a character pattern.
pub fn chars_contain_char(s: &[char], c: char) -> (r: bool)
    ensures
        r == contains_char(s@, c),
{
    let mut i: usize = 0;
    while i < s.len()
        invariant
            i <= s@.len(),
            forall|k: int| 0 <= k < i ==> s@[k] != c,
        decreases s@.len() - i,
    {
        if s[i] == c {
            return true;
        }
        i = i + 1;
    }
    false
}

/// `str::starts_with` with a string pattern.
pub fn chars_start_with(s: &[char], p: &[char]) -> (r: bool)
    ensures
        r == has_prefix(s@, p@),
{
    let b = chars_occur_at(s, p, 0);
    proof {
        if p@.len() <= s@.len() {
            assert(has_prefix(s@, p@) == occurs_at(s@, p@, 0));
        }
    }
    b
}

/// `str::to_ascii_lowercase` on a character slice.
pub fn ascii_lower_vec(s: &[char]) -> (r: Vec<char>)
    ensures
        r@ == ascii_lower_seq(s@),
{
    let mut out: Vec<char> = Vec::new();
    let mut i: usize = 0;
    while i < s.len()
        invariant
            i <= s@.len(),
            out@ =~= ascii_lower_seq(s@.subrange(0, i as int)),
        decreases s@.len() - i,
    {
        let c = ascii_lower_char(s[i]);
        out.push(c);
        i = i + 1;
        assert(ascii_lower_seq(s@.subrange(0, i as int)) =~= ascii_lower_seq(
            s@.subrange(0, i - 1),
        ).push(ascii_lower(s@[i - 1])));
    }
    assert(s@.subrange(0, s@.len() as int) =~= s@);
    out
}

/// `str::to_ascii_lowercase`.
pub fn ascii_lowercase(s: &str) -> (r: String)
    ensures
        r@ == ascii_lower_seq(s@),
{
    let v = chars_of(s);
    let l = ascii_lower_vec(v.as_slice());
    string_from_chars(l.as_slice())
}

/// `str::eq_ignore_ascii_case`.
pub fn eq_ignore_ascii_case(a: &str, b: &str) -> (r: bool)
    ensures
        r == (ascii_lower_seq(a@) == ascii_lower_seq(b@)),
{
    let va = chars_of(a);
    let vb = chars_of(b);
    let la = ascii_lower_vec(va.as_slice());
    let lb = ascii_lower_vec(vb.as_slice());
    chars_eq(la.as_slice(), lb.as_slice())
}

proof fn lemma_decimal_len(n: nat)
    ensures
        decimal(n).len() >= 1,
    decreases n,
{
    if n >= 10 {
        lemma_decimal_len(n / 10);
    }
}

/// The decimal representation of `n`, as `u64::to_string` writes it.
pub fn decimal_string(n: u64) -> (r: String)
    ensures
        r@ == decimal(n as nat),
{
    let mut digits: Vec<char> = Vec::new();
    let mut m: u64 = n;
    // digits holds the lowest decimal digits of n in reverse order
    while m >= 10
        invariant
            m <= n,
            decimal(n as nat) == decimal(m as nat) + digits@.reverse(),
        decreases m,
    {
        let c = digit_of(m % 10);
        proof {
            assert(digits@.push(c).reverse() =~= seq![c] + digits@.reverse());
            assert(decimal(m as nat) == decimal((m / 10) as nat) + seq![c]);
        }
        digits.push(c);
        m = m / 10;
    }
    let c = digit_of(m);
    proof {
        assert(digits@.push(c).reverse() =~= seq![c] + digits@.reverse());
    }
    digits.push(c);
    let mut out: Vec<char> = Vec::new();
    let mut i: usize = digits.len();
    while i > 0
        invariant
            i <= digits@.len(),
            out@ =~= digits@.subrange(i as int, digits@.len() as int).reverse(),
        decreases i,
    {
        i = i - 1;
        out.push(digits[i]);
        assert(digits@.subrange(i as int, digits@.len() as int).reverse() =~= digits@.subrange(
            i + 1,
            digits@.len() as int,
        ).reverse().push(digits@[i as int]));
    }
    assert(digits@.subrange(0, digits@.len() as int) =~= digits@);
    string_from_chars(out.as_slice())
}

/// `n` in decimal, padded on the left with zeros to at least `width` characters.
pub fn zero_padded_string(n: u64, width: usize) -> (r: String)
    ensures
        r@ == zero_padded(n as nat, width as nat),
{
    let digits = decimal_string(n);
    let dv = chars_of(digits.as_str());
    let mut zeros: Vec<char> = Vec::new();
    let mut k: usize = dv.len();
    while k < width
        invariant
            dv@.len() <= k,
            k <= width || k == dv@.len(),
            zeros@ =~= Seq::new((k - dv@.len()) as nat, |_i: int| '0'),
        decreases width - k,
    {
        zeros.push('0');
        k = k + 1;
    }
    let mut s = string_from_chars(zeros.as_slice());
    s.append(digits.as_str());
    s
}

/// The characters `v[lo..hi)` as a new vector.
pub fn sub_vec(v: &[char], lo: usize, hi: usize) -> (r: Vec<char>)
    requires
        lo <= hi <= v@.len(),
    ensures
        r@ == v@.subrange(lo as int, hi as int),
{
    let mut out: Vec<char> = Vec::new();
    let mut i = lo;
    while i < hi
        invariant
            lo <= i <= hi <= v@.len(),
            out@ == v@.subrange(lo as int, i as int),
        decreases hi - i,
    {
        out.push(v[i]);
        i = i + 1;
        assert(out@ =~= v@.subrange(lo as int, i as int));
    }
    out
}

fn digit_of(d: u64) -> (c: char)
    requires
        d < 10,
    ensures
        c == digit_char(d as nat),
{
    let code: u32 = 48 + d as u32;
    char_from_ascii_code(code)
}

} // verus!
