//! POSIX path arithmetic on plain strings: file names, extensions, joins and
//! component lists, following the rules of `std::path` with `/` as separator.
use crate::text::{chars_eq, chars_of, string_from_chars, to_owned_string};
use vstd::prelude::*;

verus! {

broadcast use vstd::string::group_string_axioms;

/// Index of the last `/` in `s`, or -1.
pub open spec fn last_slash(s: Seq<char>) -> int
    decreases s.len(),
{
    if s.len() == 0 {
        -1
    } else if s.last() == '/' {
        s.len() - 1
    } else {
        last_slash(s.drop_last())
    }
}

/// Index of the first `/` in `s`, or -1.
pub open spec fn first_slash(s: Seq<char>) -> int
    decreases s.len(),
{
    if s.len() == 0 {
        -1
    } else if s[0] == '/' {
        0
    } else {
        let r = first_slash(s.drop_first());
        if r < 0 {
            -1
        } else {
            r + 1
        }
    }
}

/// Index of the last `.` in `s`, or -1.
pub open spec fn last_dot(s: Seq<char>) -> int
    decreases s.len(),
{
    if s.len() == 0 {
        -1
    } else if s.last() == '.' {
        s.len() - 1
    } else {
        last_dot(s.drop_last())
    }
}

pub open spec fn dot() -> Seq<char> {
    seq!['.']
}

pub open spec fn dotdot() -> Seq<char> {
    seq!['.', '.']
}

/// `Path::file_name`: the last component, when it is a normal name.
pub open spec fn file_name(s: Seq<char>) -> Option<Seq<char>>
    decreases s.len(),
{
    let k = last_slash(s);
    let seg = s.subrange(k + 1, s.len() as int);
    if seg.len() == 0 || seg == dot() {
        if k < 0 {
            None
        } else {
            proof {
                lemma_last_slash_range(s);
            }
            file_name(s.subrange(0, k))
        }
    } else if seg == dotdot() {
        None
    } else {
        Some(seg)
    }
}

/// Character range of `file_name(s)` within `s`.
pub open spec fn name_bounds(s: Seq<char>) -> (int, int)
    decreases s.len(),
{
    let k = last_slash(s);
    let seg = s.subrange(k + 1, s.len() as int);
    if seg.len() == 0 || seg == dot() {
        if k < 0 {
            (0, 0)
        } else {
            proof {
                lemma_last_slash_range(s);
            }
            name_bounds(s.subrange(0, k))
        }
    } else {
        (k + 1, s.len() as int)
    }
}

/// `Path::extension` of a file name: the part after the last `.`, unless the
/// name has no `.` or its only `.` is the first character.
pub open spec fn name_extension(name: Seq<char>) -> Option<Seq<char>> {
    let d = last_dot(name);
    if d <= 0 {
        None
    } else {
        Some(name.subrange(d + 1, name.len() as int))
    }
}

/// `Path::file_stem` of a file name.
pub open spec fn name_stem(name: Seq<char>) -> Seq<char> {
    let d = last_dot(name);
    if d <= 0 {
        name
    } else {
        name.subrange(0, d)
    }
}

pub open spec fn extension(s: Seq<char>) -> Option<Seq<char>> {
    match file_name(s) {
        Some(name) => name_extension(name),
        None => None,
    }
}

pub open spec fn file_stem(s: Seq<char>) -> Option<Seq<char>> {
    match file_name(s) {
        Some(name) => Some(name_stem(name)),
        None => None,
    }
}

pub open spec fn is_absolute(s: Seq<char>) -> bool {
    s.len() > 0 && s[0] == '/'
}

/// `Path::join`: an absolute right-hand side replaces the base; otherwise the
/// two are glued with a single separator.
pub open spec fn join(base: Seq<char>, rel: Seq<char>) -> Seq<char> {
    if is_absolute(rel) || base.len() == 0 {
        rel
    } else if base.last() == '/' {
        base + rel
    } else {
        base + seq!['/'] + rel
    }
}

/// The normal components of `s`, in order: the pieces between separators,
/// without empty pieces and without `.` pieces.
pub open spec fn comps_from(s: Seq<char>) -> Seq<Seq<char>>
    decreases s.len(),
{
    let i = first_slash(s);
    if i < 0 {
        if s.len() == 0 || s == dot() {
            seq![]
        } else {
            seq![s]
        }
    } else {
        proof {
            lemma_first_slash_range(s);
        }
        let head = s.subrange(0, i);
        let tail = comps_from(s.subrange(i + 1, s.len() as int));
        if head.len() == 0 || head == dot() {
            tail
        } else {
            seq![head] + tail
        }
    }
}

/// A relative path that starts with the current-directory component `.`.
pub open spec fn starts_with_cur_dir(s: Seq<char>) -> bool {
    s.len() > 0 && s[0] == '.' && (s.len() == 1 || s[1] == '/')
}

/// `Path::components` rendered as strings: a leading `.` is kept as its own
/// component, the root is recorded by `is_absolute`.
pub open spec fn components(s: Seq<char>) -> Seq<Seq<char>> {
    if starts_with_cur_dir(s) {
        seq![dot()] + comps_from(s)
    } else {
        comps_from(s)
    }
}

/// `Path::strip_prefix`: the components of `path` after those of `base`.
pub open spec fn strip_prefix(path: Seq<char>, base: Seq<char>) -> Option<Seq<Seq<char>>> {
    let p = components(path);
    let b = components(base);
    if is_absolute(path) == is_absolute(base) && b.len() <= p.len() && p.subrange(
        0,
        b.len() as int,
    ) == b {
        Some(p.subrange(b.len() as int, p.len() as int))
    } else {
        None
    }
}

/// `parts` joined with `sep` between consecutive elements.
pub open spec fn join_with(parts: Seq<Seq<char>>, sep: Seq<char>) -> Seq<char>
    decreases parts.len(),
{
    if parts.len() == 0 {
        seq![]
    } else if parts.len() == 1 {
        parts[0]
    } else {
        join_with(parts.drop_last(), sep) + sep + parts.last()
    }
}

pub open spec fn views(v: Seq<Vec<char>>) -> Seq<Seq<char>> {
    v.map_values(|x: Vec<char>| x@)
}

pub open spec fn string_views(v: Seq<String>) -> Seq<Seq<char>> {
    v.map_values(|x: String| x@)
}

pub proof fn lemma_last_slash_range(s: Seq<char>)
    ensures
        -1 <= last_slash(s) < s.len(),
        last_slash(s) >= 0 ==> s[last_slash(s)] == '/',
    decreases s.len(),
{
    if s.len() > 0 && s.last() != '/' {
        lemma_last_slash_range(s.drop_last());
    }
}

pub proof fn lemma_first_slash_range(s: Seq<char>)
    ensures
        -1 <= first_slash(s) < s.len(),
        first_slash(s) >= 0 ==> s[first_slash(s)] == '/',
        forall|j: int| 0 <= j < s.len() && (first_slash(s) < 0 || j < first_slash(s)) ==> s[j]
            != '/',
    decreases s.len(),
{
    if s.len() > 0 && s[0] != '/' {
        lemma_first_slash_range(s.drop_first());
        assert forall|j: int|
            0 <= j < s.len() && (first_slash(s) < 0 || j < first_slash(s)) implies s[j]
            != '/' by {
            if j > 0 {
                assert(s[j] == s.drop_first()[j - 1]);
            }
        }
    }
}

pub proof fn lemma_last_dot_range(s: Seq<char>)
    ensures
        -1 <= last_dot(s) < s.len(),
    decreases s.len(),
{
    if s.len() > 0 && s.last() != '.' {
        lemma_last_dot_range(s.drop_last());
    }
}

/// Position just after the last `/` before `end` (0 when there is none).
fn segment_start(v: &[char], end: usize) -> (st: usize)
    requires
        end <= v@.len(),
    ensures
        st as int == last_slash(v@.subrange(0, end as int)) + 1,
        st <= end,
{
    let mut st = end;
    while st > 0 && v[st - 1] != '/'
        invariant
            end <= v@.len(),
            st <= end,
            last_slash(v@.subrange(0, end as int)) == last_slash(v@.subrange(0, st as int)),
        decreases st,
    {
        proof {
            let t = v@.subrange(0, st as int);
            assert(t.drop_last() =~= v@.subrange(0, st - 1));
        }
        st = st - 1;
    }
    proof {
        let t = v@.subrange(0, st as int);
        if st > 0 {
            assert(t.last() == '/');
        }
    }
    st
}

fn is_dot_seg(v: &[char], lo: usize, hi: usize) -> (b: bool)
    requires
        lo <= hi <= v@.len(),
    ensures
        b == (v@.subrange(lo as int, hi as int) == dot()),
{
    let r = hi - lo == 1 && v[lo] == '.';
    proof {
        if hi - lo == 1 {
            if v@[lo as int] == '.' {
                assert(v@.subrange(lo as int, hi as int) =~= dot());
            } else {
                assert(v@.subrange(lo as int, hi as int)[0] != dot()[0]);
            }
        } else {
            assert(v@.subrange(lo as int, hi as int).len() != dot().len());
        }
    }
    r
}

fn is_dotdot_seg(v: &[char], lo: usize, hi: usize) -> (b: bool)
    requires
        lo <= hi <= v@.len(),
    ensures
        b == (v@.subrange(lo as int, hi as int) == dotdot()),
{
    let r = hi - lo == 2 && v[lo] == '.' && v[lo + 1] == '.';
    proof {
        let seg = v@.subrange(lo as int, hi as int);
        if hi - lo == 2 {
            if v@[lo as int] == '.' && v@[lo + 1] == '.' {
                assert(seg =~= dotdot());
            } else if v@[lo as int] != '.' {
                assert(seg[0] != dotdot()[0]);
            } else {
                assert(seg[1] != dotdot()[1]);
            }
        } else {
            assert(seg.len() != dotdot().len());
        }
    }
    r
}

/// Character range of `Path::file_name`, when there is one.
pub fn file_name_range(v: &[char]) -> (r: Option<(usize, usize)>)
    ensures
        match r {
            Some((lo, hi)) => lo <= hi <= v@.len() && file_name(v@) == Some(
                v@.subrange(lo as int, hi as int),
            ) && name_bounds(v@) == (lo as int, hi as int),
            None => file_name(v@) is None,
        },
{
    let mut end = v.len();
    proof {
        assert(v@.subrange(0, end as int) =~= v@);
    }
    loop
        invariant
            end <= v@.len(),
            file_name(v@) == file_name(v@.subrange(0, end as int)),
            name_bounds(v@) == name_bounds(v@.subrange(0, end as int)),
        decreases end,
    {
        let st = segment_start(v, end);
        let ghost t = v@.subrange(0, end as int);
        proof {
            lemma_last_slash_range(t);
            assert(t.subrange(st as int, end as int) =~= v@.subrange(st as int, end as int));
        }
        if st == end || is_dot_seg(v, st, end) {
            if st == 0 {
                return None;
            }
            proof {
                assert(t.subrange(0, st - 1) =~= v@.subrange(0, st - 1));
            }
            end = st - 1;
        } else if is_dotdot_seg(v, st, end) {
            return None;
        } else {
            return Some((st, end));
        }
    }
}

/// `Path::file_name` on a string path.
pub fn file_name_of(path: &str) -> (r: Option<String>)
    ensures
        match r {
            Some(n) => file_name(path@) == Some(n@),
            None => file_name(path@) is None,
        },
{
    let v = chars_of(path);
    match file_name_range(v.as_slice()) {
        Some((lo, hi)) => Some(to_owned_string(path.substring_char(lo, hi))),
        None => None,
    }
}

/// Position of the last `.` in `v[lo..hi)`, relative to `lo`, or -1.
pub fn last_dot_in(v: &[char], lo: usize, hi: usize) -> (d: Option<usize>)
    requires
        lo <= hi <= v@.len(),
    ensures
        match d {
            Some(k) => k == last_dot(v@.subrange(lo as int, hi as int)),
            None => last_dot(v@.subrange(lo as int, hi as int)) == -1,
        },
{
    let mut k = hi;
    while k > lo && v[k - 1] != '.'
        invariant
            lo <= k <= hi <= v@.len(),
            last_dot(v@.subrange(lo as int, hi as int)) == last_dot(v@.subrange(lo as int, k as int)),
        decreases k,
    {
        proof {
            let t = v@.subrange(lo as int, k as int);
            assert(t.drop_last() =~= v@.subrange(lo as int, k - 1));
        }
        k = k - 1;
    }
    if k == lo {
        None
    } else {
        Some(k - 1 - lo)
    }
}

/// `Path::extension` on a string path.
pub fn extension_of(path: &str) -> (r: Option<String>)
    ensures
        match r {
            Some(e) => extension(path@) == Some(e@),
            None => extension(path@) is None,
        },
{
    let v = chars_of(path);
    match file_name_range(v.as_slice()) {
        Some((lo, hi)) => {
            let d = last_dot_in(v.as_slice(), lo, hi);
            proof {
                lemma_last_dot_range(v@.subrange(lo as int, hi as int));
            }
            if d.is_none() || d == Some(0usize) {
                None
            } else {
                let d = d.unwrap();
                let start: usize = lo + d + 1;
                proof {
                    let name = v@.subrange(lo as int, hi as int);
                    assert(name.subrange(d + 1, name.len() as int) =~= v@.subrange(
                        start as int,
                        hi as int,
                    ));
                }
                Some(to_owned_string(path.substring_char(start, hi)))
            }
        },
        None => None,
    }
}


/// `Path::file_stem` on a string path.
pub fn file_stem_of(path: &str) -> (r: Option<String>)
    ensures
        match r {
            Some(e) => file_stem(path@) == Some(e@),
            None => file_stem(path@) is None,
        },
{
    let v = chars_of(path);
    match file_name_range(v.as_slice()) {
        Some((lo, hi)) => {
            let d = last_dot_in(v.as_slice(), lo, hi);
            proof {
                lemma_last_dot_range(v@.subrange(lo as int, hi as int));
            }
            if d.is_none() || d == Some(0usize) {
                Some(to_owned_string(path.substring_char(lo, hi)))
            } else {
                let d = d.unwrap();
                let stop: usize = lo + d;
                proof {
                    let name = v@.subrange(lo as int, hi as int);
                    assert(name.subrange(0, d as int) =~= v@.subrange(lo as int, stop as int));
                }
                Some(to_owned_string(path.substring_char(lo, stop)))
            }
        },
        None => None,
    }
}


/// `Path::is_absolute` for POSIX paths.
pub fn is_absolute_path(path: &str) -> (b: bool)
    ensures
        b == is_absolute(path@),
{
    let v = chars_of(path);
    v.len() > 0 && v[0] == '/'
}

/// `Path::join` for POSIX paths, rendered back to a string.
pub fn join_path(base: &str, rel: &str) -> (r: String)
    ensures
        r@ == join(base@, rel@),
{
    let vb = chars_of(base);
    let vr = chars_of(rel);
    if (vr.len() > 0 && vr[0] == '/') || vb.len() == 0 {
        return to_owned_string(rel);
    }
    let mut out = vb.clone();
    if vb[vb.len() - 1] != '/' {
        out.push('/');
    }
    let mut i: usize = 0;
    let ghost mid = out@;
    while i < vr.len()
        invariant
            i <= vr@.len(),
            out@ == mid + vr@.subrange(0, i as int),
        decreases vr@.len() - i,
    {
        out.push(vr[i]);
        i = i + 1;
        assert(out@ =~= mid + vr@.subrange(0, i as int));
    }
    proof {
        assert(vr@.subrange(0, vr@.len() as int) =~= vr@);
        assert(vb@.last() == vb@[vb@.len() - 1]);
    }
    string_from_chars(out.as_slice())
}

/// The normal components of `v[lo..]`.
pub fn comps_vec(v: &[char]) -> (r: Vec<Vec<char>>)
    ensures
        views(r@) == comps_from(v@),
{
    let n = v.len();
    let mut out: Vec<Vec<char>> = Vec::new();
    let mut pos: usize = 0;
    let mut cur: Vec<char> = Vec::new();
    proof {
        assert(v@.subrange(0, n as int) =~= v@);
    }
    // cur collects the characters of the piece that started at `start`
    let ghost mut start: int = 0;
    while pos < n
        invariant
            n == v@.len(),
            0 <= start <= pos <= n,
            cur@ == v@.subrange(start, pos as int),
            forall|j: int| start <= j < pos ==> v@[j] != '/',
            comps_from(v@) == views(out@) + comps_from(v@.subrange(start, n as int)),
        decreases n - pos,
    {
        let c = v[pos];
        if c == '/' {
            proof {
                let s = v@.subrange(start, n as int);
                lemma_first_slash_prefix(s, pos - start);
                assert(s.subrange(0, pos - start) =~= cur@);
                assert(s.subrange(pos - start + 1, s.len() as int) =~= v@.subrange(
                    pos + 1,
                    n as int,
                ));
            }
            let is_dot = cur.len() == 1 && cur[0] == '.';
            proof {
                if cur@.len() == 1 {
                    if cur@[0] == '.' {
                        assert(cur@ =~= dot());
                    } else {
                        assert(cur@[0] != dot()[0]);
                    }
                } else {
                    assert(cur@.len() != dot().len());
                }
            }
            if cur.len() > 0 && !is_dot {
                let ghost before = out@;
                out.push(cur);
                proof {
                    assert(views(out@) =~= views(before) + seq![cur@]);
                }
            }
            cur = Vec::new();
            proof {
                start = pos + 1;
            }
        } else {
            cur.push(c);
        }
        pos = pos + 1;
        proof {
            assert(cur@ =~= v@.subrange(start, pos as int));
        }
    }
    proof {
        let s = v@.subrange(start, n as int);
        assert(s =~= cur@);
        lemma_no_slash(s);
    }
    let is_dot = cur.len() == 1 && cur[0] == '.';
    proof {
        if cur@.len() == 1 {
            if cur@[0] == '.' {
                assert(cur@ =~= dot());
            } else {
                assert(cur@[0] != dot()[0]);
            }
        } else {
            assert(cur@.len() != dot().len());
        }
    }
    if cur.len() > 0 && !is_dot {
        let ghost before = out@;
        out.push(cur);
        proof {
            assert(views(out@) =~= views(before) + seq![cur@]);
        }
    } else {
        proof {
            assert(views(out@) + seq![] =~= views(out@));
        }
    }
    out
}

proof fn lemma_first_slash_prefix(s: Seq<char>, k: int)
    requires
        0 <= k < s.len(),
        s[k] == '/',
        forall|j: int| 0 <= j < k ==> s[j] != '/',
    ensures
        first_slash(s) == k,
    decreases k,
{
    if k > 0 {
        lemma_first_slash_prefix(s.drop_first(), k - 1);
    }
}

proof fn lemma_no_slash(s: Seq<char>)
    requires
        forall|j: int| 0 <= j < s.len() ==> s[j] != '/',
    ensures
        first_slash(s) == -1,
    decreases s.len(),
{
    if s.len() > 0 {
        lemma_no_slash(s.drop_first());
    }
}

/// `Path::components` as a list of strings (a leading `.` included).
pub fn components_vec(path: &str) -> (r: Vec<Vec<char>>)
    ensures
        views(r@) == components(path@),
{
    let v = chars_of(path);
    let cs = comps_vec(v.as_slice());
    if v.len() > 0 && v[0] == '.' && (v.len() == 1 || v[1] == '/') {
        let mut out: Vec<Vec<char>> = Vec::new();
        let mut d: Vec<char> = Vec::new();
        d.push('.');
        out.push(d);
        let ghost first = out@;
        let mut rest = cs;
        out.append(&mut rest);
        assert(views(out@) =~= seq![dot()] + views(cs@));
        out
    } else {
        cs
    }
}

/// Joins the pieces with `/` between consecutive ones.
pub fn join_slash(parts: &Vec<Vec<char>>, from: usize) -> (r: Vec<char>)
    requires
        from <= parts@.len(),
    ensures
        r@ == join_with(views(parts@).subrange(from as int, parts@.len() as int), seq!['/']),
{
    let mut out: Vec<char> = Vec::new();
    let mut i: usize = from;
    proof {
        assert(views(parts@).subrange(from as int, from as int) =~= Seq::<Seq<char>>::empty());
    }
    while i < parts.len()
        invariant
            from <= i <= parts@.len(),
            out@ == join_with(views(parts@).subrange(from as int, i as int), seq!['/']),
        decreases parts@.len() - i,
    {
        let ghost prev = views(parts@).subrange(from as int, i as int);
        let ghost next = views(parts@).subrange(from as int, i + 1);
        assert(next.drop_last() =~= prev);
        let ghost old_out = out@;
        if i > from {
            out.push('/');
        }
        let piece = &parts[i];
        let mut j: usize = 0;
        let ghost base = out@;
        while j < piece.len()
            invariant
                j <= piece@.len(),
                out@ == base + piece@.subrange(0, j as int),
            decreases piece@.len() - j,
        {
            out.push(piece[j]);
            j = j + 1;
            assert(out@ =~= base + piece@.subrange(0, j as int));
        }
        proof {
            assert(piece@.subrange(0, piece@.len() as int) =~= piece@);
            assert(next.last() == piece@);
            if i > from {
                assert(old_out == prev_join(prev));
                assert(base == old_out + seq!['/']);
                assert(out@ =~= prev_join(prev) + seq!['/'] + piece@);
                assert(next.len() >= 2);
                assert(join_with(next, seq!['/']) == join_with(next.drop_last(), seq!['/']) + seq!['/'] + next.last());
            } else {
                assert(prev.len() == 0);
                assert(out@ =~= piece@);
            }
        }
        i = i + 1;
    }
    out
}

spec fn prev_join(prev: Seq<Seq<char>>) -> Seq<char> {
    join_with(prev, seq!['/'])
}

/// `Path::strip_prefix`, with the remaining components joined by `/`.
pub fn strip_prefix_joined(path: &str, base: &str) -> (r: Option<Vec<char>>)
    ensures
        match r {
            Some(rest) => strip_prefix(path@, base@) matches Some(cs) && rest@ == join_with(
                cs,
                seq!['/'],
            ),
            None => strip_prefix(path@, base@) is None,
        },
{
    let pc = components_vec(path);
    let bc = components_vec(base);
    if is_absolute_path(path) != is_absolute_path(base) || bc.len() > pc.len() {
        assert(views(bc@).len() == bc@.len() && views(pc@).len() == pc@.len());
        return None;
    }
    let mut i: usize = 0;
    while i < bc.len()
        invariant
            bc@.len() <= pc@.len(),
            views(pc@) == components(path@),
            views(bc@) == components(base@),
            is_absolute(path@) == is_absolute(base@),
            i <= bc@.len(),
            forall|k: int| 0 <= k < i ==> views(pc@)[k] == views(bc@)[k],
        decreases bc@.len() - i,
    {
        if !chars_eq(pc[i].as_slice(), bc[i].as_slice()) {
            proof {
                assert(views(pc@).subrange(0, bc@.len() as int)[i as int] != views(bc@)[i as int]);
                assert(views(pc@).subrange(0, bc@.len() as int) != views(bc@));
            }
            return None;
        }
        i = i + 1;
    }
    proof {
        assert(views(pc@).subrange(0, bc@.len() as int) =~= views(bc@));
    }
    let joined = join_slash(&pc, bc.len());
    Some(joined)
}

} // verus!
