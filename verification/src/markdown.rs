//! Markdown artifacts (transcripts and summaries) carry a YAML front-matter
//! block describing their session. This module renders that block and strips a
//! previous one from an existing document.
use crate::paths::string_views;
use crate::session::SessionMeta;
use crate::text::{
    self, chars_contain_char, chars_of, find_char_from, first_index, string_from_chars, sub_vec,
    trim_bounds, trim_str,
};
use vstd::prelude::*;

verus! {

broadcast use vstd::string::group_string_axioms;

/// The escaped form of one character inside a double-quoted YAML scalar.
pub open spec fn yaml_escape_char(c: char) -> Seq<char> {
    if c == '\\' {
        seq!['\\', '\\']
    } else if c == '"' {
        seq!['\\', '"']
    } else if c == '\n' {
        seq!['\\', 'n']
    } else if c == '\r' {
        seq!['\\', 'r']
    } else if c == '\t' {
        seq!['\\', 't']
    } else {
        seq![c]
    }
}

pub open spec fn yaml_escape(s: Seq<char>) -> Seq<char>
    decreases s.len(),
{
    if s.len() == 0 {
        seq![]
    } else {
        yaml_escape(s.drop_last()) + yaml_escape_char(s.last())
    }
}

/// `value` as a double-quoted YAML scalar.
pub open spec fn yaml_quoted(s: Seq<char>) -> Seq<char> {
    seq!['"'] + yaml_escape(s) + seq!['"']
}

/// `s` without any occurrence of `c`.
pub open spec fn remove_char(s: Seq<char>, c: char) -> Seq<char>
    decreases s.len(),
{
    if s.len() == 0 {
        seq![]
    } else if s.last() == c {
        remove_char(s.drop_last(), c)
    } else {
        remove_char(s.drop_last(), c).push(s.last())
    }
}

/// Every line of `s` (as `str::lines` splits it) indented by two spaces and
/// terminated by a newline.
pub open spec fn indented_lines(s: Seq<char>) -> Seq<char>
    decreases s.len(),
{
    if s.len() == 0 {
        seq![]
    } else {
        let i = first_index(s, '\n');
        if i < 0 {
            "  "@ + s + "\n"@
        } else {
            proof {
                text::lemma_first_index(s, '\n');
            }
            "  "@ + s.subrange(0, i) + "\n"@ + indented_lines(s.subrange(i + 1, s.len() as int))
        }
    }
}

/// The `notes:` entry: empty quotes for blank notes, a quoted scalar for a
/// single line, a literal block for several lines. Carriage returns are dropped.
pub open spec fn notes_entry(notes: Seq<char>) -> Seq<char> {
    let n = remove_char(notes, '\r');
    if text::trim(n).len() == 0 {
        "notes: \"\"\n"@
    } else if !text::contains_char(n, '\n') {
        "notes: "@ + yaml_quoted(text::trim(n)) + "\n"@
    } else {
        "notes: |\n"@ + indented_lines(n)
    }
}

/// The `date:` entry, omitted when the date is blank.
pub open spec fn date_entry(date: Seq<char>) -> Seq<char> {
    if text::trim(date).len() == 0 {
        seq![]
    } else {
        "date: "@ + text::trim(date) + "\n"@
    }
}

/// One list item per tag that is not blank, trimmed and quoted.
pub open spec fn tag_entries(tags: Seq<Seq<char>>) -> Seq<char>
    decreases tags.len(),
{
    if tags.len() == 0 {
        seq![]
    } else {
        let t = text::trim(tags.last());
        tag_entries(tags.drop_last()) + if t.len() == 0 {
            seq![]
        } else {
            "  - "@ + yaml_quoted(t) + "\n"@
        }
    }
}

/// The whole front-matter block of a session, followed by a blank line.
pub open spec fn frontmatter(
    source: Seq<char>,
    tags: Seq<Seq<char>>,
    notes: Seq<char>,
    topic: Seq<char>,
    date: Seq<char>,
) -> Seq<char> {
    "---\n"@ + "source: "@ + yaml_quoted(text::trim(source)) + "\n"@ + "tags:\n"@ + tag_entries(tags)
        + notes_entry(notes) + "topic: "@ + yaml_quoted(text::trim(topic)) + "\n"@ + date_entry(
        date,
    ) + "---\n\n"@
}

pub open spec fn meta_frontmatter(meta: SessionMeta) -> Seq<char> {
    frontmatter(
        meta.source@,
        string_views(meta.tags@),
        meta.notes@,
        meta.topic@,
        meta.display_date_ru@,
    )
}

/// `value` quoted for YAML.
pub fn yaml_quote(value: &str) -> (r: String)
    ensures
        r@ == yaml_quoted(value@),
{
    let v = chars_of(value);
    let mut out: Vec<char> = Vec::new();
    out.push('"');
    let mut i: usize = 0;
    while i < v.len()
        invariant
            i <= v@.len(),
            out@ == seq!['"'] + yaml_escape(v@.subrange(0, i as int)),
        decreases v@.len() - i,
    {
        let c = v[i];
        if c == '\\' {
            out.push('\\');
            out.push('\\');
        } else if c == '"' {
            out.push('\\');
            out.push('"');
        } else if c == '\n' {
            out.push('\\');
            out.push('n');
        } else if c == '\r' {
            out.push('\\');
            out.push('r');
        } else if c == '\t' {
            out.push('\\');
            out.push('t');
        } else {
            out.push(c);
        }
        i = i + 1;
        proof {
            assert(v@.subrange(0, i as int).drop_last() =~= v@.subrange(0, i - 1));
            assert(out@ =~= seq!['"'] + yaml_escape(v@.subrange(0, i as int)));
        }
    }
    out.push('"');
    proof {
        assert(v@.subrange(0, v@.len() as int) =~= v@);
    }
    string_from_chars(out.as_slice())
}

/// `s` with every carriage return removed.
fn without_cr(v: &[char]) -> (r: Vec<char>)
    ensures
        r@ == remove_char(v@, '\r'),
{
    let mut out: Vec<char> = Vec::new();
    let mut i: usize = 0;
    while i < v.len()
        invariant
            i <= v@.len(),
            out@ == remove_char(v@.subrange(0, i as int), '\r'),
        decreases v@.len() - i,
    {
        if v[i] != '\r' {
            out.push(v[i]);
        }
        i = i + 1;
        proof {
            assert(v@.subrange(0, i as int).drop_last() =~= v@.subrange(0, i - 1));
        }
    }
    proof {
        assert(v@.subrange(0, v@.len() as int) =~= v@);
    }
    out
}

/// Appends the characters of `v[lo..hi)` to `out`.
fn push_range(out: &mut Vec<char>, v: &[char], lo: usize, hi: usize)
    requires
        lo <= hi <= v@.len(),
    ensures
        final(out)@ == old(out)@ + v@.subrange(lo as int, hi as int),
{
    let mut i = lo;
    let ghost base = out@;
    while i < hi
        invariant
            lo <= i <= hi <= v@.len(),
            out@ == base + v@.subrange(lo as int, i as int),
        decreases hi - i,
    {
        out.push(v[i]);
        i = i + 1;
        assert(out@ =~= base + v@.subrange(lo as int, i as int));
    }
}

fn indented_block(v: &[char]) -> (r: Vec<char>)
    ensures
        r@ == indented_lines(v@),
{
    let n = v.len();
    let mut out: Vec<char> = Vec::new();
    let mut pos: usize = 0;
    proof {
        reveal_strlit("  ");
        reveal_strlit("\n");
        assert(v@.subrange(0, n as int) =~= v@);
    }
    while pos < n
        invariant
            n == v@.len(),
            pos <= n,
            out@ + indented_lines(v@.subrange(pos as int, n as int)) == indented_lines(v@),
        decreases n - pos,
    {
        let ghost rest = v@.subrange(pos as int, n as int);
        let ghost before = out@;
        proof {
            reveal_strlit("  ");
            reveal_strlit("\n");
        }
        out.push(' ');
        out.push(' ');
        match find_char_from(v, '\n', pos) {
            Some(k) => {
                push_range(&mut out, v, pos, k);
                out.push('\n');
                proof {
                    assert(rest.subrange(0, k - pos) =~= v@.subrange(pos as int, k as int));
                    assert(rest.subrange(k - pos + 1, rest.len() as int) =~= v@.subrange(
                        k + 1,
                        n as int,
                    ));
                    assert(out@ =~= before + "  "@ + rest.subrange(0, k - pos) + "\n"@);
                }
                pos = k + 1;
            },
            None => {
                push_range(&mut out, v, pos, n);
                out.push('\n');
                proof {
                    assert(out@ =~= before + "  "@ + rest + "\n"@);
                    assert(v@.subrange(n as int, n as int) =~= Seq::<char>::empty());
                }
                pos = n;
            },
        }
    }
    proof {
        assert(v@.subrange(n as int, n as int) =~= Seq::<char>::empty());
        assert(out@ + Seq::<char>::empty() =~= out@);
    }
    out
}

/// The `notes:` entry of the front matter.
pub fn render_notes(notes: &str) -> (r: String)
    ensures
        r@ == notes_entry(notes@),
{
    let v = chars_of(notes);
    let n = without_cr(v.as_slice());
    let (lo, hi) = trim_bounds(n.as_slice());
    if lo == hi {
        return "notes: \"\"\n".to_string();
    }
    if !chars_contain_char(n.as_slice(), '\n') {
        let t = sub_vec(n.as_slice(), lo, hi);
        let ts = string_from_chars(t.as_slice());
        let mut r = "notes: ".to_string();
        r.append(yaml_quote(ts.as_str()).as_str());
        r.append("\n");
        return r;
    }
    let block = indented_block(n.as_slice());
    let mut r = "notes: |\n".to_string();
    r.append(string_from_chars(block.as_slice()).as_str());
    r
}

/// The `date:` entry of the front matter.
pub fn render_date(display_date_ru: &str) -> (r: String)
    ensures
        r@ == date_entry(display_date_ru@),
{
    let t = trim_str(display_date_ru);
    if t.unicode_len() == 0 {
        String::new()
    } else {
        let mut r = "date: ".to_string();
        r.append(t);
        r.append("\n");
        r
    }
}

/// The front-matter block for `meta`.
pub fn render_frontmatter(meta: &SessionMeta) -> (r: String)
    ensures
        r@ == meta_frontmatter(*meta),
{
    let mut rendered = "---\n".to_string();
    rendered.append("source: ");
    rendered.append(yaml_quote(trim_str(meta.source.as_str())).as_str());
    rendered.append("\n");
    rendered.append("tags:\n");
    let ghost head = rendered@;
    let mut i: usize = 0;
    while i < meta.tags.len()
        invariant
            i <= meta.tags@.len(),
            rendered@ == head + tag_entries(string_views(meta.tags@).subrange(0, i as int)),
        decreases meta.tags@.len() - i,
    {
        let t = trim_str(meta.tags[i].as_str());
        let ghost prev = rendered@;
        if t.unicode_len() > 0 {
            rendered.append("  - ");
            rendered.append(yaml_quote(t).as_str());
            rendered.append("\n");
        }
        i = i + 1;
        proof {
            let tv = string_views(meta.tags@);
            assert(tv.subrange(0, i as int).drop_last() =~= tv.subrange(0, i - 1));
            assert(tv.subrange(0, i as int).last() == meta.tags@[i - 1]@);
            if t@.len() > 0 {
                assert(rendered@ =~= prev + ("  - "@ + yaml_quoted(t@) + "\n"@));
            } else {
                assert(rendered@ =~= prev + Seq::<char>::empty());
            }
        }
    }
    proof {
        assert(string_views(meta.tags@).subrange(0, meta.tags@.len() as int) =~= string_views(
            meta.tags@,
        ));
    }
    rendered.append(render_notes(meta.notes.as_str()).as_str());
    rendered.append("topic: ");
    rendered.append(yaml_quote(trim_str(meta.topic.as_str())).as_str());
    rendered.append("\n");
    rendered.append(render_date(meta.display_date_ru.as_str()).as_str());
    rendered.append("---\n\n");
    proof {
        let tg = tag_entries(string_views(meta.tags@));
        assert(rendered@ =~= meta_frontmatter(*meta));
    }
    rendered
}

/// The body after its leading newlines are dropped.
pub open spec fn body_without_leading_newlines(body: Seq<char>) -> Seq<char> {
    body.subrange(text::lead_run(body, '\n') as int, body.len() as int)
}

/// A markdown artifact: front matter, then the body without leading newlines.
pub fn render_markdown_artifact(meta: &SessionMeta, body: &str) -> (r: String)
    ensures
        r@ == meta_frontmatter(*meta) + body_without_leading_newlines(body@),
{
    let mut rendered = render_frontmatter(meta);
    let v = chars_of(body);
    let mut k: usize = 0;
    proof {
        text::lemma_lead_run_bound(v@, '\n');
        assert(v@.subrange(0, v@.len() as int) =~= v@);
    }
    while k < v.len() && v[k] == '\n'
        invariant
            k <= v@.len(),
            text::lead_run(v@, '\n') == k + text::lead_run(v@.subrange(k as int, v@.len() as int), '\n'),
        decreases v@.len() - k,
    {
        proof {
            let rest = v@.subrange(k as int, v@.len() as int);
            assert(rest.drop_first() =~= v@.subrange(k + 1, v@.len() as int));
        }
        k = k + 1;
    }
    rendered.append(body.substring_char(k, v.len()));
    rendered
}

/// Length of the opening `---` line of a front-matter block, if `t` starts with one.
pub open spec fn opening_len(t: Seq<char>) -> Option<int> {
    if text::has_prefix(t, seq!['-', '-', '-', '\n']) {
        Some(4)
    } else if text::has_prefix(t, seq!['-', '-', '-', '\r', '\n']) {
        Some(5)
    } else {
        None
    }
}

/// Start of the body after a closing line that ends at `p`: one line break is skipped.
pub open spec fn after_break(t: Seq<char>, p: int) -> int {
    let rest = t.subrange(p, t.len() as int);
    if text::has_prefix(rest, seq!['\r', '\n']) {
        p + 2
    } else if text::has_prefix(rest, seq!['\n']) {
        p + 1
    } else {
        p
    }
}

/// A line with one trailing carriage return removed.
pub open spec fn strip_cr(line: Seq<char>) -> Seq<char> {
    if line.len() > 0 && line.last() == '\r' {
        line.drop_last()
    } else {
        line
    }
}

/// Scanning complete lines from `cur`: the start of the body after the first
/// `---` line, if such a line is found before the text runs out of newlines.
pub open spec fn closing_from(t: Seq<char>, cur: int) -> Option<int>
    decreases t.len() - cur,
{
    if cur < 0 || cur >= t.len() {
        None
    } else {
        let rel = first_index(t.subrange(cur, t.len() as int), '\n');
        if rel < 0 || cur + rel >= t.len() {
            None
        } else if strip_cr(t.subrange(cur, cur + rel)) == seq!['-', '-', '-'] {
            Some(after_break(t, cur + rel + 1))
        } else {
            closing_from(t, cur + rel + 1)
        }
    }
}

/// The document with a leading front-matter block removed; unchanged when it
/// has no complete block at its start.
pub open spec fn stripped(t: Seq<char>) -> Seq<char> {
    match opening_len(t) {
        None => t,
        Some(k) => match closing_from(t, k) {
            None => t,
            Some(b) => t.subrange(b, t.len() as int),
        },
    }
}

fn starts_with_at(v: &[char], pos: usize, p: &[char]) -> (r: bool)
    requires
        pos <= v@.len(),
    ensures
        r == text::has_prefix(v@.subrange(pos as int, v@.len() as int), p@),
{
    let rest = sub_vec(v, pos, v.len());
    text::chars_start_with(rest.as_slice(), p)
}

fn is_dashes_line(v: &[char], lo: usize, hi: usize) -> (r: bool)
    requires
        lo <= hi <= v@.len(),
    ensures
        r == (strip_cr(v@.subrange(lo as int, hi as int)) == seq!['-', '-', '-']),
{
    let ghost line = v@.subrange(lo as int, hi as int);
    let mut end = hi;
    if hi > lo && v[hi - 1] == '\r' {
        end = hi - 1;
    }
    proof {
        assert(strip_cr(line) =~= v@.subrange(lo as int, end as int));
    }
    let r = end - lo == 3 && v[lo] == '-' && v[lo + 1] == '-' && v[lo + 2] == '-';
    proof {
        let s = v@.subrange(lo as int, end as int);
        let d = seq!['-', '-', '-'];
        if r {
            assert(s =~= d);
        } else if end - lo == 3 {
            if v@[lo as int] != '-' {
                assert(s[0] != d[0]);
            } else if v@[lo + 1] != '-' {
                assert(s[1] != d[1]);
            } else {
                assert(s[2] != d[2]);
            }
        } else {
            assert(s.len() != d.len());
        }
    }
    r
}

/// `text` without the YAML front-matter block at its start.
pub fn strip_frontmatter(text: &str) -> (r: &str)
    ensures
        r@ == stripped(text@),
{
    let v = chars_of(text);
    let n = v.len();
    let open1 = vec!['-', '-', '-', '\n'];
    let open2 = vec!['-', '-', '-', '\r', '\n'];
    proof {
        assert(v@.subrange(0, n as int) =~= v@);
    }
    let c1 = starts_with_at(v.as_slice(), 0, open1.as_slice());
    let c2 = starts_with_at(v.as_slice(), 0, open2.as_slice());
    proof {
        assert(open1@ =~= seq!['-', '-', '-', '\n']);
        assert(open2@ =~= seq!['-', '-', '-', '\r', '\n']);
    }
    if !c1 && !c2 {
        return text;
    }
    let mut cursor: usize = if c1 { 4 } else { 5 };
    let ghost k = cursor as int;
    proof { assert(opening_len(v@) == Some(k)); }
    while cursor < n
        invariant
            n == v@.len(),
            v@ == text@,
            cursor <= n,
            opening_len(v@) == Some(k),
            closing_from(v@, k) == closing_from(v@, cursor as int),
        decreases n - cursor,
    {
        let ghost rest = v@.subrange(cursor as int, n as int);
        match find_char_from(v.as_slice(), '\n', cursor) {
            None => {
                proof {
                    assert(closing_from(v@, cursor as int) is None);
                }
                return text;
            },
            Some(nl) => {
                proof {
                    text::lemma_first_index(rest, '\n');
                    assert(first_index(rest, '\n') == nl - cursor);
                }
                if is_dashes_line(v.as_slice(), cursor, nl) {
                    let crlf = vec!['\r', '\n'];
                    let lf = vec!['\n'];
                    let c1 = starts_with_at(v.as_slice(), nl + 1, crlf.as_slice());
                    let c2 = starts_with_at(v.as_slice(), nl + 1, lf.as_slice());
                    proof {
                        assert(crlf@ =~= seq!['\r', '\n']);
                        assert(lf@ =~= seq!['\n']);
                    }
                    let body_start = if c1 {
                        nl + 3
                    } else if c2 {
                        nl + 2
                    } else {
                        nl + 1
                    };
                    proof {
                        assert(body_start as int == after_break(v@, nl + 1));
                        let t = v@;
                        let cur = cursor as int;
                        assert(t.subrange(cur, t.len() as int) == rest);
                        let rel = first_index(t.subrange(cur, t.len() as int), '\n');
                        assert(rel == nl - cursor);
                        assert(cur + rel == nl as int);
                        assert(strip_cr(t.subrange(cur, nl as int)) == seq!['-', '-', '-']);
                        assert(closing_from(t, cur) == Some(after_break(t, nl + 1)));
                    }
                    return text.substring_char(body_start, n);
                }
                proof {
                    let t = v@;
                    let cur = cursor as int;
                    assert(t.subrange(cur, t.len() as int) == rest);
                    assert(strip_cr(t.subrange(cur, nl as int)) != seq!['-', '-', '-']);
                    assert(closing_from(t, cur) == closing_from(t, nl + 1));
                }
                cursor = nl + 1;
            },
        }
    }
    text
}

// ------------------------------------------------------------------ laws

pub open spec fn separator() -> Seq<char> {
    seq!['-', '-', '-']
}

/// Complete lines, each ended by a line feed, none of which is a `---`
/// separator: text that a front-matter scan passes over.
pub open spec fn plain_lines(b: Seq<char>) -> bool
    decreases b.len(),
{
    if b.len() == 0 {
        true
    } else {
        let i = first_index(b, '\n');
        if i < 0 {
            false
        } else {
            proof {
                text::lemma_first_index(b, '\n');
            }
            strip_cr(b.subrange(0, i)) != separator() && plain_lines(b.subrange(i + 1, b.len() as int))
        }
    }
}

proof fn lemma_skip_plain(t: Seq<char>, cur: int, m: int)
    requires
        0 <= cur,
        0 <= m,
        cur + m <= t.len(),
        plain_lines(t.subrange(cur, cur + m)),
    ensures
        closing_from(t, cur) == closing_from(t, cur + m),
    decreases m,
{
    if m > 0 {
        let b = t.subrange(cur, cur + m);
        let rest = t.subrange(cur, t.len() as int);
        text::lemma_first_index(b, '\n');
        let i = first_index(b, '\n');
        assert(rest[i] == b[i]);
        assert forall|j: int| 0 <= j < i implies rest[j] != '\n' by {
            assert(rest[j] == b[j]);
        }
        text::lemma_first_index_at(rest, '\n', i);
        assert(t.subrange(cur, cur + i) =~= b.subrange(0, i));
        assert(b.subrange(i + 1, b.len() as int) =~= t.subrange(cur + i + 1, cur + m));
        lemma_skip_plain(t, cur + i + 1, m - i - 1);
    }
}

proof fn lemma_plain_concat(x: Seq<char>, y: Seq<char>)
    requires
        plain_lines(x),
        plain_lines(y),
    ensures
        plain_lines(x + y),
    decreases x.len(),
{
    if x.len() == 0 {
        assert(x + y =~= y);
    } else {
        text::lemma_first_index(x, '\n');
        let i = first_index(x, '\n');
        let xy = x + y;
        assert forall|j: int| 0 <= j < i implies xy[j] != '\n' by {
            assert(xy[j] == x[j]);
        }
        text::lemma_first_index_at(xy, '\n', i);
        assert(xy.subrange(0, i) =~= x.subrange(0, i));
        lemma_plain_concat(x.subrange(i + 1, x.len() as int), y);
        assert(xy.subrange(i + 1, xy.len() as int) =~= x.subrange(i + 1, x.len() as int) + y);
    }
}

pub open spec fn no_newline(s: Seq<char>) -> bool {
    forall|j: int| 0 <= j < s.len() ==> s[j] != '\n'
}

proof fn lemma_plain_line(l: Seq<char>)
    requires
        no_newline(l),
        l.len() > 0,
        l[0] != '-',
    ensures
        plain_lines(l + seq!['\n']),
{
    let x = l + seq!['\n'];
    assert forall|j: int| 0 <= j < l.len() implies x[j] != '\n' by {
        assert(x[j] == l[j]);
    }
    text::lemma_first_index_at(x, '\n', l.len() as int);
    assert(x.subrange(0, l.len() as int) =~= l);
    assert(x.subrange(l.len() as int + 1, x.len() as int) =~= Seq::<char>::empty());
    if l.last() == '\r' {
        if l.drop_last() == separator() {
            assert(l.drop_last().len() == 3);
            assert(l.len() == 4);
            assert(l.drop_last() =~= l.subrange(0, 3));
            assert(l.subrange(0, 3)[0] == l[0]);
        }
    } else {
        if l == separator() {
            assert(separator()[0] == '-');
        }
    }
    assert(strip_cr(l) != separator());
    assert(plain_lines(x.subrange(l.len() as int + 1, x.len() as int)));
}

proof fn lemma_no_newline_concat(a: Seq<char>, b: Seq<char>)
    requires
        no_newline(a),
        no_newline(b),
    ensures
        no_newline(a + b),
{
    assert forall|j: int| 0 <= j < (a + b).len() implies (a + b)[j] != '\n' by {
        if j < a.len() {
            assert((a + b)[j] == a[j]);
        } else {
            assert((a + b)[j] == b[j - a.len()]);
        }
    }
}

proof fn lemma_escape_no_newline(s: Seq<char>)
    ensures
        no_newline(yaml_escape(s)),
        no_newline(yaml_quoted(s)),
    decreases s.len(),
{
    if s.len() > 0 {
        lemma_escape_no_newline(s.drop_last());
        lemma_no_newline_concat(yaml_escape(s.drop_last()), yaml_escape_char(s.last()));
    }
    lemma_no_newline_concat(seq!['"'], yaml_escape(s));
    lemma_no_newline_concat(seq!['"'] + yaml_escape(s), seq!['"']);
}

/// `label` followed by a quoted value on one line.
proof fn lemma_quoted_line(label: Seq<char>, v: Seq<char>)
    requires
        no_newline(label),
        label.len() > 0,
        label[0] != '-',
    ensures
        plain_lines(label + yaml_quoted(v) + seq!['\n']),
{
    lemma_escape_no_newline(v);
    lemma_no_newline_concat(label, yaml_quoted(v));
    lemma_plain_line(label + yaml_quoted(v));
}

proof fn lemma_tag_entries_plain(tags: Seq<Seq<char>>)
    ensures
        plain_lines(tag_entries(tags)),
    decreases tags.len(),
{
    if tags.len() > 0 {
        lemma_tag_entries_plain(tags.drop_last());
        let t = text::trim(tags.last());
        if t.len() == 0 {
            assert(tag_entries(tags) =~= tag_entries(tags.drop_last()));
        } else {
            reveal_strlit("  - ");
            reveal_strlit("\n");
            assert("\n"@ =~= seq!['\n']);
            lemma_quoted_line("  - "@, t);
            lemma_plain_concat(tag_entries(tags.drop_last()), "  - "@ + yaml_quoted(t) + "\n"@);
        }
    }
}

proof fn lemma_indented_plain(s: Seq<char>)
    ensures
        plain_lines(indented_lines(s)),
    decreases s.len(),
{
    reveal_strlit("  ");
    reveal_strlit("\n");
    assert("\n"@ =~= seq!['\n']);
    if s.len() > 0 {
        text::lemma_first_index(s, '\n');
        let i = first_index(s, '\n');
        if i < 0 {
            lemma_no_newline_concat("  "@, s);
            lemma_plain_line("  "@ + s);
        } else {
            let piece = s.subrange(0, i);
            lemma_no_newline_concat("  "@, piece);
            lemma_plain_line("  "@ + piece);
            lemma_indented_plain(s.subrange(i + 1, s.len() as int));
            lemma_plain_concat("  "@ + piece + "\n"@, indented_lines(s.subrange(i + 1, s.len() as int)));
        }
    }
}

proof fn lemma_notes_plain(notes: Seq<char>)
    ensures
        plain_lines(notes_entry(notes)),
{
    reveal_strlit("notes: \"\"\n");
    reveal_strlit("notes: \"\"");
    reveal_strlit("notes: ");
    reveal_strlit("notes: |\n");
    reveal_strlit("notes: |");
    reveal_strlit("\n");
    assert("\n"@ =~= seq!['\n']);
    let n = remove_char(notes, '\r');
    if text::trim(n).len() == 0 {
        lemma_plain_line("notes: \"\""@);
        assert("notes: \"\"\n"@ =~= "notes: \"\""@ + seq!['\n']);
    } else if !text::contains_char(n, '\n') {
        lemma_quoted_line("notes: "@, text::trim(n));
    } else {
        lemma_plain_line("notes: |"@);
        assert("notes: |\n"@ =~= "notes: |"@ + seq!['\n']);
        lemma_indented_plain(n);
        lemma_plain_concat("notes: |\n"@, indented_lines(n));
    }
}

/// The lines between the opening and the closing `---` of a session's
/// front matter.
pub open spec fn frontmatter_fields(
    source: Seq<char>,
    tags: Seq<Seq<char>>,
    notes: Seq<char>,
    topic: Seq<char>,
    date: Seq<char>,
) -> Seq<char> {
    "source: "@ + yaml_quoted(text::trim(source)) + "\n"@ + "tags:\n"@ + tag_entries(tags)
        + notes_entry(notes) + "topic: "@ + yaml_quoted(text::trim(topic)) + "\n"@ + date_entry(date)
}

proof fn lemma_fields_plain(
    source: Seq<char>,
    tags: Seq<Seq<char>>,
    notes: Seq<char>,
    topic: Seq<char>,
    date: Seq<char>,
)
    requires
        plain_lines(date_entry(date)),
    ensures
        plain_lines(frontmatter_fields(source, tags, notes, topic, date)),
        frontmatter(source, tags, notes, topic, date) == "---\n"@ + frontmatter_fields(
            source,
            tags,
            notes,
            topic,
            date,
        ) + "---\n\n"@,
{
    reveal_strlit("source: ");
    reveal_strlit("\n");
    reveal_strlit("tags:\n");
    reveal_strlit("tags:");
    reveal_strlit("topic: ");
    assert("\n"@ =~= seq!['\n']);
    let a = "source: "@ + yaml_quoted(text::trim(source)) + "\n"@;
    lemma_quoted_line("source: "@, text::trim(source));
    lemma_plain_line("tags:"@);
    assert("tags:\n"@ =~= "tags:"@ + seq!['\n']);
    lemma_tag_entries_plain(tags);
    lemma_notes_plain(notes);
    let e = "topic: "@ + yaml_quoted(text::trim(topic)) + "\n"@;
    lemma_quoted_line("topic: "@, text::trim(topic));
    lemma_plain_concat(a, "tags:\n"@);
    lemma_plain_concat(a + "tags:\n"@, tag_entries(tags));
    lemma_plain_concat(a + "tags:\n"@ + tag_entries(tags), notes_entry(notes));
    lemma_plain_concat(a + "tags:\n"@ + tag_entries(tags) + notes_entry(notes), e);
    lemma_plain_concat(a + "tags:\n"@ + tag_entries(tags) + notes_entry(notes) + e, date_entry(date));
    assert(frontmatter_fields(source, tags, notes, topic, date) =~= a + "tags:\n"@ + tag_entries(tags)
        + notes_entry(notes) + e + date_entry(date));
    assert(frontmatter(source, tags, notes, topic, date) =~= "---\n"@ + frontmatter_fields(
        source,
        tags,
        notes,
        topic,
        date,
    ) + "---\n\n"@);
}

/// The front matter a session's date leaves intact: its `date:` entry holds
/// no line that reads `---`.
pub open spec fn date_is_plain(meta: SessionMeta) -> bool {
    plain_lines(date_entry(meta.display_date_ru@))
}

/// Stripping the front matter off a rendered artifact gives back exactly
/// the text rendered after it.
pub proof fn lemma_strip_after_render(meta: SessionMeta, body: Seq<char>)
    requires
        date_is_plain(meta),
    ensures
        stripped(meta_frontmatter(meta) + body) == body,
{
    let f = frontmatter_fields(
        meta.source@,
        string_views(meta.tags@),
        meta.notes@,
        meta.topic@,
        meta.display_date_ru@,
    );
    lemma_fields_plain(
        meta.source@,
        string_views(meta.tags@),
        meta.notes@,
        meta.topic@,
        meta.display_date_ru@,
    );
    reveal_strlit("---\n");
    reveal_strlit("---\n\n");
    let t = "---\n"@ + f + "---\n\n"@ + body;
    assert(meta_frontmatter(meta) + body =~= t);
    assert(t.subrange(0, 4) =~= seq!['-', '-', '-', '\n']);
    assert(opening_len(t) == Some(4int));
    assert(t.subrange(4, 4 + f.len() as int) =~= f);
    lemma_skip_plain(t, 4, f.len() as int);
    let cur: int = 4 + f.len() as int;
    let rest = t.subrange(cur, t.len() as int);
    assert(rest =~= "---\n\n"@ + body);
    assert(rest[3] == '\n');
    text::lemma_first_index_at(rest, '\n', 3);
    assert(t.subrange(cur, cur + 3) =~= separator());
    let rest2 = t.subrange(cur + 4, t.len() as int);
    assert(rest2 =~= seq!['\n'] + body);
    assert(!text::has_prefix(rest2, seq!['\r', '\n']));
    assert(rest2.subrange(0, 1) =~= seq!['\n']);
    assert(after_break(t, cur + 4) == cur + 5);
    assert(t.subrange(cur + 5, t.len() as int) =~= body);
}

/// A body without leading newlines has none to drop.
pub proof fn lemma_body_trim_idempotent(body: Seq<char>)
    ensures
        body_without_leading_newlines(body_without_leading_newlines(body))
            == body_without_leading_newlines(body),
    decreases body.len(),
{
    text::lemma_lead_run_bound(body, '\n');
    let b = body_without_leading_newlines(body);
    if body.len() > 0 && body[0] == '\n' {
        lemma_body_trim_idempotent(body.drop_first());
        assert(body.drop_first().subrange(
            text::lead_run(body.drop_first(), '\n') as int,
            body.drop_first().len() as int,
        ) =~= b);
    } else {
        assert(b =~= body);
        if b.len() > 0 {
            assert(text::lead_run(b, '\n') == 0);
        }
        assert(b.subrange(0, b.len() as int) =~= b);
    }
}

/// The document a refresh writes: the session's current front matter, then
/// the body of what is there now.
pub open spec fn refreshed_text(current: Seq<char>, meta: SessionMeta) -> Seq<char> {
    meta_frontmatter(meta) + body_without_leading_newlines(stripped(current))
}

/// Refreshing an artifact under new session details keeps its body.
pub proof fn lemma_refresh_keeps_body(old_meta: SessionMeta, new_meta: SessionMeta, body: Seq<char>)
    requires
        date_is_plain(old_meta),
    ensures
        refreshed_text(meta_frontmatter(old_meta) + body_without_leading_newlines(body), new_meta)
            == meta_frontmatter(new_meta) + body_without_leading_newlines(body),
{
    lemma_strip_after_render(old_meta, body_without_leading_newlines(body));
    lemma_body_trim_idempotent(body);
}

/// What a refresh of a stored artifact writes: nothing for a blank file or
/// when the refreshed text is what is stored already, else the refreshed
/// text.
pub fn refreshed_markdown(current: &str, meta: &SessionMeta) -> (r: Option<String>)
    ensures
        text::trim(current@).len() == 0 ==> r is None,
        text::trim(current@).len() > 0 ==> match r {
            Some(t) => t@ == refreshed_text(current@, *meta) && t@ != current@,
            None => refreshed_text(current@, *meta) == current@,
        },
{
    if text::is_blank(current) {
        return None;
    }
    let body = strip_frontmatter(current);
    let rendered = render_markdown_artifact(meta, body);
    if text::str_eq(rendered.as_str(), current) {
        None
    } else {
        Some(rendered)
    }
}

/// Refreshing an artifact with the session details it was rendered with
/// writes nothing.
pub proof fn lemma_refresh_is_stable(meta: SessionMeta, body: Seq<char>)
    requires
        date_is_plain(meta),
    ensures
        refreshed_text(meta_frontmatter(meta) + body_without_leading_newlines(body), meta)
            == meta_frontmatter(meta) + body_without_leading_newlines(body),
{
    lemma_refresh_keeps_body(meta, meta, body);
}

} // verus!
