//! The API call log: request, response and error records with secrets
//! masked, headers sorted, and bodies laid out line by line.
use crate::archive::{goes_before, is_archive_order, archive_order};
use crate::paths::{self, join_with, string_views};
use crate::pipeline::{block_lines, format_multiline_block};
use crate::text::{
    self, chars_of, chars_start_with, contains_seq, decimal_string, eq_ignore_ascii_case, has_prefix, occurs_at,
    string_from_chars, trim_str,
};
use vstd::prelude::*;

verus! {

broadcast use vstd::string::group_string_axioms;

/// Bytes a character takes in UTF-8.
pub open spec fn utf8_len(c: char) -> nat {
    if (c as u32) < 0x80 {
        1
    } else if (c as u32) < 0x800 {
        2
    } else if (c as u32) < 0x10000 {
        3
    } else {
        4
    }
}

/// Bytes a text takes in UTF-8.
pub open spec fn byte_len(s: Seq<char>) -> nat
    decreases s.len(),
{
    if s.len() == 0 {
        0
    } else {
        byte_len(s.drop_last()) + utf8_len(s.last())
    }
}

/// The end of `s` that takes exactly `n` bytes, when a character starts
/// there.
pub open spec fn byte_tail(s: Seq<char>, n: nat) -> Option<Seq<char>>
    decreases s.len(),
{
    if n == 0 {
        Some(Seq::empty())
    } else if s.len() == 0 || utf8_len(s.last()) > n {
        None
    } else {
        match byte_tail(s.drop_last(), (n - utf8_len(s.last())) as nat) {
            Some(t) => Some(t.push(s.last())),
            None => None,
        }
    }
}

/// A secret as logged: `***` for short ones, else `***` and its last four
/// bytes.
pub open spec fn masked(value: Seq<char>) -> Seq<char> {
    let t = text::trim(value);
    if byte_len(t) <= 8 {
        "***"@
    } else {
        "***"@ + byte_tail(t, 4)->0
    }
}

/// The secrets whose last four bytes start a character (the others cannot
/// be cut there).
pub open spec fn maskable(value: Seq<char>) -> bool {
    let t = text::trim(value);
    byte_len(t) <= 8 || byte_tail(t, 4) is Some
}

fn utf8_width(c: char) -> (n: usize)
    ensures
        n == utf8_len(c),
{
    if (c as u32) < 0x80 {
        1
    } else if (c as u32) < 0x800 {
        2
    } else if (c as u32) < 0x10000 {
        3
    } else {
        4
    }
}

proof fn lemma_byte_len_split(s: Seq<char>, i: int)
    requires
        0 <= i <= s.len(),
    ensures
        byte_len(s) == byte_len(s.subrange(0, i)) + byte_len(s.subrange(i, s.len() as int)),
    decreases s.len() - i,
{
    if i < s.len() {
        lemma_byte_len_split(s, i + 1);
        let a = s.subrange(0, i + 1);
        assert(a.drop_last() =~= s.subrange(0, i));
        let b = s.subrange(i, s.len() as int);
        let b1 = s.subrange(i + 1, s.len() as int);
        lemma_byte_len_first(b);
        assert(b.drop_first() =~= b1);
    } else {
        assert(s.subrange(0, i) =~= s);
        assert(s.subrange(i, s.len() as int) =~= Seq::<char>::empty());
    }
}

proof fn lemma_byte_len_first(s: Seq<char>)
    requires
        s.len() > 0,
    ensures
        byte_len(s) == utf8_len(s[0]) + byte_len(s.drop_first()),
    decreases s.len(),
{
    if s.len() > 1 {
        lemma_byte_len_first(s.drop_last());
        assert(s.drop_last().drop_first() =~= s.drop_first().drop_last());
        assert(s.drop_first().last() == s.last());
    } else {
        assert(s.drop_last() =~= Seq::<char>::empty());
        assert(s.drop_first() =~= Seq::<char>::empty());
    }
}

/// Whether the text takes more than `limit` bytes.
fn bytes_exceed(v: &[char], limit: usize) -> (b: bool)
    requires
        limit <= 16,
    ensures
        b == (byte_len(v@) > limit),
{
    let mut total: usize = 0;
    let mut i: usize = 0;
    while i < v.len()
        invariant
            i <= v@.len(),
            limit <= 16,
            total == byte_len(v@.subrange(0, i as int)),
            total <= limit,
        decreases v@.len() - i,
    {
        total = total + utf8_width(v[i]);
        i = i + 1;
        proof {
            assert(v@.subrange(0, i as int).drop_last() =~= v@.subrange(0, i - 1));
        }
        if total > limit {
            proof {
                lemma_byte_len_split(v@, i as int);
            }
            return true;
        }
    }
    proof {
        assert(v@.subrange(0, v@.len() as int) =~= v@);
    }
    false
}

proof fn lemma_byte_tail_step(s: Seq<char>, n: nat)
    requires
        n > 0,
        s.len() > 0,
        utf8_len(s.last()) <= n,
    ensures
        byte_tail(s, n) == (match byte_tail(s.drop_last(), (n - utf8_len(s.last())) as nat) {
            Some(t) => Some(t.push(s.last())),
            None => None::<Seq<char>>,
        }),
{
}

/// The last four bytes of `v`, which must start a character.
fn tail_of_four_bytes(v: &[char]) -> (r: Vec<char>)
    requires
        byte_tail(v@, 4) is Some,
    ensures
        r@ == byte_tail(v@, 4)->0,
{
    let n = v.len();
    let mut need: usize = 4;
    let mut k: usize = n;
    // invariant: the tail of v@[0..k) of `need` bytes, followed by v@[k..n), is the answer
    proof {
        assert(v@.subrange(0, n as int) =~= v@);
        assert(v@.subrange(n as int, n as int) =~= Seq::<char>::empty());
    }
    while need > 0
        invariant
            n == v@.len(),
            k <= n,
            need <= 4,
            byte_tail(v@.subrange(0, k as int), need as nat) is Some,
            byte_tail(v@, 4) == Some(
                byte_tail(v@.subrange(0, k as int), need as nat)->0 + v@.subrange(k as int, n as int),
            ),
        decreases k,
    {
        let ghost pre = v@.subrange(0, k as int);
        let c = v[k - 1];
        let w = utf8_width(c);
        proof {
            assert(pre.last() == c);
            assert(pre.drop_last() =~= v@.subrange(0, k - 1));
            lemma_byte_tail_step(pre, need as nat);
            let inner = byte_tail(v@.subrange(0, k - 1), (need - w) as nat)->0;
            assert(v@.subrange(k - 1, n as int) =~= seq![c] + v@.subrange(k as int, n as int));
            assert(inner.push(c) + v@.subrange(k as int, n as int) =~= inner + v@.subrange(
                k - 1,
                n as int,
            ));
        }
        need = need - w;
        k = k - 1;
    }
    proof {
        assert(byte_tail(v@.subrange(0, k as int), 0) == Some(Seq::<char>::empty()));
        assert(Seq::<char>::empty() + v@.subrange(k as int, n as int) =~= v@.subrange(
            k as int,
            n as int,
        ));
    }
    text::sub_vec(v, k, n)
}

/// The end cut off by `byte_tail` takes exactly the bytes asked for.
proof fn lemma_byte_tail_len(s: Seq<char>, n: nat)
    requires
        byte_tail(s, n) is Some,
    ensures
        byte_len(byte_tail(s, n)->0) == n,
    decreases s.len(),
{
    if n > 0 {
        let m = (n - utf8_len(s.last())) as nat;
        lemma_byte_tail_len(s.drop_last(), m);
        let t = byte_tail(s.drop_last(), m)->0;
        assert(t.push(s.last()).drop_last() =~= t);
    }
}

/// A text found inside another takes no more bytes than it.
proof fn lemma_contained_bytes(a: Seq<char>, b: Seq<char>, i: int)
    requires
        occurs_at(a, b, i),
    ensures
        byte_len(b) <= byte_len(a),
{
    lemma_byte_len_split(a, i);
    let rest = a.subrange(i, a.len() as int);
    lemma_byte_len_split(rest, b.len() as int);
    assert(rest.subrange(0, b.len() as int) =~= b);
}

/// The log never shows a secret: what stands for it holds at most its last
/// four bytes. (A secret that is itself part of `***` is the one exception.)
pub proof fn lemma_masked_secret_is_hidden(value: Seq<char>)
    requires
        maskable(value),
        !contains_seq("***"@, text::trim(value)),
    ensures
        !contains_seq(masked(value), text::trim(value)),
{
    let t = text::trim(value);
    if byte_len(t) > 8 {
        reveal_strlit("***");
        let tail = byte_tail(t, 4)->0;
        lemma_byte_tail_len(t, 4);
        let m = masked(value);
        let stars = "***"@;
        assert(m == stars + tail);
        assert(byte_len(stars) == 3) by {
            assert(stars =~= seq!['*', '*', '*']);
            let s2 = stars.drop_last();
            let s1 = s2.drop_last();
            assert(s1.drop_last() =~= Seq::<char>::empty());
            assert(byte_len(s1.drop_last()) == 0);
            assert(s1.last() == '*' && s2.last() == '*' && stars.last() == '*');
            assert(utf8_len('*') == 1);
            assert(byte_len(s1) == 1);
            assert(byte_len(s2) == 2);
        }
        lemma_byte_len_split(m, 3);
        assert(m.subrange(0, 3) =~= stars);
        assert(m.subrange(3, m.len() as int) =~= tail);
        if contains_seq(m, t) {
            let i = choose|i: int| occurs_at(m, t, i);
            lemma_contained_bytes(m, t, i);
        }
    }
}

/// Masks a secret for the log.
pub fn mask_secret(value: &str) -> (r: String)
    requires
        maskable(value@),
    ensures
        r@ == masked(value@),
{
    let t = chars_of(trim_str(value));
    if !bytes_exceed(t.as_slice(), 8) {
        return "***".to_string();
    }
    let tail = tail_of_four_bytes(t.as_slice());
    let mut r = "***".to_string();
    r.append(string_from_chars(tail.as_slice()).as_str());
    r
}

/// A header value as logged: the credentials of an `Authorization` header
/// masked (keeping a `Bearer ` or `Basic ` scheme), any other value as is.
pub open spec fn logged_header_value(name: Seq<char>, value: Seq<char>) -> Seq<char> {
    if text::ascii_lower_seq(name) != text::ascii_lower_seq("authorization"@) {
        value
    } else if has_prefix(value, "Bearer "@) {
        "Bearer "@ + masked(value.subrange(7, value.len() as int))
    } else if has_prefix(value, "Basic "@) {
        "Basic "@ + masked(value.subrange(6, value.len() as int))
    } else {
        masked(value)
    }
}

/// The header values that can be logged.
pub open spec fn loggable_header(name: Seq<char>, value: Seq<char>) -> bool {
    if text::ascii_lower_seq(name) != text::ascii_lower_seq("authorization"@) {
        true
    } else if has_prefix(value, "Bearer "@) {
        maskable(value.subrange(7, value.len() as int))
    } else if has_prefix(value, "Basic "@) {
        maskable(value.subrange(6, value.len() as int))
    } else {
        maskable(value)
    }
}

pub fn mask_header_value(name: &str, value: &str) -> (r: String)
    requires
        loggable_header(name@, value@),
    ensures
        r@ == logged_header_value(name@, value@),
{
    if !eq_ignore_ascii_case(name, "authorization") {
        return value.to_string();
    }
    let v = chars_of(value);
    let bearer = chars_of("Bearer ");
    let basic = chars_of("Basic ");
    proof {
        reveal_strlit("Bearer ");
        reveal_strlit("Basic ");
    }
    if chars_start_with(v.as_slice(), bearer.as_slice()) {
        let rest = value.substring_char(7, value.unicode_len());
        let mut r = "Bearer ".to_string();
        r.append(mask_secret(rest).as_str());
        r
    } else if chars_start_with(v.as_slice(), basic.as_slice()) {
        let rest = value.substring_char(6, value.unicode_len());
        let mut r = "Basic ".to_string();
        r.append(mask_secret(rest).as_str());
        r
    } else {
        mask_secret(value)
    }
}

/// `name: value` with the value as logged.
pub open spec fn header_line(h: (Seq<char>, Seq<char>)) -> Seq<char> {
    h.0 + ": "@ + logged_header_value(h.0, h.1)
}

pub open spec fn pair_views(v: Seq<(String, String)>) -> Seq<(Seq<char>, Seq<char>)> {
    v.map_values(|p: (String, String)| (p.0@, p.1@))
}

/// The header lines of a log record: sorted by name (headers with the same
/// name in their original order), or `<none>`.
pub open spec fn header_lines(headers: Seq<(Seq<char>, Seq<char>)>, order: Seq<usize>) -> Seq<
    Seq<char>,
> {
    if headers.len() == 0 {
        seq!["<none>"@]
    } else {
        Seq::new(order.len(), |k: int| header_line(headers[order[k] as int]))
    }
}

pub fn format_headers(headers: &Vec<(String, String)>) -> (r: Vec<String>)
    requires
        forall|i: int| 0 <= i < headers@.len() ==> loggable_header(#[trigger] headers@[i].0@, headers@[i].1@),
    ensures
        exists|order: Seq<usize>|
            is_archive_order(pair_views(headers@).map_values(|h: (Seq<char>, Seq<char>)| h.0), order)
                && string_views(r@) == header_lines(pair_views(headers@), order),
{
    let ghost hv = pair_views(headers@);
    let ghost names = hv.map_values(|h: (Seq<char>, Seq<char>)| h.0);
    let mut out: Vec<String> = Vec::new();
    if headers.len() == 0 {
        out.push("<none>".to_string());
        assert(string_views(out@) =~= header_lines(hv, seq![]));
        assert(is_archive_order(names, Seq::<usize>::empty()));
        return out;
    }
    let mut keys: Vec<String> = Vec::new();
    let mut i: usize = 0;
    while i < headers.len()
        invariant
            i <= headers@.len(),
            hv == pair_views(headers@),
            names == hv.map_values(|h: (Seq<char>, Seq<char>)| h.0),
            keys@.len() == i,
            forall|j: int| 0 <= j < i ==> #[trigger] keys@[j]@ == names[j],
        decreases headers@.len() - i,
    {
        keys.push(headers[i].0.clone());
        i = i + 1;
    }
    assert(string_views(keys@) =~= names);
    let order = archive_order(&keys);
    let mut k: usize = 0;
    while k < order.len()
        invariant
            hv == pair_views(headers@),
            names == hv.map_values(|h: (Seq<char>, Seq<char>)| h.0),
            is_archive_order(names, order@),
            headers@.len() > 0,
            forall|i: int| 0 <= i < headers@.len() ==> loggable_header(#[trigger] headers@[i].0@, headers@[i].1@),
            k <= order@.len(),
            out@.len() == k,
            forall|j: int| 0 <= j < k ==> #[trigger] out@[j]@ == header_line(hv[order@[j] as int]),
        decreases order@.len() - k,
    {
        let idx = order[k];
        let (name, value) = (&headers[idx].0, &headers[idx].1);
        let mut line = name.clone();
        line.append(": ");
        line.append(mask_header_value(name.as_str(), value.as_str()).as_str());
        out.push(line);
        k = k + 1;
    }
    assert(string_views(out@) =~= header_lines(hv, order@));
    out
}

/// The body of a logged request.
pub enum LogBody {
    Empty,
    /// A JSON payload, already laid out (pretty-printed) by the caller.
    Json(String),
    Text(String),
    Lines(Vec<String>),
    Binary { content_type: Option<String>, bytes: usize, sha256: String },
}

pub open spec fn body_lines(body: LogBody) -> Seq<Seq<char>> {
    match body {
        LogBody::Empty => seq!["<empty>"@],
        LogBody::Json(t) => block_lines(t@),
        LogBody::Text(t) => block_lines(t@),
        LogBody::Lines(ls) => if ls@.len() == 0 {
            seq!["<empty>"@]
        } else {
            string_views(ls@)
        },
        LogBody::Binary { content_type, bytes, sha256 } => {
            let head = match content_type {
                Some(c) => seq!["content_type: "@ + c@],
                None => seq![],
            };
            head + seq![
                "bytes: "@ + text::decimal(bytes as nat),
                "sha256: "@ + sha256@,
                "content: <binary omitted>"@,
            ]
        },
    }
}

fn copy_lines(v: &Vec<String>) -> (r: Vec<String>)
    ensures
        string_views(r@) == string_views(v@),
{
    let mut out: Vec<String> = Vec::new();
    let mut i: usize = 0;
    while i < v.len()
        invariant
            i <= v@.len(),
            out@.len() == i,
            forall|j: int| 0 <= j < i ==> #[trigger] out@[j]@ == v@[j]@,
        decreases v@.len() - i,
    {
        out.push(v[i].clone());
        i = i + 1;
    }
    assert(string_views(out@) =~= string_views(v@));
    out
}

pub fn format_http_body(body: &LogBody) -> (r: Vec<String>)
    ensures
        string_views(r@) == body_lines(*body),
{
    match body {
        LogBody::Empty => {
            let mut out: Vec<String> = Vec::new();
            out.push("<empty>".to_string());
            assert(string_views(out@) =~= seq!["<empty>"@]);
            out
        },
        LogBody::Json(t) => format_multiline_block(t.as_str()),
        LogBody::Text(t) => format_multiline_block(t.as_str()),
        LogBody::Lines(ls) => {
            if ls.len() == 0 {
                let mut out: Vec<String> = Vec::new();
                out.push("<empty>".to_string());
                assert(string_views(out@) =~= seq!["<empty>"@]);
                out
            } else {
                copy_lines(ls)
            }
        },
        LogBody::Binary { content_type, bytes, sha256 } => {
            let mut out: Vec<String> = Vec::new();
            let ghost head: Seq<Seq<char>> = match content_type {
                Some(c) => seq!["content_type: "@ + c@],
                None => seq![],
            };
            if let Some(c) = content_type {
                let mut l = "content_type: ".to_string();
                l.append(c.as_str());
                out.push(l);
            }
            assert(string_views(out@) =~= head);
            let mut b = "bytes: ".to_string();
            b.append(decimal_string(*bytes as u64).as_str());
            out.push(b);
            let mut s = "sha256: ".to_string();
            s.append(sha256.as_str());
            out.push(s);
            out.push("content: <binary omitted>".to_string());
            assert(string_views(out@) =~= head + seq![
                "bytes: "@ + text::decimal(*bytes as nat),
                "sha256: "@ + sha256@,
                "content: <binary omitted>"@,
            ]);
            out
        },
    }
}

/// What `serde_json` makes of a reply body: the body read as JSON
/// (`serde_json::from_str` into `serde_json::Value`) and laid out again by
/// `serde_json::to_string_pretty`; `None` when it is not JSON.
pub uninterp spec fn spec_pretty_json(text: Seq<char>) -> Option<Seq<char>>;

/// Reads a text as JSON and lays it out with `serde_json`; only the naming
/// of the result is claimed. (Should the layout fail, the value's compact
/// form from `Value::to_string` is given instead.)
#[verifier::external_body]
fn pretty_json_text(text_value: &str) -> (r: Option<String>)
    ensures
        match r {
            Some(p) => spec_pretty_json(text_value@) == Some(p@),
            None => spec_pretty_json(text_value@) is None,
        },
{
    match serde_json::from_str::<serde_json::Value>(text_value) {
        Ok(v) => Some(serde_json::to_string_pretty(&v).unwrap_or_else(|_| v.to_string())),
        Err(_) => None,
    }
}

/// The body lines of a logged reply: `<empty>` for a blank body, the laid
/// out JSON when the body is JSON, else the body's lines.
pub open spec fn response_lines(body: Seq<char>) -> Seq<Seq<char>> {
    if text::trim(body).len() == 0 {
        seq!["<empty>"@]
    } else {
        match spec_pretty_json(body) {
            Some(p) => block_lines(p),
            None => block_lines(body),
        }
    }
}

pub fn format_response_body(body_text: &str) -> (r: Vec<String>)
    ensures
        string_views(r@) == response_lines(body_text@),
{
    if text::is_blank(body_text) {
        let mut out: Vec<String> = Vec::new();
        out.push("<empty>".to_string());
        assert(string_views(out@) =~= seq!["<empty>"@]);
        return out;
    }
    match pretty_json_text(body_text) {
        Some(p) => format_multiline_block(p.as_str()),
        None => format_multiline_block(body_text),
    }
}

/// Lines indented by two spaces.
pub open spec fn indented(ls: Seq<Seq<char>>) -> Seq<Seq<char>> {
    ls.map_values(|l: Seq<char>| "  "@ + l)
}

fn push_indented(out: &mut Vec<String>, ls: &Vec<String>)
    ensures
        string_views(final(out)@) == string_views(old(out)@) + indented(string_views(ls@)),
{
    let mut i: usize = 0;
    while i < ls.len()
        invariant
            i <= ls@.len(),
            string_views(out@) == string_views(old(out)@) + indented(string_views(ls@).subrange(
                0,
                i as int,
            )),
        decreases ls@.len() - i,
    {
        let mut l = "  ".to_string();
        l.append(ls[i].as_str());
        let ghost before = string_views(out@);
        out.push(l);
        i = i + 1;
        proof {
            assert(string_views(out@) =~= before.push("  "@ + ls@[i - 1]@));
            assert(indented(string_views(ls@).subrange(0, i as int)) =~= indented(
                string_views(ls@).subrange(0, i - 1),
            ).push("  "@ + ls@[i - 1]@));
        }
    }
    assert(string_views(ls@).subrange(0, ls@.len() as int) =~= string_views(ls@));
}

fn join_lines(lines: &Vec<String>) -> (r: String)
    ensures
        r@ == join_with(string_views(lines@), "\n"@),
{
    let mut r = String::new();
    let mut i: usize = 0;
    proof {
        reveal_strlit("\n");
        assert(string_views(lines@).subrange(0, 0) =~= Seq::<Seq<char>>::empty());
    }
    while i < lines.len()
        invariant
            i <= lines@.len(),
            "\n"@ == seq!['\n'],
            r@ == join_with(string_views(lines@).subrange(0, i as int), "\n"@),
        decreases lines@.len() - i,
    {
        let ghost prev = string_views(lines@).subrange(0, i as int);
        let ghost next = string_views(lines@).subrange(0, i + 1);
        if i > 0 {
            r.append("\n");
        }
        r.append(lines[i].as_str());
        proof {
            assert(next.drop_last() =~= prev);
            assert(next.last() == lines@[i as int]@);
            if i == 0 {
                assert(next =~= seq![lines@[0]@]);
            }
        }
        i = i + 1;
    }
    assert(string_views(lines@).subrange(0, lines@.len() as int) =~= string_views(lines@));
    r
}

fn labelled(label: &str, value: &str) -> (r: String)
    ensures
        r@ == label@ + value@,
{
    let mut r = label.to_string();
    r.append(value);
    r
}

/// The record of a request about to be sent.
pub open spec fn request_record(
    service: Seq<char>,
    operation: Seq<char>,
    method: Seq<char>,
    url: Seq<char>,
    headers: Seq<Seq<char>>,
    body: Seq<Seq<char>>,
) -> Seq<char> {
    join_with(
        seq![
            "service: "@ + service,
            "operation: "@ + operation,
            "method: "@ + method,
            "url: "@ + url,
            "headers:"@,
        ] + indented(headers) + seq!["body:"@] + indented(body),
        "\n"@,
    )
}

pub fn http_request_record(
    service: &str,
    operation: &str,
    method: &str,
    url: &str,
    header_lines: &Vec<String>,
    body_lines: &Vec<String>,
) -> (r: String)
    ensures
        r@ == request_record(
            service@,
            operation@,
            method@,
            url@,
            string_views(header_lines@),
            string_views(body_lines@),
        ),
{
    let mut lines: Vec<String> = Vec::new();
    lines.push(labelled("service: ", service));
    lines.push(labelled("operation: ", operation));
    lines.push(labelled("method: ", method));
    lines.push(labelled("url: ", url));
    lines.push("headers:".to_string());
    let ghost first = string_views(lines@);
    push_indented(&mut lines, header_lines);
    lines.push("body:".to_string());
    let ghost second = string_views(lines@);
    push_indented(&mut lines, body_lines);
    proof {
        assert(first =~= seq![
            "service: "@ + service@,
            "operation: "@ + operation@,
            "method: "@ + method@,
            "url: "@ + url@,
            "headers:"@,
        ]);
        assert(string_views(lines@) =~= first + indented(string_views(header_lines@)) + seq![
            "body:"@,
        ] + indented(string_views(body_lines@)));
    }
    join_lines(&lines)
}

/// The record of a reply.
pub open spec fn response_record(
    service: Seq<char>,
    operation: Seq<char>,
    status: Seq<char>,
    headers: Seq<Seq<char>>,
    body: Seq<Seq<char>>,
) -> Seq<char> {
    join_with(
        seq!["service: "@ + service, "operation: "@ + operation, "status: "@ + status, "headers:"@]
            + indented(headers) + seq!["body:"@] + indented(body),
        "\n"@,
    )
}

pub fn http_response_record(
    service: &str,
    operation: &str,
    status: &str,
    header_lines: &Vec<String>,
    body_lines: &Vec<String>,
) -> (r: String)
    ensures
        r@ == response_record(
            service@,
            operation@,
            status@,
            string_views(header_lines@),
            string_views(body_lines@),
        ),
{
    let mut lines: Vec<String> = Vec::new();
    lines.push(labelled("service: ", service));
    lines.push(labelled("operation: ", operation));
    lines.push(labelled("status: ", status));
    lines.push("headers:".to_string());
    let ghost first = string_views(lines@);
    push_indented(&mut lines, header_lines);
    lines.push("body:".to_string());
    push_indented(&mut lines, body_lines);
    proof {
        assert(first =~= seq![
            "service: "@ + service@,
            "operation: "@ + operation@,
            "status: "@ + status@,
            "headers:"@,
        ]);
        assert(string_views(lines@) =~= first + indented(string_views(header_lines@)) + seq![
            "body:"@,
        ] + indented(string_views(body_lines@)));
    }
    join_lines(&lines)
}

/// The record of a request that failed before a reply came.
pub fn http_error_record(service: &str, operation: &str, method: &str, url: &str, error: &str) -> (r:
    String)
    ensures
        r@ == join_with(
            seq![
                "service: "@ + service@,
                "operation: "@ + operation@,
                "method: "@ + method@,
                "url: "@ + url@,
                "error: "@ + error@,
            ],
            "\n"@,
        ),
{
    let mut lines: Vec<String> = Vec::new();
    lines.push(labelled("service: ", service));
    lines.push(labelled("operation: ", operation));
    lines.push(labelled("method: ", method));
    lines.push(labelled("url: ", url));
    lines.push(labelled("error: ", error));
    assert(string_views(lines@) =~= seq![
        "service: "@ + service@,
        "operation: "@ + operation@,
        "method: "@ + method@,
        "url: "@ + url@,
        "error: "@ + error@,
    ]);
    join_lines(&lines)
}

/// The SHA-256 digest of some bytes, as `sha2::Sha256` computes it.
pub uninterp spec fn spec_sha256(data: Seq<u8>) -> Seq<u8>;

/// `sha2::Sha256::digest`; the digest is 32 bytes long, as the algorithm
/// fixes. Only the naming and the length are claimed.
#[verifier::external_body]
fn sha256_digest(data: &[u8]) -> (d: Vec<u8>)
    ensures
        d@ == spec_sha256(data@),
        d@.len() == 32,
{
    <sha2::Sha256 as sha2::Digest>::digest(data).to_vec()
}

pub open spec fn hex_digit(d: u8) -> char {
    if d < 10 {
        ((('0' as u8) + d) as u8) as char
    } else {
        ((('a' as u8) + d - 10) as u8) as char
    }
}

/// Two lowercase hexadecimal digits per byte.
pub open spec fn hex_of(bytes: Seq<u8>) -> Seq<char>
    decreases bytes.len(),
{
    if bytes.len() == 0 {
        seq![]
    } else {
        hex_of(bytes.drop_last()) + seq![hex_digit(bytes.last() / 16), hex_digit(bytes.last() % 16)]
    }
}

pub(crate) fn hex_char(d: u8) -> (c: char)
    requires
        d < 16,
    ensures
        c == hex_digit(d),
{
    if d < 10 {
        (48u8 + d) as char
    } else {
        (97u8 + d - 10) as char
    }
}

/// The SHA-256 digest of `data` in lowercase hexadecimal.
pub fn sha256_hex(data: &[u8]) -> (r: String)
    ensures
        r@ == hex_of(spec_sha256(data@)),
{
    let d = sha256_digest(data);
    let mut out: Vec<char> = Vec::new();
    let mut i: usize = 0;
    while i < d.len()
        invariant
            i <= d@.len(),
            out@ == hex_of(d@.subrange(0, i as int)),
        decreases d@.len() - i,
    {
        let b = d[i];
        out.push(hex_char(b / 16));
        out.push(hex_char(b % 16));
        i = i + 1;
        proof {
            assert(d@.subrange(0, i as int).drop_last() =~= d@.subrange(0, i - 1));
        }
    }
    proof {
        assert(d@.subrange(0, d@.len() as int) =~= d@);
    }
    string_from_chars(out.as_slice())
}

} // verus!
