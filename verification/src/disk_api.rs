//! The Yandex.Disk REST API as the sync runner uses it: request URLs and
//! headers, how each reply status is read, listing pages, and the tally of a
//! sync run.
use crate::paths;
use crate::text::{
    self, chars_of, decimal_string, has_prefix, string_from_chars, to_owned_string, trim_str,
};
use crate::yandex::{FileError, LastRunSummary, file_error_views};
use vstd::prelude::*;
use vstd::string::StrSliceExecFns;

verus! {

broadcast use vstd::string::group_string_axioms;

/// How a Disk API call failed.
pub enum YandexError {
    Network(String),
    Http { status: u16, body: String },
    Unauthorized,
    Parse(String),
    Io(String),
}

pub open spec fn yandex_error_text(e: YandexError) -> Seq<char> {
    match e {
        YandexError::Network(m) => "network error: "@ + m@,
        YandexError::Http { status, body } => "http error: "@ + text::decimal(status as nat)
            + " — "@ + body@,
        YandexError::Unauthorized => "unauthorized"@,
        YandexError::Parse(m) => "parse error: "@ + m@,
        YandexError::Io(m) => "io error: "@ + m@,
    }
}

impl YandexError {
    /// The diagnostic text (what the error displays as).
    pub fn message(&self) -> (r: String)
        ensures
            r@ == yandex_error_text(*self),
    {
        match self {
            YandexError::Network(m) => {
                let mut s = "network error: ".to_string();
                s.append(m.as_str());
                s
            },
            YandexError::Http { status, body } => {
                let mut s = "http error: ".to_string();
                s.append(decimal_string(*status as u64).as_str());
                s.append(" — ");
                s.append(body.as_str());
                s
            },
            YandexError::Unauthorized => "unauthorized".to_string(),
            YandexError::Parse(m) => {
                let mut s = "parse error: ".to_string();
                s.append(m.as_str());
                s
            },
            YandexError::Io(m) => {
                let mut s = "io error: ".to_string();
                s.append(m.as_str());
                s
            },
        }
    }
}

/// What a reply status means for the call that got it.
pub enum StatusOutcome {
    /// Go on with the reply (read its body, or the next step).
    Proceed,
    /// The call is complete; nothing more to do.
    Done,
    /// The call failed.
    Fail(YandexError),
}

/// Refusals of the token and other errors, common to all calls.
pub open spec fn failure_for(status: u16, body: Seq<char>, o: StatusOutcome) -> bool {
    if status == 401 || status == 403 {
        o matches StatusOutcome::Fail(YandexError::Unauthorized)
    } else {
        o matches StatusOutcome::Fail(YandexError::Http { status: s, body: b }) && s == status
            && b@ == body
    }
}

fn fail_for(status: u16, body: String) -> (o: StatusOutcome)
    ensures
        failure_for(status, body@, o),
{
    if status == 401 || status == 403 {
        StatusOutcome::Fail(YandexError::Unauthorized)
    } else {
        StatusOutcome::Fail(YandexError::Http { status, body })
    }
}

/// Creating a directory: 200, 201 and 409 (it exists) are fine.
pub fn ensure_dir_status(status: u16, body: String) -> (o: StatusOutcome)
    ensures
        if status == 200 || status == 201 || status == 409 {
            o is Done
        } else {
            failure_for(status, body@, o)
        },
{
    if status == 200 || status == 201 || status == 409 {
        StatusOutcome::Done
    } else {
        fail_for(status, body)
    }
}

/// Listing a directory: 200 carries a page, 404 means an empty directory.
pub fn list_dir_status(status: u16, body: String) -> (o: StatusOutcome)
    ensures
        if status == 200 {
            o is Proceed
        } else if status == 404 {
            o is Done
        } else {
            failure_for(status, body@, o)
        },
{
    if status == 200 {
        StatusOutcome::Proceed
    } else if status == 404 {
        StatusOutcome::Done
    } else {
        fail_for(status, body)
    }
}

/// Asking where to upload: 200 carries the address, 409 means the file is
/// there already.
pub fn upload_href_status(status: u16, body: String) -> (o: StatusOutcome)
    ensures
        if status == 200 {
            o is Proceed
        } else if status == 409 {
            o is Done
        } else {
            failure_for(status, body@, o)
        },
{
    if status == 200 {
        StatusOutcome::Proceed
    } else if status == 409 {
        StatusOutcome::Done
    } else {
        fail_for(status, body)
    }
}

/// Sending the bytes: 200, 201, 202 and 409 are fine.
pub fn upload_put_status(status: u16, body: String) -> (o: StatusOutcome)
    ensures
        if status == 200 || status == 201 || status == 202 || status == 409 {
            o is Done
        } else {
            failure_for(status, body@, o)
        },
{
    if status == 200 || status == 201 || status == 202 || status == 409 {
        StatusOutcome::Done
    } else {
        fail_for(status, body)
    }
}

/// Where the listing continues after a page of `page_len` items at
/// `offset`, or `None` when it is complete (an empty page, or all of `total`
/// seen; without a total, the items seen so far count as all).
pub open spec fn next_page(offset: u32, page_len: u32, total: Option<u32>) -> Option<u32> {
    let next = offset + page_len;
    let all = match total {
        Some(t) => t as int,
        None => next,
    };
    if page_len == 0 || next >= all {
        None
    } else {
        Some(next as u32)
    }
}

pub fn next_list_offset(offset: u32, page_len: u32, total: Option<u32>) -> (r: Option<u32>)
    requires
        offset + page_len <= u32::MAX,
    ensures
        r == next_page(offset, page_len, total),
{
    let next = offset + page_len;
    let all = match total {
        Some(t) => t,
        None => next,
    };
    if page_len == 0 || next >= all {
        None
    } else {
        Some(next)
    }
}

/// One entry of a listing page.
pub struct ListItem {
    pub name: String,
    pub kind: String,
    pub size: Option<u64>,
}

/// The files of a listing page with their sizes (0 when not given);
/// directories and other entries are left out.
pub open spec fn page_files(items: Seq<ListItem>) -> Seq<(Seq<char>, u64)>
    decreases items.len(),
{
    if items.len() == 0 {
        seq![]
    } else {
        let rest = page_files(items.drop_last());
        let it = items.last();
        if it.kind@ == "file"@ {
            rest.push(
                (
                    it.name@,
                    match it.size {
                        Some(s) => s,
                        None => 0,
                    },
                ),
            )
        } else {
            rest
        }
    }
}

pub open spec fn entry_views(v: Seq<(String, u64)>) -> Seq<(Seq<char>, u64)> {
    v.map_values(|e: (String, u64)| (e.0@, e.1))
}

pub fn listed_files(items: &[ListItem]) -> (r: Vec<(String, u64)>)
    ensures
        entry_views(r@) == page_files(items@),
{
    let mut out: Vec<(String, u64)> = Vec::new();
    let mut i: usize = 0;
    while i < items.len()
        invariant
            i <= items@.len(),
            entry_views(out@) == page_files(items@.subrange(0, i as int)),
        decreases items@.len() - i,
    {
        let it = &items[i];
        let ghost before = out@;
        if text::str_eq(it.kind.as_str(), "file") {
            let size = match it.size {
                Some(s) => s,
                None => 0,
            };
            out.push((it.name.clone(), size));
            proof {
                assert(entry_views(out@) =~= entry_views(before).push((it.name@, size)));
            }
        }
        i = i + 1;
        proof {
            assert(items@.subrange(0, i as int).drop_last() =~= items@.subrange(0, i - 1));
        }
    }
    proof {
        assert(items@.subrange(0, items@.len() as int) =~= items@);
    }
    out
}

/// A file is in sync when the Disk holds a file of the same name and size.
pub fn is_in_sync(remote_size: Option<u64>, local_size: u64) -> (b: bool)
    ensures
        b == (remote_size == Some(local_size)),
{
    match remote_size {
        Some(s) => s == local_size,
        None => false,
    }
}

/// The header value that authorises a Disk call.
pub fn auth_header_value(token: &str) -> (r: String)
    ensures
        r@ == "OAuth "@ + token@,
{
    let mut r = "OAuth ".to_string();
    r.append(token);
    r
}

/// The API base with trailing slashes removed.
pub open spec fn normalized_base(base: Seq<char>) -> Seq<char> {
    base.subrange(0, base.len() - text::trail_run(base, '/'))
}

pub fn normalize_base_url(base: &str) -> (r: String)
    ensures
        r@ == normalized_base(base@),
{
    let v = chars_of(base);
    let n = v.len();
    let mut hi: usize = n;
    proof {
        assert(v@.subrange(0, n as int) =~= v@);
    }
    while hi > 0 && v[hi - 1] == '/'
        invariant
            n == v@.len(),
            hi <= n,
            text::trail_run(v@, '/') == (n - hi) + text::trail_run(v@.subrange(0, hi as int), '/'),
        decreases hi,
    {
        proof {
            assert(v@.subrange(0, hi as int).drop_last() =~= v@.subrange(0, hi - 1));
        }
        hi = hi - 1;
    }
    string_from_chars(text::sub_vec(v.as_slice(), 0, hi).as_slice())
}

/// Appends a path piece, adding a separator unless the path already ends
/// with one.
pub open spec fn grow(cur: Seq<char>, part: Seq<char>) -> Seq<char> {
    if cur.len() > 0 && cur.last() == '/' {
        cur + part
    } else {
        cur + seq!['/'] + part
    }
}

/// The paths reached from `cur` by appending the pieces one at a time.
pub open spec fn chain_from(cur: Seq<char>, parts: Seq<Seq<char>>) -> Seq<Seq<char>>
    decreases parts.len(),
{
    if parts.len() == 0 {
        seq![]
    } else {
        let next = grow(cur, parts[0]);
        seq![next] + chain_from(next, parts.drop_first())
    }
}

pub open spec fn disk_root() -> Seq<char> {
    seq!['d', 'i', 's', 'k', ':', '/']
}

/// The chain of directories to create for a Disk path, outermost first:
/// `disk:/A/B/C` gives `disk:/A`, `disk:/A/B`, `disk:/A/B/C`. A path outside
/// `disk:/` is created as given; the root itself needs nothing.
pub open spec fn parent_chain(remote_path: Seq<char>) -> Seq<Seq<char>> {
    if !has_prefix(remote_path, disk_root()) {
        seq![remote_path]
    } else {
        let inner = text::trim_char(remote_path.subrange(6, remote_path.len() as int), '/');
        if inner.len() == 0 {
            seq![]
        } else {
            chain_from(disk_root(), split_slash(inner))
        }
    }
}

/// `str::split('/')`: the pieces between slashes, empty ones included.
pub open spec fn split_slash(s: Seq<char>) -> Seq<Seq<char>>
    decreases s.len(),
{
    let i = paths::first_slash(s);
    if i < 0 {
        seq![s]
    } else {
        proof {
            paths::lemma_first_slash_range(s);
        }
        seq![s.subrange(0, i)] + split_slash(s.subrange(i + 1, s.len() as int))
    }
}

proof fn lemma_first_slash_at(s: Seq<char>, j: int)
    requires
        0 <= j < s.len(),
        s[j] == '/',
        forall|k: int| 0 <= k < j ==> s[k] != '/',
    ensures
        paths::first_slash(s) == j,
{
    paths::lemma_first_slash_range(s);
    let f = paths::first_slash(s);
    if f < 0 || f > j {
        assert(s[j] != '/');
    }
}

proof fn lemma_first_slash_none(s: Seq<char>)
    requires
        forall|k: int| 0 <= k < s.len() ==> s[k] != '/',
    ensures
        paths::first_slash(s) < 0,
{
    paths::lemma_first_slash_range(s);
}

/// `str::split('/')` on a character slice.
pub fn split_slash_vec(v: &[char]) -> (r: Vec<Vec<char>>)
    ensures
        paths::views(r@) == split_slash(v@),
{
    let n = v.len();
    let mut out: Vec<Vec<char>> = Vec::new();
    let mut start: usize = 0;
    let mut i: usize = 0;
    proof {
        assert(v@.subrange(0, n as int) =~= v@);
    }
    while i < n
        invariant
            n == v@.len(),
            start <= i <= n,
            forall|k: int| start <= k < i ==> v@[k] != '/',
            paths::views(out@) + split_slash(v@.subrange(start as int, n as int)) == split_slash(v@),
        decreases n - i,
    {
        if v[i] == '/' {
            let ghost rest = v@.subrange(start as int, n as int);
            proof {
                lemma_first_slash_at(rest, i - start);
                assert(rest.subrange(0, i - start) =~= v@.subrange(start as int, i as int));
                assert(rest.subrange(i - start + 1, rest.len() as int) =~= v@.subrange(
                    i + 1,
                    n as int,
                ));
            }
            let piece = text::sub_vec(v, start, i);
            let ghost before = paths::views(out@);
            out.push(piece);
            proof {
                assert(paths::views(out@) =~= before.push(v@.subrange(start as int, i as int)));
                assert(paths::views(out@) + split_slash(v@.subrange(i + 1, n as int)) =~= before
                    + split_slash(rest));
            }
            start = i + 1;
        }
        i = i + 1;
    }
    let ghost rest = v@.subrange(start as int, n as int);
    proof {
        lemma_first_slash_none(rest);
    }
    let piece = text::sub_vec(v, start, n);
    let ghost before = paths::views(out@);
    out.push(piece);
    proof {
        assert(paths::views(out@) =~= before.push(rest));
        assert(paths::views(out@) =~= before + split_slash(rest));
    }
    out
}

fn ends_with_slash(v: &Vec<char>) -> (b: bool)
    ensures
        b == (v@.len() > 0 && v@.last() == '/'),
{
    v.len() > 0 && v[v.len() - 1] == '/'
}

/// The directories to create, outermost first, for a Disk path.
pub fn parent_paths(remote_path: &str) -> (r: Vec<String>)
    ensures
        paths::string_views(r@) == parent_chain(remote_path@),
{
    let v = chars_of(remote_path);
    let root = vec!['d', 'i', 's', 'k', ':', '/'];
    assert(root@ =~= disk_root());
    if !text::chars_start_with(v.as_slice(), root.as_slice()) {
        let mut out: Vec<String> = Vec::new();
        out.push(remote_path.to_string());
        assert(paths::string_views(out@) =~= seq![remote_path@]);
        return out;
    }
    let stripped = text::sub_vec(v.as_slice(), 6, v.len());
    let inner = crate::yandex::trim_slashes(stripped.as_slice());
    if inner.len() == 0 {
        let out: Vec<String> = Vec::new();
        assert(paths::string_views(out@) =~= Seq::<Seq<char>>::empty());
        return out;
    }
    let parts = split_slash_vec(inner.as_slice());
    let ghost ps = paths::views(parts@);
    let mut out: Vec<String> = Vec::new();
    let mut cur = root;
    let mut k: usize = 0;
    proof {
        assert(ps.subrange(0, ps.len() as int) =~= ps);
    }
    while k < parts.len()
        invariant
            ps == paths::views(parts@),
            k <= parts@.len(),
            paths::string_views(out@) + chain_from(cur@, ps.subrange(k as int, ps.len() as int))
                == chain_from(disk_root(), ps),
        decreases parts@.len() - k,
    {
        let ghost rest = ps.subrange(k as int, ps.len() as int);
        let ghost prev = cur@;
        if !ends_with_slash(&cur) {
            cur.push('/');
        }
        let part = &parts[k];
        let mut j: usize = 0;
        let ghost base = cur@;
        while j < part.len()
            invariant
                j <= part@.len(),
                cur@ == base + part@.subrange(0, j as int),
            decreases part@.len() - j,
        {
            cur.push(part[j]);
            j = j + 1;
            assert(cur@ =~= base + part@.subrange(0, j as int));
        }
        proof {
            assert(part@.subrange(0, part@.len() as int) =~= part@);
            assert(rest[0] == part@);
            if prev.len() > 0 && prev.last() == '/' {
                assert(cur@ =~= grow(prev, part@));
            } else {
                assert(cur@ =~= grow(prev, part@));
            }
            assert(rest.drop_first() =~= ps.subrange(k + 1, ps.len() as int));
        }
        let ghost before = paths::string_views(out@);
        out.push(string_from_chars(cur.as_slice()));
        proof {
            assert(paths::string_views(out@) =~= before.push(cur@));
            assert(paths::string_views(out@) + chain_from(cur@, ps.subrange(k + 1, ps.len() as int))
                =~= before + chain_from(prev, rest));
        }
        k = k + 1;
    }
    proof {
        assert(ps.subrange(k as int, ps.len() as int) =~= Seq::<Seq<char>>::empty());
        assert(paths::string_views(out@) + Seq::<Seq<char>>::empty() =~= paths::string_views(out@));
        assert(stripped@ =~= remote_path@.subrange(6, remote_path@.len() as int));
    }
    out
}

/// A byte left as it is by percent-encoding: an ASCII letter or digit, or
/// `-`, `.`, `_`, `~`.
pub open spec fn unreserved(b: u8) -> bool {
    (0x30 <= b <= 0x39) || (0x41 <= b <= 0x5a) || (0x61 <= b <= 0x7a) || b == 0x2d || b == 0x2e || b == 0x5f
        || b == 0x7e
}

/// An uppercase hexadecimal digit.
pub open spec fn upper_hex(d: u8) -> char {
    if d < 10 {
        ((48 + d) as u8) as char
    } else {
        ((55 + d) as u8) as char
    }
}

/// One byte percent-encoded: itself when unreserved, else `%` and two
/// uppercase hexadecimal digits.
pub open spec fn percent_byte(b: u8) -> Seq<char> {
    if unreserved(b) {
        seq![b as char]
    } else {
        seq!['%', upper_hex(b / 16), upper_hex(b % 16)]
    }
}

pub open spec fn percent_encoded(bytes: Seq<u8>) -> Seq<char>
    decreases bytes.len(),
{
    if bytes.len() == 0 {
        seq![]
    } else {
        percent_encoded(bytes.drop_last()) + percent_byte(bytes.last())
    }
}

/// A text as `urlencoding::encode` writes it: every byte of its UTF-8 form
/// percent-encoded except ASCII letters, digits and `-`, `_`, `.`, `~`.
pub open spec fn url_encoded(s: Seq<char>) -> Seq<char> {
    percent_encoded(vstd::utf8::encode_utf8(s))
}

fn upper_hex_char(d: u8) -> (c: char)
    requires
        d < 16,
    ensures
        c == upper_hex(d),
{
    if d < 10 {
        (48u8 + d) as char
    } else {
        (55u8 + d) as char
    }
}

/// Percent-encodes a text (see [`url_encoded`]).
pub fn url_encode(s: &str) -> (r: String)
    ensures
        r@ == url_encoded(s@),
{
    let bytes = s.as_bytes_vec();
    let mut out: Vec<char> = Vec::new();
    let mut i: usize = 0;
    while i < bytes.len()
        invariant
            i <= bytes@.len(),
            bytes@ == vstd::utf8::encode_utf8(s@),
            out@ == percent_encoded(bytes@.take(i as int)),
        decreases bytes@.len() - i,
    {
        let b = bytes[i];
        proof {
            assert(bytes@.take(i + 1).drop_last() =~= bytes@.take(i as int));
            assert(bytes@.take(i + 1).last() == b);
        }
        if (48 <= b && b <= 57) || (65 <= b && b <= 90) || (97 <= b && b <= 122) || b == 45 || b == 46 || b == 95
            || b == 126 {
            out.push(b as char);
        } else {
            out.push('%');
            out.push(upper_hex_char(b / 16));
            out.push(upper_hex_char(b % 16));
        }
        i = i + 1;
    }
    assert(bytes@.take(bytes@.len() as int) =~= bytes@);
    string_from_chars(out.as_slice())
}

/// The address for creating a directory (and for reading its metadata).
pub fn resources_url(base_url: &str, remote_path: &str) -> (r: String)
    ensures
        r@ == base_url@ + "/resources?path="@ + url_encoded(remote_path@),
{
    let mut r = base_url.to_string();
    r.append("/resources?path=");
    r.append(url_encode(remote_path).as_str());
    r
}

/// The fields a listing asks for.
pub open spec fn listing_fields() -> Seq<char> {
    "_embedded.items.name,_embedded.items.size,_embedded.items.type,_embedded.total"@
}

/// The address of one listing page of at most a thousand entries.
pub fn list_page_url(base_url: &str, remote_path: &str, offset: u32) -> (r: String)
    ensures
        r@ == base_url@ + "/resources?path="@ + url_encoded(remote_path@) + "&limit="@
            + text::decimal(1000) + "&offset="@ + text::decimal(offset as nat) + "&fields="@
            + url_encoded(listing_fields()),
{
    let mut r = base_url.to_string();
    r.append("/resources?path=");
    r.append(url_encode(remote_path).as_str());
    r.append("&limit=");
    r.append(decimal_string(1000).as_str());
    r.append("&offset=");
    r.append(decimal_string(offset as u64).as_str());
    r.append("&fields=");
    r.append(
        url_encode(
            "_embedded.items.name,_embedded.items.size,_embedded.items.type,_embedded.total",
        ).as_str(),
    );
    r
}

/// The address that hands out an upload location (never overwriting).
pub fn upload_href_url(base_url: &str, remote_path: &str) -> (r: String)
    ensures
        r@ == base_url@ + "/resources/upload?path="@ + url_encoded(remote_path@)
            + "&overwrite=false"@,
{
    let mut r = base_url.to_string();
    r.append("/resources/upload?path=");
    r.append(url_encode(remote_path).as_str());
    r.append("&overwrite=false");
    r
}

/// Where a sync run stands while files are uploaded.
pub struct SyncTally {
    pub uploaded: u32,
    pub failed: u32,
    pub errors: Vec<FileError>,
}

pub open spec fn capped(errors: Seq<(Seq<char>, Seq<char>)>, e: (Seq<char>, Seq<char>)) -> Seq<
    (Seq<char>, Seq<char>),
> {
    if errors.len() < 20 {
        errors.push(e)
    } else {
        errors
    }
}

/// Keeps an error unless twenty are kept already.
pub fn push_error(errors: &mut Vec<FileError>, path: &str, message: String)
    ensures
        file_error_views(final(errors)@) == capped(file_error_views(old(errors)@), (path@, message@)),
{
    let ghost before = file_error_views(errors@);
    if errors.len() < 20 {
        errors.push(FileError { path: path.to_string(), message });
        proof {
            assert(file_error_views(errors@) =~= before.push((path@, message@)));
        }
    }
}

impl SyncTally {
    pub fn new() -> (t: Self)
        ensures
            t.uploaded == 0 && t.failed == 0 && t.errors@.len() == 0,
    {
        SyncTally { uploaded: 0, failed: 0, errors: Vec::new() }
    }

    /// A directory for this file could not be created.
    pub fn record_dir_failure(&mut self, rel_path: &str, err: &YandexError)
        requires
            old(self).failed < u32::MAX,
        ensures
            final(self).failed == old(self).failed + 1,
            final(self).uploaded == old(self).uploaded,
            file_error_views(final(self).errors@) == capped(
                file_error_views(old(self).errors@),
                (rel_path@, "ensure_dir: "@ + yandex_error_text(*err)),
            ),
    {
        self.failed = self.failed + 1;
        let mut m = "ensure_dir: ".to_string();
        m.append(err.message().as_str());
        push_error(&mut self.errors, rel_path, m);
    }

    /// The upload of this file ended.
    pub fn record_upload(&mut self, rel_path: &str, result: Result<(), YandexError>)
        requires
            old(self).failed < u32::MAX,
            old(self).uploaded < u32::MAX,
        ensures
            match result {
                Ok(()) => final(self).uploaded == old(self).uploaded + 1 && final(self).failed == old(
                    self,
                ).failed && file_error_views(final(self).errors@) == file_error_views(
                    old(self).errors@,
                ),
                Err(e) => final(self).failed == old(self).failed + 1 && final(self).uploaded == old(
                    self,
                ).uploaded && file_error_views(final(self).errors@) == capped(
                    file_error_views(old(self).errors@),
                    (rel_path@, yandex_error_text(e)),
                ),
            },
    {
        match result {
            Ok(()) => {
                self.uploaded = self.uploaded + 1;
            },
            Err(e) => {
                self.failed = self.failed + 1;
                push_error(&mut self.errors, rel_path, e.message());
            },
        }
    }
}

/// Milliseconds between two instants (given in milliseconds), zero when the
/// clock went backwards.
pub fn elapsed_ms(started_ms: i64, finished_ms: i64) -> (d: u64)
    ensures
        d == (if finished_ms > started_ms {
            finished_ms - started_ms
        } else {
            0
        }),
{
    if finished_ms > started_ms {
        ((finished_ms as i128) - (started_ms as i128)) as u64
    } else {
        0
    }
}

/// The summary of a run that could not read the local recordings.
pub fn unreadable_root_summary(
    started_at_iso: String,
    finished_at_iso: String,
    duration_ms: u64,
    local_root: &str,
    io_error: &str,
) -> (s: LastRunSummary)
    ensures
        s.started_at_iso@ == started_at_iso@ && s.finished_at_iso@ == finished_at_iso@,
        s.duration_ms == duration_ms,
        s.total_objects == 0 && s.not_synced == 0 && s.uploaded == 0 && s.skipped == 0
            && s.failed == 1,
        file_error_views(s.errors@) == seq![(local_root@, "cannot read local root: "@ + io_error@)],
{
    let mut m = "cannot read local root: ".to_string();
    m.append(io_error);
    let mut errors: Vec<FileError> = Vec::new();
    errors.push(FileError { path: local_root.to_string(), message: m });
    proof {
        assert(file_error_views(errors@) =~= seq![(local_root@, "cannot read local root: "@ + io_error@)]);
    }
    LastRunSummary {
        started_at_iso,
        finished_at_iso,
        duration_ms,
        total_objects: 0,
        not_synced: 0,
        uploaded: 0,
        skipped: 0,
        failed: 1,
        errors,
    }
}

/// The summary of a run whose top directory on the Disk could not be made:
/// every file counts as failed (at least one failure is reported).
pub fn root_dir_failure_summary(
    started_at_iso: String,
    finished_at_iso: String,
    duration_ms: u64,
    total_objects: u32,
    remote_folder: &str,
    err: &YandexError,
) -> (s: LastRunSummary)
    ensures
        s.started_at_iso@ == started_at_iso@ && s.finished_at_iso@ == finished_at_iso@,
        s.duration_ms == duration_ms,
        s.total_objects == total_objects && s.not_synced == total_objects,
        s.uploaded == 0 && s.skipped == 0,
        s.failed == (if total_objects > 1 {
            total_objects
        } else {
            1
        }),
        file_error_views(s.errors@) == seq![
            (remote_folder@, "ensure root dir: "@ + yandex_error_text(*err)),
        ],
{
    let mut m = "ensure root dir: ".to_string();
    m.append(err.message().as_str());
    let mut errors: Vec<FileError> = Vec::new();
    errors.push(FileError { path: remote_folder.to_string(), message: m });
    proof {
        assert(file_error_views(errors@) =~= seq![
            (remote_folder@, "ensure root dir: "@ + yandex_error_text(*err)),
        ]);
    }
    LastRunSummary {
        started_at_iso,
        finished_at_iso,
        duration_ms,
        total_objects,
        not_synced: total_objects,
        uploaded: 0,
        skipped: 0,
        failed: if total_objects > 1 {
            total_objects
        } else {
            1
        },
        errors,
    }
}

/// The summary of a completed run.
pub fn finished_summary(
    started_at_iso: String,
    finished_at_iso: String,
    duration_ms: u64,
    total_objects: u32,
    not_synced: u32,
    already_synced: u32,
    tally: SyncTally,
) -> (s: LastRunSummary)
    ensures
        s.started_at_iso@ == started_at_iso@ && s.finished_at_iso@ == finished_at_iso@,
        s.duration_ms == duration_ms,
        s.total_objects == total_objects && s.not_synced == not_synced,
        s.uploaded == tally.uploaded && s.failed == tally.failed && s.skipped == already_synced,
        file_error_views(s.errors@) == file_error_views(tally.errors@),
{
    LastRunSummary {
        started_at_iso,
        finished_at_iso,
        duration_ms,
        total_objects,
        not_synced,
        uploaded: tally.uploaded,
        skipped: already_synced,
        failed: tally.failed,
        errors: tally.errors,
    }
}

/// Where recordings are read from: the configured root, taken relative to
/// the application data directory unless it is absolute.
pub fn resolved_local_root(app_data_dir: &str, recording_root: &str) -> (r: String)
    ensures
        r@ == (if paths::is_absolute(recording_root@) {
            recording_root@
        } else {
            paths::join(app_data_dir@, recording_root@)
        }),
{
    if paths::is_absolute_path(recording_root) {
        recording_root.to_string()
    } else {
        paths::join_path(app_data_dir, recording_root)
    }
}

} // verus!
