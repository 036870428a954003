//! Checking for a newer release: reading a release tag, comparing versions,
//! and the daily cache that keeps the check from hitting the network often.
use crate::paths;
use crate::text::{chars_of, chars_start_with, has_prefix};
use vstd::prelude::*;

verus! {

broadcast use vstd::string::group_string_axioms;

/// A cached check stays valid for a day.
pub const CACHE_TTL_SECONDS: i64 = 86400;

/// The latest release as the release service describes it.
pub struct GithubRelease {
    pub tag_name: String,
    pub name: Option<String>,
    pub html_url: String,
    pub body: Option<String>,
    pub published_at: Option<String>,
}

/// What the interface is told about the latest release.
pub struct UpdateInfo {
    pub current: String,
    pub latest: String,
    pub is_newer: bool,
    pub html_url: String,
    pub body: String,
    pub name: String,
    pub published_at: String,
}

/// The result of a check, with the time it was made (Unix seconds).
pub struct CachedUpdateCheck {
    pub info: UpdateInfo,
    pub checked_at_unix: i64,
}

/// The tag without one leading `v` or `V`.
pub open spec fn normalized_tag(tag: Seq<char>) -> Seq<char> {
    if tag.len() > 0 && (tag[0] == 'v' || tag[0] == 'V') {
        tag.drop_first()
    } else {
        tag
    }
}

pub fn normalize_tag(tag: &str) -> (r: &str)
    ensures
        r@ == normalized_tag(tag@),
{
    let n = tag.unicode_len();
    if n > 0 {
        let c = tag.get_char(0);
        if c == 'v' || c == 'V' {
            let r = tag.substring_char(1, n);
            assert(r@ =~= tag@.drop_first());
            return r;
        }
    }
    tag
}

/// How `semver` orders the two texts: `Some(true)` when both parse
/// (`semver::Version::parse`) and `latest` is the greater version,
/// `Some(false)` when both parse and it is not, `None` when either does not
/// parse.
pub uninterp spec fn spec_semver_greater(current: Seq<char>, latest: Seq<char>) -> Option<bool>;

/// Parses both texts with `semver::Version::parse` and compares them with
/// `semver::Version`'s order. Claimed beyond the naming: a version is never
/// greater than itself (the order is derived, hence irreflexive).
#[verifier::external_body]
fn semver_greater(current: &str, latest: &str) -> (r: Option<bool>)
    ensures
        r == spec_semver_greater(current@, latest@),
        current@ == latest@ ==> r != Some(true),
{
    match (semver::Version::parse(current), semver::Version::parse(latest)) {
        (Ok(c), Ok(l)) => Some(l > c),
        _ => None,
    }
}

/// `latest` names a strictly greater version than `current` (after dropping
/// a leading `v`); false when either does not parse.
pub open spec fn newer(current: Seq<char>, latest: Seq<char>) -> bool {
    spec_semver_greater(normalized_tag(current), normalized_tag(latest)) == Some(true)
}

/// Whether `latest` is a newer version than `current`. A tag naming the
/// current version itself is never newer.
pub fn is_newer_version(current: &str, latest: &str) -> (b: bool)
    ensures
        b == newer(current@, latest@),
        normalized_tag(current@) == normalized_tag(latest@) ==> !b,
{
    match semver_greater(normalize_tag(current), normalize_tag(latest)) {
        Some(g) => g,
        None => false,
    }
}

/// What the interface is told about a release, for the running version.
pub fn build_update_info(current: &str, release: GithubRelease) -> (info: UpdateInfo)
    ensures
        info.current@ == current@,
        info.latest@ == release.tag_name@,
        info.is_newer == newer(current@, release.tag_name@),
        info.html_url@ == release.html_url@,
        info.body@ == (match release.body {
            Some(b) => b@,
            None => Seq::<char>::empty(),
        }),
        info.name@ == (match release.name {
            Some(n) => n@,
            None => release.tag_name@,
        }),
        info.published_at@ == (match release.published_at {
            Some(p) => p@,
            None => Seq::<char>::empty(),
        }),
{
    let latest = release.tag_name.clone();
    let is_newer = is_newer_version(current, latest.as_str());
    let name = match release.name {
        Some(n) => n,
        None => release.tag_name.clone(),
    };
    UpdateInfo {
        current: current.to_string(),
        latest,
        is_newer,
        html_url: release.html_url,
        body: match release.body {
            Some(b) => b,
            None => String::new(),
        },
        name,
        published_at: match release.published_at {
            Some(p) => p,
            None => String::new(),
        },
    }
}

/// A check made at `checked_at` is still good at `now` unless a day or more
/// has passed; a check stamped in the future counts as fresh.
pub open spec fn fresh_at(checked_at: int, now: int) -> bool {
    now - checked_at < 86400
}

pub fn is_cache_fresh(cached: &CachedUpdateCheck, now_unix: i64) -> (b: bool)
    ensures
        b == fresh_at(cached.checked_at_unix as int, now_unix as int),
{
    let age: i128 = (now_unix as i128) - (cached.checked_at_unix as i128);
    age < 86400
}

/// The cached answer may be served instead of asking the network: it is
/// fresh and was made for the running version.
pub fn cache_usable(cached: &CachedUpdateCheck, current: &str, now_unix: i64) -> (b: bool)
    ensures
        b == (fresh_at(cached.checked_at_unix as int, now_unix as int) && cached.info.current@
            == current@),
{
    is_cache_fresh(cached, now_unix) && crate::text::str_eq(cached.info.current.as_str(), current)
}

/// Where the cached check is kept.
pub fn cache_file_path(app_data_dir: &str) -> (r: String)
    ensures
        r@ == paths::join(app_data_dir@, "version_check_cache.json"@),
{
    paths::join_path(app_data_dir, "version_check_cache.json")
}

/// Only web addresses may be opened in the browser.
pub fn check_external_url(url: &str) -> (r: Result<(), String>)
    ensures
        r is Ok <==> (has_prefix(url@, "https://"@) || has_prefix(url@, "http://"@)),
        r matches Err(e) ==> e@ == "URL must use http or https scheme"@,
{
    let v = chars_of(url);
    let https = chars_of("https://");
    let http = chars_of("http://");
    if chars_start_with(v.as_slice(), https.as_slice()) || chars_start_with(
        v.as_slice(),
        http.as_slice(),
    ) {
        Ok(())
    } else {
        Err("URL must use http or https scheme".to_string())
    }
}

} // verus!
