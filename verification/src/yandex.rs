//! Mirroring the recordings to Yandex.Disk: the sync runner's bookkeeping,
//! the scheduler's decision, the remote layout, and the request shapes and
//! status handling of the Disk API.
use crate::paths;
use crate::text::{
    self, chars_of, decimal_string, is_blank, str_eq, string_from_chars, to_owned_string, trim_str,
    trim_string,
};
use vstd::prelude::*;

verus! {

broadcast use vstd::string::group_string_axioms;

/// The secret-store name of the Yandex.Disk OAuth token.
pub const TOKEN_KEY: &'static str = "YANDEX_DISK_OAUTH_TOKEN";

/// The most per-file errors a sync run reports.
pub const MAX_ERRORS_REPORTED: usize = 20;

/// A file that could not be synced, and why.
pub struct FileError {
    pub path: String,
    pub message: String,
}

/// The outcome of one sync run.
pub struct LastRunSummary {
    pub started_at_iso: String,
    pub finished_at_iso: String,
    pub duration_ms: u64,
    pub total_objects: u32,
    pub not_synced: u32,
    pub uploaded: u32,
    pub skipped: u32,
    pub failed: u32,
    pub errors: Vec<FileError>,
}

pub open spec fn file_error_views(v: Seq<FileError>) -> Seq<(Seq<char>, Seq<char>)> {
    v.map_values(|e: FileError| (e.path@, e.message@))
}

/// Two summaries that say the same.
pub open spec fn same_summary(a: LastRunSummary, b: LastRunSummary) -> bool {
    &&& a.started_at_iso@ == b.started_at_iso@
    &&& a.finished_at_iso@ == b.finished_at_iso@
    &&& a.duration_ms == b.duration_ms
    &&& a.total_objects == b.total_objects
    &&& a.not_synced == b.not_synced
    &&& a.uploaded == b.uploaded
    &&& a.skipped == b.skipped
    &&& a.failed == b.failed
    &&& file_error_views(a.errors@) == file_error_views(b.errors@)
}

pub open spec fn same_last_run(a: Option<LastRunSummary>, b: Option<LastRunSummary>) -> bool {
    match (a, b) {
        (Some(x), Some(y)) => same_summary(x, y),
        (None, None) => true,
        _ => false,
    }
}

fn clone_errors(v: &Vec<FileError>) -> (r: Vec<FileError>)
    ensures
        file_error_views(r@) == file_error_views(v@),
{
    let mut out: Vec<FileError> = Vec::new();
    let mut i: usize = 0;
    while i < v.len()
        invariant
            i <= v@.len(),
            out@.len() == i,
            forall|j: int|
                0 <= j < i ==> (#[trigger] out@[j]).path@ == v@[j].path@ && out@[j].message@
                    == v@[j].message@,
        decreases v@.len() - i,
    {
        out.push(FileError { path: v[i].path.clone(), message: v[i].message.clone() });
        i = i + 1;
    }
    assert(file_error_views(out@) =~= file_error_views(v@));
    out
}

impl LastRunSummary {
    pub fn duplicate(&self) -> (r: Self)
        ensures
            same_summary(r, *self),
    {
        LastRunSummary {
            started_at_iso: self.started_at_iso.clone(),
            finished_at_iso: self.finished_at_iso.clone(),
            duration_ms: self.duration_ms,
            total_objects: self.total_objects,
            not_synced: self.not_synced,
            uploaded: self.uploaded,
            skipped: self.skipped,
            failed: self.failed,
            errors: clone_errors(&self.errors),
        }
    }
}

fn clone_last_run(r: &Option<LastRunSummary>) -> (c: Option<LastRunSummary>)
    ensures
        same_last_run(c, *r),
{
    match r {
        Some(s) => Some(s.duplicate()),
        None => None,
    }
}

/// Whether a sync runs in this process, and how the last one ended.
pub struct YandexSyncRuntimeState {
    pub is_running: bool,
    pub last_run: Option<LastRunSummary>,
}

impl YandexSyncRuntimeState {
    /// Idle, with no run recorded.
    pub fn default() -> (s: Self)
        ensures
            !s.is_running,
            s.last_run is None,
    {
        YandexSyncRuntimeState { is_running: false, last_run: None }
    }
}

/// A fresh runtime state for the application (callers share it behind a lock).
pub fn new_shared_state() -> (s: YandexSyncRuntimeState)
    ensures
        !s.is_running,
        s.last_run is None,
{
    YandexSyncRuntimeState::default()
}

/// What the interface is shown about syncing.
pub struct YandexSyncStatus {
    pub is_running: bool,
    pub last_run: Option<LastRunSummary>,
}

impl YandexSyncStatus {
    /// A copy of the current state.
    pub fn snapshot(state: &YandexSyncRuntimeState) -> (s: Self)
        ensures
            s.is_running == state.is_running,
            same_last_run(s.last_run, state.last_run),
    {
        YandexSyncStatus { is_running: state.is_running, last_run: clone_last_run(&state.last_run) }
    }
}

/// Starts a manual sync, refusing while one runs.
pub fn begin_sync(state: &mut YandexSyncRuntimeState) -> (r: Result<(), String>)
    ensures
        r is Ok <==> !old(state).is_running,
        r matches Err(e) ==> e@ == "Yandex sync already running"@,
        final(state).is_running,
        same_last_run(final(state).last_run, old(state).last_run),
{
    let ghost before = state.last_run;
    if state.is_running {
        return Err("Yandex sync already running".to_string());
    }
    state.is_running = true;
    Ok(())
}

/// Ends a sync: the state is idle again, and a completed run becomes the
/// last run. The outcome is handed back.
pub fn finish_sync(state: &mut YandexSyncRuntimeState, result: Result<LastRunSummary, String>) -> (r:
    Result<LastRunSummary, String>)
    ensures
        !final(state).is_running,
        match result {
            Ok(s) => same_last_run(final(state).last_run, Some(s)) && (r matches Ok(t)
                && same_summary(t, s)),
            Err(e) => same_last_run(final(state).last_run, old(state).last_run) && (r matches Err(
                m,
            ) && m@ == e@),
        },
{
    state.is_running = false;
    match result {
        Ok(summary) => {
            let kept = summary.duplicate();
            state.last_run = Some(kept);
            Ok(summary)
        },
        Err(e) => {
            Err(e)
        },
    }
}

/// What the scheduler does at a tick.
#[derive(Clone, Copy, Debug, PartialEq, Eq, Structural)]
pub enum SchedulerAction {
    Trigger,
    Skip,
}

/// A scheduled sync runs only when enabled, with a token, and when no sync
/// runs already.
pub fn decide_action(enabled: bool, has_token: bool, state: &YandexSyncRuntimeState) -> (a:
    SchedulerAction)
    ensures
        a == (if enabled && has_token && !state.is_running {
            SchedulerAction::Trigger
        } else {
            SchedulerAction::Skip
        }),
{
    if !enabled || !has_token {
        return SchedulerAction::Skip;
    }
    if state.is_running {
        SchedulerAction::Skip
    } else {
        SchedulerAction::Trigger
    }
}

/// Seconds between scheduled syncs for a configured interval; unknown values
/// mean a day.
pub open spec fn interval_secs(s: Seq<char>) -> u64 {
    if s == "1h"@ {
        3600
    } else if s == "6h"@ {
        21600
    } else if s == "48h"@ {
        172800
    } else {
        86400
    }
}

pub fn interval_seconds(s: &str) -> (n: u64)
    ensures
        n == interval_secs(s@),
{
    if str_eq(s, "1h") {
        3600
    } else if str_eq(s, "6h") {
        21600
    } else if str_eq(s, "48h") {
        172800
    } else {
        86400
    }
}

/// The `std::time::Duration` that `Duration::from_secs` makes of a number of
/// seconds.
pub uninterp spec fn spec_duration_from_secs(secs: u64) -> std::time::Duration;

/// `std::time::Duration::from_secs`; only the naming of the result is claimed.
#[verifier::external_body]
fn duration_from_secs(secs: u64) -> (d: std::time::Duration)
    ensures
        d == spec_duration_from_secs(secs),
{
    std::time::Duration::from_secs(secs)
}

/// The pause between scheduled syncs.
pub fn interval_to_duration(s: &str) -> (d: std::time::Duration)
    ensures
        d == spec_duration_from_secs(interval_secs(s@)),
{
    duration_from_secs(interval_seconds(s))
}

/// The folder name with surrounding blanks and slashes removed.
pub open spec fn folder_name(remote_folder: Seq<char>) -> Seq<char> {
    text::trim_char(remote_folder, '/')
}

pub(crate) fn trim_slashes(v: &[char]) -> (r: Vec<char>)
    ensures
        r@ == text::trim_char(v@, '/'),
{
    let n = v.len();
    let mut lo: usize = 0;
    proof {
        assert(v@.subrange(0, n as int) =~= v@);
    }
    while lo < n && v[lo] == '/'
        invariant
            n == v@.len(),
            lo <= n,
            text::lead_run(v@, '/') == lo + text::lead_run(v@.subrange(lo as int, n as int), '/'),
        decreases n - lo,
    {
        proof {
            let rest = v@.subrange(lo as int, n as int);
            assert(rest.drop_first() =~= v@.subrange(lo + 1, n as int));
        }
        lo = lo + 1;
    }
    proof {
        let rest = v@.subrange(lo as int, n as int);
        assert(text::lead_run(rest, '/') == 0);
    }
    let t = text::sub_vec(v, lo, n);
    let m = t.len();
    let mut hi: usize = m;
    proof {
        assert(t@.subrange(0, m as int) =~= t@);
    }
    while hi > 0 && t[hi - 1] == '/'
        invariant
            m == t@.len(),
            hi <= m,
            text::trail_run(t@, '/') == (m - hi) + text::trail_run(t@.subrange(0, hi as int), '/'),
        decreases hi,
    {
        proof {
            let head = t@.subrange(0, hi as int);
            assert(head.drop_last() =~= t@.subrange(0, hi - 1));
        }
        hi = hi - 1;
    }
    proof {
        assert(t@.subrange(0, m as int) =~= t@);
    }
    text::sub_vec(t.as_slice(), 0, hi)
}

/// `disk:/{folder}` for the top directory, `disk:/{folder}/{rel_dir}` below it.
pub open spec fn remote_dir(remote_folder: Seq<char>, rel_dir: Seq<char>) -> Seq<char> {
    if rel_dir.len() == 0 {
        "disk:/"@ + folder_name(remote_folder)
    } else {
        "disk:/"@ + folder_name(remote_folder) + "/"@ + rel_dir
    }
}

pub fn remote_dir_for(remote_folder: &str, rel_dir: &str) -> (r: String)
    ensures
        r@ == remote_dir(remote_folder@, rel_dir@),
{
    let folder = trim_slashes(chars_of(remote_folder).as_slice());
    let mut r = "disk:/".to_string();
    r.append(string_from_chars(folder.as_slice()).as_str());
    if rel_dir.unicode_len() > 0 {
        r.append("/");
        r.append(rel_dir);
    }
    r
}

/// The directory part of a `/`-separated relative path (empty at the top).
pub open spec fn parent_dir(rel_path: Seq<char>) -> Seq<char> {
    let i = paths::last_slash(rel_path);
    if i < 0 {
        Seq::empty()
    } else {
        rel_path.subrange(0, i)
    }
}

/// The last piece of a `/`-separated relative path.
pub open spec fn entry_name(rel_path: Seq<char>) -> Seq<char> {
    let i = paths::last_slash(rel_path);
    rel_path.subrange(i + 1, rel_path.len() as int)
}

fn last_slash_pos(v: &[char]) -> (r: Option<usize>)
    ensures
        match r {
            Some(i) => paths::last_slash(v@) == i as int && i < v@.len(),
            None => paths::last_slash(v@) < 0,
        },
{
    let mut i: usize = v.len();
    proof {
        paths::lemma_last_slash_range(v@);
    }
    while i > 0
        invariant
            i <= v@.len(),
            forall|k: int| i <= k < v@.len() ==> v@[k] != '/',
        decreases i,
    {
        if v[i - 1] == '/' {
            proof {
                lemma_last_slash_is(v@, i - 1);
            }
            return Some(i - 1);
        }
        i = i - 1;
    }
    proof {
        lemma_no_slash_at_all(v@);
    }
    None
}

proof fn lemma_last_slash_is(s: Seq<char>, k: int)
    requires
        0 <= k < s.len(),
        s[k] == '/',
        forall|j: int| k < j < s.len() ==> s[j] != '/',
    ensures
        paths::last_slash(s) == k,
    decreases s.len(),
{
    if k < s.len() - 1 {
        lemma_last_slash_is(s.drop_last(), k);
    }
}

proof fn lemma_no_slash_at_all(s: Seq<char>)
    requires
        forall|j: int| 0 <= j < s.len() ==> s[j] != '/',
    ensures
        paths::last_slash(s) < 0,
    decreases s.len(),
{
    if s.len() > 0 {
        lemma_no_slash_at_all(s.drop_last());
    }
}

pub fn parent_rel_dir(rel_path: &str) -> (r: String)
    ensures
        r@ == parent_dir(rel_path@),
{
    let v = chars_of(rel_path);
    match last_slash_pos(v.as_slice()) {
        Some(i) => string_from_chars(text::sub_vec(v.as_slice(), 0, i).as_slice()),
        None => String::new(),
    }
}

pub fn entry_name_of(rel_path: &str) -> (r: String)
    ensures
        r@ == entry_name(rel_path@),
{
    let v = chars_of(rel_path);
    proof {
        paths::lemma_last_slash_range(v@);
    }
    match last_slash_pos(v.as_slice()) {
        Some(i) => {
            assert(i < v@.len());
            string_from_chars(text::sub_vec(v.as_slice(), i + 1, v.len()).as_slice())
        },
        None => {
            assert(v@.subrange(0, v@.len() as int) =~= v@);
            to_owned_string(rel_path)
        },
    }
}

/// Where a session's audio lives on the Disk: `disk:/{folder}/{rel}/{file}`
/// with `rel` the session directory relative to the recording root; `None`
/// for a blank file name or a directory outside the root.
pub open spec fn remote_audio(
    remote_folder: Seq<char>,
    recording_root: Seq<char>,
    session_dir: Seq<char>,
    audio_file: Seq<char>,
) -> Option<Seq<char>> {
    let file = text::trim(audio_file);
    if file.len() == 0 {
        None
    } else {
        match paths::strip_prefix(session_dir, recording_root) {
            None => None,
            Some(rel) => Some(
                "disk:/"@ + folder_name(text::trim(remote_folder)) + "/"@ + paths::join_with(
                    rel.push(file),
                    "/"@,
                ),
            ),
        }
    }
}

pub fn remote_audio_path(
    remote_folder: &str,
    recording_root: &str,
    session_dir: &str,
    audio_file: &str,
) -> (r: Option<String>)
    ensures
        match r {
            Some(p) => remote_audio(remote_folder@, recording_root@, session_dir@, audio_file@)
                == Some(p@),
            None => remote_audio(remote_folder@, recording_root@, session_dir@, audio_file@) is None,
        },
{
    let file = trim_str(audio_file);
    if file.unicode_len() == 0 {
        return None;
    }
    let rel = match paths::strip_prefix_joined(session_dir, recording_root) {
        Some(rel) => rel,
        None => return None,
    };
    let folder = trim_slashes(chars_of(trim_str(remote_folder)).as_slice());
    let mut out = "disk:/".to_string();
    out.append(string_from_chars(folder.as_slice()).as_str());
    out.append("/");
    let ghost cs = paths::strip_prefix(session_dir@, recording_root@)->0;
    proof {
        let comps = paths::components(session_dir@);
        lemma_components_nonempty(session_dir@);
        let b = paths::components(recording_root@).len();
        assert(cs == comps.subrange(b as int, comps.len() as int));
        assert forall|k: int| 0 <= k < cs.len() implies #[trigger] cs[k].len() > 0 by {
            assert(cs[k] == comps[k + b]);
        }
        lemma_join_empty_iff(cs);
    }
    if rel.len() > 0 {
        out.append(string_from_chars(rel.as_slice()).as_str());
        out.append("/");
        proof {
            assert(paths::join_with(cs.push(file@), "/"@) == paths::join_with(cs, "/"@) + "/"@
                + file@) by {
                reveal_strlit("/");
                assert(cs.push(file@).drop_last() =~= cs);
                assert(seq!['/'] =~= "/"@);
            }
        }
    } else {
        proof {
            assert(paths::join_with(cs.push(file@), "/"@) == file@) by {
                assert(cs.push(file@) =~= seq![file@]);
            }
        }
    }
    out.append(file);
    proof {
        reveal_strlit("/");
        assert(seq!['/'] =~= "/"@);
    }
    Some(out)
}

proof fn lemma_comps_nonempty(s: Seq<char>)
    ensures
        forall|k: int| 0 <= k < paths::comps_from(s).len() ==> #[trigger] paths::comps_from(s)[k].len() > 0,
    decreases s.len(),
{
    let i = paths::first_slash(s);
    paths::lemma_first_slash_range(s);
    if i >= 0 {
        let rest = s.subrange(i + 1, s.len() as int);
        lemma_comps_nonempty(rest);
        let head = s.subrange(0, i);
        let tail = paths::comps_from(rest);
        if !(head.len() == 0 || head == paths::dot()) {
            let c = paths::comps_from(s);
            assert(c == seq![head] + tail);
            assert forall|k: int| 0 <= k < c.len() implies #[trigger] c[k].len() > 0 by {
                if k > 0 {
                    assert(c[k] == tail[k - 1]);
                }
            }
        }
    }
}

proof fn lemma_components_nonempty(s: Seq<char>)
    ensures
        forall|k: int| 0 <= k < paths::components(s).len() ==> #[trigger] paths::components(s)[k].len() > 0,
{
    lemma_comps_nonempty(s);
    if paths::starts_with_cur_dir(s) {
        let c = paths::components(s);
        assert forall|k: int| 0 <= k < c.len() implies #[trigger] c[k].len() > 0 by {
            if k > 0 {
                assert(c[k] == paths::comps_from(s)[k - 1]);
            }
        }
    }
}

proof fn lemma_join_empty_iff(cs: Seq<Seq<char>>)
    requires
        forall|k: int| 0 <= k < cs.len() ==> #[trigger] cs[k].len() > 0,
    ensures
        (paths::join_with(cs, seq!['/']).len() == 0) == (cs.len() == 0),
{
    if cs.len() > 1 {
        assert(cs.last() == cs[cs.len() - 1]);
    } else if cs.len() == 1 {
        assert(cs[0].len() > 0);
    }
}

} // verus!
