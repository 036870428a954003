//! Uploading the whole archive to Brain: which sessions are due, in which
//! order they go, and the running tally reported while they are uploaded.
use crate::brain::BrainUploadResponse;
use crate::catalog::{instant_nanos, rfc3339_nanos, SessionEvent};
use crate::paths;
use crate::redaction::{sanitize_error, without_token};
use crate::session::SessionMeta;
use crate::tags::{lemma_lt_irreflexive, lemma_lt_total, lemma_lt_transitive, lemma_lt_asymmetric, seq_lt, chars_lt};
use crate::text::{self, chars_of, decimal_string, is_blank, str_eq, trim_string};
use vstd::prelude::*;

verus! {

broadcast use vstd::string::group_string_axioms;

/// The secret-store name of the Brain API token.
pub const TOKEN_KEY: &'static str = "BRAIN_SERVER_API_TOKEN";

/// The most error lines an archive run keeps.
pub const MAX_ARCHIVE_ERRORS: usize = 20;

/// Where a session's Brain upload stands, as its event log tells.
pub enum SessionUploadStatus {
    NotUploaded,
    Uploaded,
    Failed,
    Uploading { at_iso: String },
}

pub enum UploadStatusView {
    NotUploaded,
    Uploaded,
    Failed,
    Uploading(Seq<char>),
}

pub open spec fn status_view(s: SessionUploadStatus) -> UploadStatusView {
    match s {
        SessionUploadStatus::NotUploaded => UploadStatusView::NotUploaded,
        SessionUploadStatus::Uploaded => UploadStatusView::Uploaded,
        SessionUploadStatus::Failed => UploadStatusView::Failed,
        SessionUploadStatus::Uploading { at_iso } => UploadStatusView::Uploading(at_iso@),
    }
}

/// The status after the events, applied in log order: the last started,
/// succeeded or failed event decides.
pub open spec fn status_after(events: Seq<SessionEvent>) -> UploadStatusView
    decreases events.len(),
{
    if events.len() == 0 {
        UploadStatusView::NotUploaded
    } else {
        let prev = status_after(events.drop_last());
        let e = events.last();
        if e.event_type@ == "brain_upload_succeeded"@ {
            UploadStatusView::Uploaded
        } else if e.event_type@ == "brain_upload_failed"@ {
            UploadStatusView::Failed
        } else if e.event_type@ == "brain_upload_started"@ {
            UploadStatusView::Uploading(e.at_iso@)
        } else {
            prev
        }
    }
}

pub fn derive_brain_upload_status(events: &[SessionEvent]) -> (r: SessionUploadStatus)
    ensures
        status_view(r) == status_after(events@),
{
    let mut status = SessionUploadStatus::NotUploaded;
    let mut i: usize = 0;
    while i < events.len()
        invariant
            i <= events@.len(),
            status_view(status) == status_after(events@.subrange(0, i as int)),
        decreases events@.len() - i,
    {
        let event = &events[i];
        let kind = event.event_type.as_str();
        if str_eq(kind, "brain_upload_succeeded") {
            status = SessionUploadStatus::Uploaded;
        } else if str_eq(kind, "brain_upload_failed") {
            status = SessionUploadStatus::Failed;
        } else if str_eq(kind, "brain_upload_started") {
            status = SessionUploadStatus::Uploading { at_iso: event.at_iso.clone() };
        }
        i = i + 1;
        proof {
            assert(events@.subrange(0, i as int).drop_last() =~= events@.subrange(0, i - 1));
        }
    }
    proof {
        assert(events@.subrange(0, events@.len() as int) =~= events@);
    }
    status
}

/// An upload that started less than thirty minutes before `now_nanos` is
/// taken to be still running (a start in the future counts as running too).
pub open spec fn uploading_is_fresh(s: UploadStatusView, now_nanos: int) -> bool {
    match s {
        UploadStatusView::Uploading(at) => match rfc3339_nanos(at) {
            Some(start) => now_nanos - start < 1_800_000_000_000,
            None => false,
        },
        _ => false,
    }
}

pub fn fresh_uploading(status: &SessionUploadStatus, now_nanos: i128) -> (b: bool)
    ensures
        b == uploading_is_fresh(status_view(*status), now_nanos as int),
{
    match status {
        SessionUploadStatus::Uploading { at_iso } => match instant_nanos(at_iso.as_str()) {
            Some(start) => now_nanos < start + 1_800_000_000_000,
            None => false,
        },
        _ => false,
    }
}

/// A session is due for the archive upload unless it was uploaded or an
/// upload of it is still running.
pub open spec fn is_due(s: UploadStatusView, now_nanos: int) -> bool {
    !(s is Uploaded || uploading_is_fresh(s, now_nanos))
}

pub fn is_archive_candidate(status: &SessionUploadStatus, now_nanos: i128) -> (b: bool)
    ensures
        b == is_due(status_view(*status), now_nanos as int),
{
    let uploaded = match status {
        SessionUploadStatus::Uploaded => true,
        _ => false,
    };
    !(uploaded || fresh_uploading(status, now_nanos))
}

/// The instant a session is ordered by: its start, or its creation when the
/// start is blank.
pub open spec fn sort_key(started: Seq<char>, created: Seq<char>) -> Seq<char> {
    if text::trim(started).len() == 0 {
        created
    } else {
        started
    }
}

pub fn archive_sort_key(meta: &SessionMeta) -> (k: String)
    ensures
        k@ == sort_key(meta.started_at_iso@, meta.created_at_iso@),
{
    if is_blank(meta.started_at_iso.as_str()) {
        meta.created_at_iso.clone()
    } else {
        meta.started_at_iso.clone()
    }
}

/// Candidate `a` goes before candidate `b`: a smaller key, or the same key and
/// an earlier place in the listing.
pub open spec fn goes_before(keys: Seq<Seq<char>>, a: int, b: int) -> bool {
    seq_lt(keys[a], keys[b]) || (keys[a] == keys[b] && a < b)
}

proof fn lemma_goes_before_transitive(keys: Seq<Seq<char>>, a: int, b: int, c: int)
    requires
        goes_before(keys, a, b),
        goes_before(keys, b, c),
    ensures
        goes_before(keys, a, c),
{
    if seq_lt(keys[a], keys[b]) && seq_lt(keys[b], keys[c]) {
        lemma_lt_transitive(keys[a], keys[b], keys[c]);
    }
}

/// The visiting order of the candidates: their positions sorted by key,
/// candidates with equal keys keeping their listed order.
pub open spec fn is_archive_order(keys: Seq<Seq<char>>, order: Seq<usize>) -> bool {
    &&& order.len() == keys.len()
    &&& forall|i: int| 0 <= i < order.len() ==> (order[i] as int) < keys.len()
    &&& forall|c: usize| (c as int) < keys.len() ==> #[trigger] order.contains(c)
    &&& forall|i: int, j: int|
        0 <= i < j < order.len() ==> goes_before(keys, order[i] as int, order[j] as int)
}

/// No candidate is visited twice.
pub proof fn lemma_archive_order_no_repeats(keys: Seq<Seq<char>>, order: Seq<usize>)
    requires
        is_archive_order(keys, order),
    ensures
        forall|i: int, j: int| 0 <= i < j < order.len() ==> order[i] != order[j],
{
    assert forall|i: int, j: int| 0 <= i < j < order.len() implies order[i] != order[j] by {
        assert(goes_before(keys, order[i] as int, order[j] as int));
        if order[i] == order[j] {
            lemma_lt_irreflexive(keys[order[i] as int]);
        }
    }
}

/// The order in which the archive upload visits the candidates whose keys
/// are given in listing order.
pub fn archive_order(keys: &Vec<String>) -> (order: Vec<usize>)
    ensures
        is_archive_order(paths::string_views(keys@), order@),
{
    let ghost ks = paths::string_views(keys@);
    let mut order: Vec<usize> = Vec::new();
    let mut i: usize = 0;
    while i < keys.len()
        invariant
            ks == paths::string_views(keys@),
            i <= keys@.len(),
            order@.len() == i,
            forall|k: int| 0 <= k < order@.len() ==> (order@[k] as int) < i,
            forall|c: usize| c < i ==> #[trigger] order@.contains(c),
            forall|a: int, b: int|
                0 <= a < b < order@.len() ==> goes_before(ks, order@[a] as int, order@[b] as int),
        decreases keys@.len() - i,
    {
        let ki = chars_of(keys[i].as_str());
        let mut p: usize = 0;
        while p < order.len() && !chars_lt(ki.as_slice(), chars_of(keys[order[p]].as_str()).as_slice())
            invariant
                ks == paths::string_views(keys@),
                i < keys@.len(),
                ki@ == ks[i as int],
                p <= order@.len(),
                forall|k: int| 0 <= k < order@.len() ==> (order@[k] as int) < i,
                forall|k: int| 0 <= k < p ==> goes_before(ks, #[trigger] order@[k] as int, i as int),
            decreases order@.len() - p,
        {
            proof {
                let o = order@[p as int] as int;
                lemma_lt_total(ks[o], ks[i as int]);
            }
            p = p + 1;
        }
        let ghost before = order@;
        proof {
            if p < before.len() {
                assert(seq_lt(ks[i as int], ks[before[p as int] as int]));
            }
        }
        order.insert(p, i);
        proof {
            let after = order@;
            assert forall|a: int, b: int|
                0 <= a < b < after.len() implies goes_before(ks, after[a] as int, after[b] as int) by {
                if b < p {
                    assert(after[a] == before[a] && after[b] == before[b]);
                } else if b == p {
                    assert(after[a] == before[a]);
                } else if a < p {
                    assert(after[a] == before[a] && after[b] == before[b - 1]);
                } else if a == p {
                    assert(after[b] == before[b - 1]);
                    let o = before[b - 1] as int;
                    if b - 1 > p {
                        assert(goes_before(ks, before[p as int] as int, o));
                        assert(seq_lt(ks[i as int], ks[before[p as int] as int]));
                        lemma_goes_before_transitive(ks, i as int, before[p as int] as int, o);
                    } else {
                        assert(seq_lt(ks[i as int], ks[o]));
                    }
                } else {
                    assert(after[a] == before[a - 1] && after[b] == before[b - 1]);
                }
            }
            assert forall|c: usize| c < i + 1 implies #[trigger] after.contains(c) by {
                if c == i {
                    assert(after[p as int] == i);
                } else {
                    assert(before.contains(c));
                    let k = choose|k: int| 0 <= k < before.len() && before[k] == c;
                    if k < p {
                        assert(after[k] == before[k]);
                    } else {
                        assert(after[k + 1] == before[k]);
                    }
                }
            }
        }
        i = i + 1;
    }
    order
}

/// How one session of an archive run ended.
pub struct BrainArchiveUploadSummary {
    pub total: usize,
    pub uploaded: usize,
    pub skipped: usize,
    pub failed: usize,
    pub errors: Vec<String>,
}

/// What the interface is shown while the archive is uploaded.
pub struct BrainArchiveUploadProgress {
    pub total: usize,
    pub processed: usize,
    pub uploaded: usize,
    pub skipped: usize,
    pub failed: usize,
    pub current_session_id: Option<String>,
    pub current_title: Option<String>,
    pub errors: Vec<String>,
}

/// Keeps an error line unless twenty are kept already.
pub fn archive_error(errors: &mut Vec<String>, message: String)
    ensures
        old(errors)@.len() < 20 ==> final(errors)@ == old(errors)@.push(message),
        old(errors)@.len() >= 20 ==> final(errors)@ == old(errors)@,
{
    if errors.len() < MAX_ARCHIVE_ERRORS {
        errors.push(message);
    }
}

/// The tally before the first session.
pub fn new_archive_summary(total: usize) -> (s: BrainArchiveUploadSummary)
    ensures
        s.total == total,
        s.uploaded == 0 && s.skipped == 0 && s.failed == 0,
        s.errors@.len() == 0,
{
    BrainArchiveUploadSummary { total, uploaded: 0, skipped: 0, failed: 0, errors: Vec::new() }
}

fn clone_lines(v: &Vec<String>) -> (r: Vec<String>)
    ensures
        paths::string_views(r@) == paths::string_views(v@),
{
    let mut out: Vec<String> = Vec::new();
    let mut i: usize = 0;
    while i < v.len()
        invariant
            i <= v@.len(),
            out@.len() == i,
            forall|j: int| 0 <= j < i ==> #[trigger] out@[j]@ == v@[j]@,
        decreases v@.len() - i,
    {
        out.push(v[i].clone());
        i = i + 1;
    }
    assert(paths::string_views(out@) =~= paths::string_views(v@));
    out
}

pub fn progress_from_summary(
    total: usize,
    processed: usize,
    summary: &BrainArchiveUploadSummary,
    current_session_id: Option<String>,
    current_title: Option<String>,
) -> (p: BrainArchiveUploadProgress)
    ensures
        p.total == total,
        p.processed == processed,
        p.uploaded == summary.uploaded,
        p.skipped == summary.skipped,
        p.failed == summary.failed,
        p.current_session_id == current_session_id,
        p.current_title == current_title,
        paths::string_views(p.errors@) == paths::string_views(summary.errors@),
{
    BrainArchiveUploadProgress {
        total,
        processed,
        uploaded: summary.uploaded,
        skipped: summary.skipped,
        failed: summary.failed,
        current_session_id,
        current_title,
        errors: clone_lines(&summary.errors),
    }
}

/// The error lines an outcome adds before the cap applies.
pub open spec fn outcome_line(
    session_id: Seq<char>,
    outcome: Result<BrainUploadResponse, String>,
    token: Seq<char>,
) -> Option<Seq<char>> {
    match outcome {
        Ok(r) => if r.duplicate == Some(true) {
            Some(session_id + ": already_uploaded"@)
        } else {
            None
        },
        Err(e) => Some(without_token(e@, token)),
    }
}

pub open spec fn capped_push(errors: Seq<Seq<char>>, line: Option<Seq<char>>) -> Seq<Seq<char>> {
    match line {
        Some(l) => if errors.len() < 20 {
            errors.push(l)
        } else {
            errors
        },
        None => errors,
    }
}

/// `after` is `before` with one session's outcome counted: a duplicate reply
/// as a skip, any other reply as an upload, an error as a failure, and the
/// outcome's error line kept while fewer than twenty are.
pub open spec fn counts_outcome(
    before: BrainArchiveUploadSummary,
    after: BrainArchiveUploadSummary,
    session_id: Seq<char>,
    outcome: Result<BrainUploadResponse, String>,
    token: Seq<char>,
) -> bool {
    &&& after.total == before.total
    &&& paths::string_views(after.errors@) == capped_push(
        paths::string_views(before.errors@),
        outcome_line(session_id, outcome, token),
    )
    &&& match outcome {
        Ok(r) => if r.duplicate == Some(true) {
            after.skipped == before.skipped + 1 && after.uploaded == before.uploaded && after.failed
                == before.failed
        } else {
            after.uploaded == before.uploaded + 1 && after.skipped == before.skipped && after.failed
                == before.failed
        },
        Err(_) => after.failed == before.failed + 1 && after.uploaded == before.uploaded && after.skipped
            == before.skipped,
    }
}

/// Counts one session's outcome: a duplicate reply is a skip (noted as
/// already uploaded), any other reply an upload, an error a failure (noted
/// with the token removed).
pub fn record_archive_outcome(
    summary: &mut BrainArchiveUploadSummary,
    session_id: &str,
    outcome: Result<BrainUploadResponse, String>,
    token: &str,
)
    requires
        old(summary).uploaded + old(summary).skipped + old(summary).failed < usize::MAX,
    ensures
        counts_outcome(*old(summary), *final(summary), session_id@, outcome, token@),
{
    let ghost old_errors = paths::string_views(summary.errors@);
    match outcome {
        Ok(r) => {
            let duplicate = match r.duplicate {
                Some(d) => d,
                None => false,
            };
            if duplicate {
                summary.skipped = summary.skipped + 1;
                let mut line = session_id.to_string();
                line.append(": already_uploaded");
                archive_error(&mut summary.errors, line);
            } else {
                summary.uploaded = summary.uploaded + 1;
            }
        },
        Err(e) => {
            summary.failed = summary.failed + 1;
            let line = sanitize_error(e, token);
            archive_error(&mut summary.errors, line);
        },
    }
    proof {
        let new_errors = paths::string_views(summary.errors@);
        assert(new_errors =~= capped_push(old_errors, outcome_line(session_id@, outcome, token@)));
    }
}

/// The event detail written when an archive run starts.
pub fn archive_started_detail(total: usize) -> (d: String)
    ensures
        d@ == "Uploading "@ + text::decimal(total as nat) + " archived Brain sessions"@,
{
    let mut d = "Uploading ".to_string();
    d.append(decimal_string(total as u64).as_str());
    d.append(" archived Brain sessions");
    d
}

/// The event detail written when an archive run ends.
pub fn archive_finished_detail(summary: &BrainArchiveUploadSummary) -> (d: String)
    ensures
        d@ == "uploaded="@ + text::decimal(summary.uploaded as nat) + ", skipped="@ + text::decimal(
            summary.skipped as nat,
        ) + ", failed="@ + text::decimal(summary.failed as nat),
{
    let mut d = "uploaded=".to_string();
    d.append(decimal_string(summary.uploaded as u64).as_str());
    d.append(", skipped=");
    d.append(decimal_string(summary.skipped as u64).as_str());
    d.append(", failed=");
    d.append(decimal_string(summary.failed as u64).as_str());
    d
}

/// An audio file name that stays inside the session directory: not blank,
/// relative, and made of plain names only (no `.` start and no `..`).
pub open spec fn safe_audio_name(audio_file: Seq<char>) -> Option<Seq<char>> {
    let t = text::trim(audio_file);
    if t.len() == 0 || paths::is_absolute(t) || paths::starts_with_cur_dir(t) || paths::comps_from(
        t,
    ).contains(paths::dotdot()) {
        None
    } else {
        Some(t)
    }
}

/// The checks on a session's audio file name that come before looking at the
/// file system.
pub fn relative_audio_file(audio_file: &str) -> (r: Option<String>)
    ensures
        match r {
            Some(t) => safe_audio_name(audio_file@) == Some(t@),
            None => safe_audio_name(audio_file@) is None,
        },
{
    let t = trim_string(audio_file);
    if t.as_str().unicode_len() == 0 || paths::is_absolute_path(t.as_str()) {
        return None;
    }
    let v = chars_of(t.as_str());
    if v.len() > 0 && v[0] == '.' && (v.len() == 1 || v[1] == '/') {
        return None;
    }
    let comps = paths::comps_vec(v.as_slice());
    let mut i: usize = 0;
    while i < comps.len()
        invariant
            i <= comps@.len(),
            t@ == text::trim(audio_file@),
            t@.len() > 0 && !paths::is_absolute(t@) && !paths::starts_with_cur_dir(t@),
            paths::views(comps@) == paths::comps_from(t@),
            forall|k: int| 0 <= k < i ==> paths::views(comps@)[k] != paths::dotdot(),
        decreases comps@.len() - i,
    {
        let c = &comps[i];
        if c.len() == 2 && c[0] == '.' && c[1] == '.' {
            proof {
                assert(paths::views(comps@)[i as int] =~= paths::dotdot());
                assert(paths::comps_from(t@)[i as int] == paths::dotdot());
                assert(paths::comps_from(t@).contains(paths::dotdot()));
            }
            return None;
        }
        proof {
            assert(paths::views(comps@)[i as int] == c@);
            if c@ == paths::dotdot() {
                assert(c@.len() == 2 && c@[0] == '.' && c@[1] == '.');
            }
        }
        i = i + 1;
    }
    Some(t)
}

pub open spec fn is_upload_event(kind: Seq<char>) -> bool {
    kind == "brain_upload_started"@ || kind == "brain_upload_succeeded"@ || kind == "brain_upload_failed"@
}

proof fn lemma_unrelated_events_keep_status(pre: Seq<SessionEvent>, post: Seq<SessionEvent>)
    requires
        forall|k: int| 0 <= k < post.len() ==> !is_upload_event(#[trigger] post[k].event_type@),
    ensures
        status_after(pre + post) == status_after(pre),
    decreases post.len(),
{
    if post.len() > 0 {
        lemma_unrelated_events_keep_status(pre, post.drop_last());
        assert((pre + post).drop_last() =~= pre + post.drop_last());
        assert((pre + post).last() == post.last());
        assert(!is_upload_event(post[post.len() - 1].event_type@));
    } else {
        assert(pre + post =~= pre);
    }
}

/// The last upload event of a session's log decides its status, whatever
/// came before and whatever unrelated events follow: a failure leaves the
/// session failed, and so due for the archive upload at any time; a success
/// leaves it uploaded, and never due; a start leaves it uploading since that
/// event's time.
pub proof fn lemma_last_upload_event_decides(
    pre: Seq<SessionEvent>,
    last: SessionEvent,
    post: Seq<SessionEvent>,
    now_nanos: int,
)
    requires
        forall|k: int| 0 <= k < post.len() ==> !is_upload_event(#[trigger] post[k].event_type@),
    ensures
        last.event_type@ == "brain_upload_failed"@ ==> status_after(pre + seq![last] + post) == UploadStatusView::Failed
            && is_due(status_after(pre + seq![last] + post), now_nanos),
        last.event_type@ == "brain_upload_succeeded"@ ==> status_after(pre + seq![last] + post)
            == UploadStatusView::Uploaded && !is_due(status_after(pre + seq![last] + post), now_nanos),
        last.event_type@ == "brain_upload_started"@ ==> status_after(pre + seq![last] + post)
            == UploadStatusView::Uploading(last.at_iso@),
{
    reveal_strlit("brain_upload_started");
    reveal_strlit("brain_upload_succeeded");
    reveal_strlit("brain_upload_failed");
    assert("brain_upload_failed"@[13] == 'f' && "brain_upload_succeeded"@[13] == 's');
    assert("brain_upload_started"@[14] == 't' && "brain_upload_succeeded"@[14] == 'u');
    assert("brain_upload_failed"@ != "brain_upload_succeeded"@);
    assert("brain_upload_started"@ != "brain_upload_succeeded"@);
    assert("brain_upload_started"@ != "brain_upload_failed"@);
    let head = pre + seq![last];
    lemma_unrelated_events_keep_status(head, post);
    assert(head.drop_last() =~= pre);
    assert(head.last() == last);
}

} // verus!
