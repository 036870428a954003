//! Which Brain uploads are running: the in-process registry that keeps one
//! archive upload and one upload per session at a time, and the naming and
//! expiry rules of the cross-process leases that back it.
use crate::text::{chars_of, chars_start_with, str_eq};
use vstd::prelude::*;

verus! {

broadcast use vstd::string::group_string_axioms;

/// Lease lifetime when none is given: two hours.
pub const DEFAULT_LEASE_TTL_SECS: i64 = 7200;

/// The lease key of the archive upload.
pub fn archive_lease_key() -> (k: &'static str)
    ensures
        k@ == "archive"@,
{
    "archive"
}

pub open spec fn session_lease(session_id: Seq<char>) -> Seq<char> {
    "session:"@ + session_id
}

/// The lease key of one session's upload.
pub fn session_lease_key(session_id: &str) -> (k: String)
    ensures
        k@ == session_lease(session_id@),
{
    let mut k = "session:".to_string();
    k.append(session_id);
    k
}

pub fn default_lease_ttl_secs() -> (t: i64)
    ensures
        t == 7200,
{
    DEFAULT_LEASE_TTL_SECS
}

/// When a lease taken at `now` for `ttl_secs` runs out: at least one second
/// later, saturating at the largest instant.
pub open spec fn lease_expiry_at(now: int, ttl_secs: int) -> int {
    let ttl = if ttl_secs < 1 {
        1
    } else {
        ttl_secs
    };
    if now + ttl > i64::MAX {
        i64::MAX as int
    } else if now + ttl < i64::MIN {
        i64::MIN as int
    } else {
        now + ttl
    }
}

pub fn lease_expiry(now: i64, ttl_secs: i64) -> (e: i64)
    ensures
        e == lease_expiry_at(now as int, ttl_secs as int),
{
    let ttl: i64 = if ttl_secs < 1 {
        1
    } else {
        ttl_secs
    };
    if now > i64::MAX - ttl {
        i64::MAX
    } else {
        now + ttl
    }
}

/// A lease whose expiry is not after `now` is stale and may be taken over.
pub fn lease_is_expired(holder_expires_at: i64, now: i64) -> (b: bool)
    ensures
        b == (holder_expires_at <= now),
{
    holder_expires_at <= now
}

/// Prefix of every refusal caused by an upload that is already running.
pub open spec fn already_running_prefix() -> Seq<char> {
    "BRAIN_ALREADY_RUNNING:"@
}

/// The refusal when another process holds the lease.
pub fn lease_held_error(lease_key: &str) -> (e: String)
    ensures
        e@ == "BRAIN_ALREADY_RUNNING: Brain upload lease is held by another process ("@ + lease_key@
            + ")"@,
{
    let mut e = "BRAIN_ALREADY_RUNNING: Brain upload lease is held by another process (".to_string();
    e.append(lease_key);
    e.append(")");
    e
}

/// Whether a message reports an upload that is already running.
pub fn is_already_running_error(message: &str) -> (b: bool)
    ensures
        b == crate::text::has_prefix(message@, already_running_prefix()),
{
    let m = chars_of(message);
    let p = chars_of("BRAIN_ALREADY_RUNNING:");
    chars_start_with(m.as_slice(), p.as_slice())
}

/// A cross-process lease held by this process.
pub struct BrainUploadLeaseGuard {
    pub app_data_dir: String,
    pub lease_key: String,
    pub active: bool,
}

/// The registry of running uploads, as a pair: whether the archive upload
/// runs, and the sessions whose upload runs.
pub struct RuntimeView {
    pub archive_running: bool,
    pub sessions: Set<Seq<char>>,
}

/// The uploads running in this process. Each session appears at most once.
pub struct BrainUploadRuntimeState {
    archive_running: bool,
    session_uploads: Vec<String>,
}

/// Holds the archive upload's place until it is finished.
pub struct BrainArchiveGuard {
    pub lease: BrainUploadLeaseGuard,
    pub active: bool,
}

/// Holds one session's upload place until it is finished.
pub struct BrainSessionUploadGuard {
    pub lease: BrainUploadLeaseGuard,
    pub session_id: String,
    pub active: bool,
}

pub open spec fn archive_running_message() -> Seq<char> {
    "BRAIN_ALREADY_RUNNING: Загрузка архива Brain уже выполняется"@
}

pub open spec fn session_running_message() -> Seq<char> {
    "BRAIN_ALREADY_RUNNING: Загрузка Brain для этой записи уже выполняется"@
}

/// The archive upload may start unless one runs.
pub open spec fn begin_archive(v: RuntimeView) -> Option<RuntimeView> {
    if v.archive_running {
        None
    } else {
        Some(RuntimeView { archive_running: true, ..v })
    }
}

pub open spec fn end_archive(v: RuntimeView) -> RuntimeView {
    RuntimeView { archive_running: false, ..v }
}

/// A session's upload may start unless one runs for the same session.
pub open spec fn begin_session(v: RuntimeView, id: Seq<char>) -> Option<RuntimeView> {
    if v.sessions.contains(id) {
        None
    } else {
        Some(RuntimeView { sessions: v.sessions.insert(id), ..v })
    }
}

pub open spec fn end_session(v: RuntimeView, id: Seq<char>) -> RuntimeView {
    RuntimeView { sessions: v.sessions.remove(id), ..v }
}

impl BrainUploadRuntimeState {
    #[verifier::type_invariant]
    spec fn no_duplicates(self) -> bool {
        forall|i: int, j: int|
            0 <= i < j < self.session_uploads@.len() ==> self.session_uploads@[i]@
                != self.session_uploads@[j]@
    }

    pub closed spec fn view(self) -> RuntimeView {
        RuntimeView {
            archive_running: self.archive_running,
            sessions: Set::new(
                |s: Seq<char>|
                    exists|i: int|
                        0 <= i < self.session_uploads@.len() && #[trigger] self.session_uploads@[i]@
                            == s,
            ),
        }
    }

    /// Nothing running.
    pub fn new() -> (s: Self)
        ensures
            !s.view().archive_running,
            s.view().sessions == Set::<Seq<char>>::empty(),
    {
        let s = BrainUploadRuntimeState { archive_running: false, session_uploads: Vec::new() };
        assert(s.view().sessions =~= Set::<Seq<char>>::empty());
        s
    }

    pub fn is_archive_running(&self) -> (b: bool)
        ensures
            b == self.view().archive_running,
    {
        self.archive_running
    }

    fn position_of(&self, session_id: &str) -> (r: Option<usize>)
        ensures
            match r {
                Some(i) => i < self.session_uploads@.len() && self.session_uploads@[i as int]@
                    == session_id@,
                None => !self.view().sessions.contains(session_id@),
            },
    {
        let mut i: usize = 0;
        while i < self.session_uploads.len()
            invariant
                i <= self.session_uploads@.len(),
                forall|k: int| 0 <= k < i ==> self.session_uploads@[k]@ != session_id@,
            decreases self.session_uploads@.len() - i,
        {
            if str_eq(self.session_uploads[i].as_str(), session_id) {
                return Some(i);
            }
            i = i + 1;
        }
        None
    }

    /// Whether an upload of this session runs.
    pub fn is_session_uploading(&self, session_id: &str) -> (b: bool)
        ensures
            b == self.view().sessions.contains(session_id@),
    {
        self.position_of(session_id).is_some()
    }

    /// Refuses when the archive upload already runs.
    pub fn archive_start_check(&self) -> (r: Result<(), String>)
        ensures
            r is Ok <==> !self.view().archive_running,
            r matches Err(e) ==> e@ == archive_running_message(),
    {
        if self.archive_running {
            Err("BRAIN_ALREADY_RUNNING: Загрузка архива Brain уже выполняется".to_string())
        } else {
            Ok(())
        }
    }

    /// Refuses when this session's upload already runs.
    pub fn session_start_check(&self, session_id: &str) -> (r: Result<(), String>)
        ensures
            r is Ok <==> !self.view().sessions.contains(session_id@),
            r matches Err(e) ==> e@ == session_running_message(),
    {
        if self.is_session_uploading(session_id) {
            Err("BRAIN_ALREADY_RUNNING: Загрузка Brain для этой записи уже выполняется".to_string())
        } else {
            Ok(())
        }
    }

    /// Marks the archive upload finished.
    pub fn finish_archive_upload(&mut self, guard: &mut BrainArchiveGuard)
        ensures
            old(guard).active ==> final(self).view() == end_archive(old(self).view()),
            !old(guard).active ==> final(self).view() == old(self).view(),
            !final(guard).active,
    {
        proof {
            use_type_invariant(&*self);
        }
        if guard.active {
            self.archive_running = false;
            guard.active = false;
        }
    }

    /// Marks one session's upload finished.
    pub fn finish_session_upload(&mut self, guard: &mut BrainSessionUploadGuard)
        ensures
            old(guard).active ==> final(self).view() == end_session(
                old(self).view(),
                old(guard).session_id@,
            ),
            !old(guard).active ==> final(self).view() == old(self).view(),
            !final(guard).active,
            final(guard).session_id@ == old(guard).session_id@,
    {
        proof {
            use_type_invariant(&*self);
        }
        if guard.active {
            match self.position_of(guard.session_id.as_str()) {
                Some(i) => {
                    let ghost before = self.session_uploads@;
                    let mut uploads: Vec<String> = Vec::new();
                    std::mem::swap(&mut uploads, &mut self.session_uploads);
                    uploads.remove(i);
                    proof {
                        let after = uploads@;
                        assert forall|a: int, b: int|
                            0 <= a < b < after.len() implies after[a]@ != after[b]@ by {
                            let a0 = if a < i { a } else { a + 1 };
                            let b0 = if b < i { b } else { b + 1 };
                            assert(after[a] == before[a0]);
                            assert(after[b] == before[b0]);
                        }
                    }
                    self.session_uploads = uploads;
                    proof {
                        let id = old(guard).session_id@;
                        let newv = self.view().sessions;
                        let want = old(self).view().sessions.remove(id);
                        assert forall|s: Seq<char>| newv.contains(s) == want.contains(s) by {
                            if newv.contains(s) {
                                let k = choose|k: int|
                                    0 <= k < self.session_uploads@.len()
                                        && #[trigger] self.session_uploads@[k]@ == s;
                                let k0 = if k < i { k } else { k + 1 };
                                assert(before[k0]@ == s);
                                assert(s != id);
                            }
                            if want.contains(s) {
                                let k = choose|k: int|
                                    0 <= k < before.len() && #[trigger] before[k]@ == s;
                                assert(k != i);
                                let k1 = if k < i { k } else { k - 1 };
                                assert(self.session_uploads@[k1]@ == s);
                            }
                        }
                        assert(newv =~= want);
                    }
                },
                None => {
                    assert(old(self).view().sessions.remove(old(guard).session_id@) =~= old(
                        self,
                    ).view().sessions);
                },
            }
            guard.active = false;
        }
    }
}

/// Starts the archive upload under the lease the caller took, unless one
/// runs already (the lease is then dropped unused).
pub fn try_begin_archive_upload(
    state: &mut BrainUploadRuntimeState,
    lease: BrainUploadLeaseGuard,
) -> (r: Result<BrainArchiveGuard, String>)
    ensures
        match begin_archive(old(state).view()) {
            Some(v) => final(state).view() == v && (r matches Ok(g) && g.active),
            None => final(state).view() == old(state).view() && (r matches Err(e) && e@
                == archive_running_message()),
        },
{
    proof {
        use_type_invariant(&*state);
    }
    if state.archive_running {
        return Err("BRAIN_ALREADY_RUNNING: Загрузка архива Brain уже выполняется".to_string());
    }
    state.archive_running = true;
    Ok(BrainArchiveGuard { lease, active: true })
}

/// Starts one session's upload under the lease the caller took, unless an
/// upload of the same session runs already.
pub fn try_begin_session_upload(
    state: &mut BrainUploadRuntimeState,
    session_id: &str,
    lease: BrainUploadLeaseGuard,
) -> (r: Result<BrainSessionUploadGuard, String>)
    ensures
        match begin_session(old(state).view(), session_id@) {
            Some(v) => final(state).view() == v && (r matches Ok(g) && g.active && g.session_id@
                == session_id@),
            None => final(state).view() == old(state).view() && (r matches Err(e) && e@
                == session_running_message()),
        },
{
    proof {
        use_type_invariant(&*state);
    }
    if state.is_session_uploading(session_id) {
        return Err(
            "BRAIN_ALREADY_RUNNING: Загрузка Brain для этой записи уже выполняется".to_string(),
        );
    }
    let ghost before = state.session_uploads@;
    let mut uploads: Vec<String> = Vec::new();
    std::mem::swap(&mut uploads, &mut state.session_uploads);
    uploads.push(session_id.to_string());
    proof {
        let after = uploads@;
        assert forall|a: int, b: int| 0 <= a < b < after.len() implies after[a]@ != after[b]@ by {
            if b == before.len() {
                assert(after[a] == before[a]);
                assert(old(state).view().sessions.contains(after[a]@) ==> true);
                if after[a]@ == session_id@ {
                    assert(old(state).view().sessions.contains(session_id@));
                }
            }
        }
    }
    state.session_uploads = uploads;
    proof {
        let newv = state.view().sessions;
        let want = old(state).view().sessions.insert(session_id@);
        assert forall|s: Seq<char>| newv.contains(s) == want.contains(s) by {
            if newv.contains(s) {
                let k = choose|k: int|
                    0 <= k < state.session_uploads@.len() && #[trigger] state.session_uploads@[k]@
                        == s;
                if k < before.len() {
                    assert(before[k]@ == s);
                }
            }
            if want.contains(s) {
                if s == session_id@ {
                    assert(state.session_uploads@[before.len() as int]@ == s);
                } else {
                    let k = choose|k: int| 0 <= k < before.len() && #[trigger] before[k]@ == s;
                    assert(state.session_uploads@[k]@ == s);
                }
            }
        }
        assert(newv =~= want);
    }
    Ok(BrainSessionUploadGuard { lease, session_id: session_id.to_string(), active: true })
}

/// A fresh registry for the application state (callers share it behind a
/// lock).
pub fn new_shared_state() -> (s: BrainUploadRuntimeState)
    ensures
        !s.view().archive_running,
        s.view().sessions == Set::<Seq<char>>::empty(),
{
    BrainUploadRuntimeState::new()
}

/// Only one archive upload runs at a time: starting it while it runs is
/// refused, and once it has finished it may start again.
pub proof fn lemma_archive_exclusive(v: RuntimeView)
    requires
        begin_archive(v) is Some,
    ensures
        begin_archive(begin_archive(v)->0) is None,
        begin_archive(end_archive(begin_archive(v)->0)) is Some,
{
}

/// Uploads of one session exclude each other but not those of other
/// sessions, and finishing an upload lets the same session start again.
pub proof fn lemma_session_exclusive(v: RuntimeView, id: Seq<char>, other: Seq<char>)
    requires
        begin_session(v, id) is Some,
        other != id,
    ensures
        begin_session(begin_session(v, id)->0, id) is None,
        begin_session(begin_session(v, id)->0, other) is Some <==> begin_session(v, other) is Some,
        begin_session(end_session(begin_session(v, id)->0, id), id) is Some,
{
}

/// Every refusal for a running upload is recognised as such.
pub proof fn lemma_refusals_are_recognised(key: Seq<char>)
    ensures
        crate::text::has_prefix(archive_running_message(), already_running_prefix()),
        crate::text::has_prefix(session_running_message(), already_running_prefix()),
        crate::text::has_prefix(
            "BRAIN_ALREADY_RUNNING: Brain upload lease is held by another process ("@ + key + ")"@,
            already_running_prefix(),
        ),
{
    reveal_strlit("BRAIN_ALREADY_RUNNING:");
    reveal_strlit("BRAIN_ALREADY_RUNNING: Загрузка архива Brain уже выполняется");
    reveal_strlit("BRAIN_ALREADY_RUNNING: Загрузка Brain для этой записи уже выполняется");
    reveal_strlit("BRAIN_ALREADY_RUNNING: Brain upload lease is held by another process (");
    let p = already_running_prefix();
    assert(archive_running_message().subrange(0, p.len() as int) =~= p);
    assert(session_running_message().subrange(0, p.len() as int) =~= p);
    let l = "BRAIN_ALREADY_RUNNING: Brain upload lease is held by another process ("@ + key + ")"@;
    assert(l.subrange(0, p.len() as int) =~= p);
}

/// A lease taken at `now` is held (not expired) at every instant before its
/// time to live has passed, and expired from then on.
pub proof fn lemma_lease_holds_for_ttl(now: int, ttl_secs: int, t: int)
    requires
        i64::MIN <= now,
        ttl_secs >= 1,
        now + ttl_secs <= i64::MAX,
    ensures
        now <= t < now + ttl_secs ==> !(lease_expiry_at(now, ttl_secs) <= t),
        t >= now + ttl_secs ==> lease_expiry_at(now, ttl_secs) <= t,
{
}

/// The sequence of session uploads: from any registry where neither session
/// runs, `first` starts; starting `first` again is refused with a refusal
/// recognised as an upload already running, and leaves the registry as it
/// was; `second` still starts beside it; once `first` has finished it starts
/// again, while `second` keeps running.
pub proof fn lemma_session_upload_sequence(v: RuntimeView, first: Seq<char>, second: Seq<char>)
    requires
        !v.sessions.contains(first),
        !v.sessions.contains(second),
        first != second,
    ensures
        begin_session(v, first) is Some,
        begin_session(begin_session(v, first)->0, first) is None,
        crate::text::has_prefix(session_running_message(), already_running_prefix()),
        begin_session(begin_session(v, first)->0, second) is Some,
        ({
            let both = begin_session(begin_session(v, first)->0, second)->0;
            &&& begin_session(end_session(both, first), first) is Some
            &&& end_session(both, first).sessions.contains(second)
            &&& begin_session(end_session(both, first), second) is None
        }),
{
    lemma_refusals_are_recognised(seq![]);
    let one = begin_session(v, first)->0;
    let both = begin_session(one, second)->0;
    assert(both.sessions.contains(second));
    assert(end_session(both, first).sessions.contains(second));
}

/// The sequence of archive runs: from any registry where none runs, one
/// starts; a second start while it runs is refused, recognised as an upload
/// already running, and leaves the registry as it was; once it has finished
/// a run starts again. Session uploads are untouched throughout.
pub proof fn lemma_archive_upload_sequence(v: RuntimeView)
    requires
        !v.archive_running,
    ensures
        begin_archive(v) is Some,
        begin_archive(v)->0.sessions == v.sessions,
        begin_archive(begin_archive(v)->0) is None,
        crate::text::has_prefix(archive_running_message(), already_running_prefix()),
        begin_archive(end_archive(begin_archive(v)->0)) is Some,
        end_archive(begin_archive(v)->0) == v,
{
    lemma_refusals_are_recognised(seq![]);
}

/// A fresh registry runs nothing, so both sequences above start from it.
pub proof fn lemma_fresh_registry_runs_nothing(s: BrainUploadRuntimeState, id: Seq<char>)
    requires
        !s.view().archive_running,
        s.view().sessions == Set::<Seq<char>>::empty(),
    ensures
        begin_archive(s.view()) is Some,
        begin_session(s.view(), id) is Some,
{
}

} // verus!
