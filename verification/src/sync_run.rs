//! The upload phase of a Yandex.Disk sync run, as a sequence of decisions:
//! which file comes next, when its remote directory must be created first,
//! how each outcome is counted, and when the run is over. The caller shows
//! the progress, creates directories and uploads files, and reports back.
use crate::disk_api::{capped, yandex_error_text, SyncTally, YandexError};
use crate::paths::string_views;
use crate::sync_plan::{dir_of, upload_target, CreatedDirs, LocalEntry};
use crate::yandex::{entry_name, file_error_views};
use vstd::prelude::*;

verus! {

broadcast use vstd::string::group_string_axioms;

/// What the run waits for.
pub enum SyncPending {
    /// The next file is due.
    Next,
    /// The next file has been announced; it goes to `remote_path` in `remote_dir`.
    Announced { remote_dir: String, remote_path: String },
    /// The file's remote directory is being created.
    Ensuring { remote_dir: String, remote_path: String },
    /// The file is being uploaded.
    Uploading,
    /// The run is over.
    Over,
}

/// The upload phase of a run: the files to upload, in order, how many of
/// them are done, the directories known to exist, and the tally.
pub struct SyncRun {
    pub remote_folder: String,
    pub queue: Vec<LocalEntry>,
    pub done: usize,
    pub created: CreatedDirs,
    pub tally: SyncTally,
    pub pending: SyncPending,
}

/// What the caller reports.
pub enum SyncEvent {
    /// Start with the first file.
    Begin,
    /// The announcement was shown.
    Shown,
    /// Creating the directory worked, or how it failed.
    DirEnsured(Result<(), YandexError>),
    /// The upload worked, or how it failed.
    Uploaded(Result<(), YandexError>),
}

/// What the caller does next.
pub enum SyncAction {
    /// Show that upload `current` of `total` begins, then report `Shown`.
    ShowItem { current: u32, total: u32, rel_path: String },
    /// Create this remote directory, then report `DirEnsured`.
    EnsureDir(String),
    /// Upload file `index` of the queue to `remote_path`, then report `Uploaded`.
    Upload { remote_path: String, index: usize },
    /// The upload phase is over; the run's tally is final.
    Finish,
    /// Nothing: the report did not answer what the run waits for.
    Wait,
}

pub struct SyncStep {
    pub run: SyncRun,
    pub action: SyncAction,
}

/// A count as the progress shows it: the number, or `u32::MAX` above it.
pub open spec fn shown_count(n: int) -> u32 {
    if n <= u32::MAX {
        n as u32
    } else {
        u32::MAX
    }
}

/// Everything but what the run waits for is the same.
pub open spec fn same_files(a: SyncRun, b: SyncRun) -> bool {
    &&& a.remote_folder == b.remote_folder
    &&& a.queue == b.queue
    &&& a.done == b.done
    &&& a.created == b.created
    &&& a.tally == b.tally
}

/// The next file is announced, or, when none is left or a count is full,
/// the run is over.
pub open spec fn advances(run: SyncRun, r: SyncStep) -> bool {
    &&& same_files(run, r.run)
    &&& if run.done < run.queue@.len() && run.tally.failed < u32::MAX && run.tally.uploaded < u32::MAX {
        let f = run.queue@[run.done as int];
        &&& r.run.pending matches SyncPending::Announced { remote_dir, remote_path } && remote_dir@ == dir_of(
            run.remote_folder@,
            f,
        ) && remote_path@ == dir_of(run.remote_folder@, f) + "/"@ + entry_name(f.rel_path@)
        &&& r.action matches SyncAction::ShowItem { current, total, rel_path } && current == shown_count(
            run.done + 1,
        ) && total == shown_count(run.queue@.len() as int) && rel_path@ == f.rel_path@
    } else {
        r.run.pending is Over && r.action is Finish
    }
}

/// The run is over as it stands.
pub open spec fn ends(run: SyncRun, r: SyncStep) -> bool {
    same_files(run, r.run) && r.run.pending is Over && r.action is Finish
}

/// The run after one more file is done, with the given tally.
pub open spec fn one_more_done(run: SyncRun, tally: SyncTally) -> SyncRun {
    SyncRun {
        remote_folder: run.remote_folder,
        queue: run.queue,
        done: (run.done + 1) as usize,
        created: run.created,
        tally,
        pending: SyncPending::Next,
    }
}

/// A failed directory counts as a failed file.
pub open spec fn dir_failure_counted(before: SyncTally, after: SyncTally, rel_path: Seq<char>, e: YandexError) -> bool {
    &&& after.failed == before.failed + 1
    &&& after.uploaded == before.uploaded
    &&& file_error_views(after.errors@) == capped(
        file_error_views(before.errors@),
        (rel_path, "ensure_dir: "@ + yandex_error_text(e)),
    )
}

/// An upload's outcome counted.
pub open spec fn upload_counted(before: SyncTally, after: SyncTally, rel_path: Seq<char>, result: Result<(), YandexError>) -> bool {
    match result {
        Ok(()) => after.uploaded == before.uploaded + 1 && after.failed == before.failed && file_error_views(
            after.errors@,
        ) == file_error_views(before.errors@),
        Err(e) => after.failed == before.failed + 1 && after.uploaded == before.uploaded && file_error_views(
            after.errors@,
        ) == capped(file_error_views(before.errors@), (rel_path, yandex_error_text(e))),
    }
}

/// One step of the upload phase. Each file is announced (`current` counts
/// from one), its directory is created first unless already known, then it
/// is uploaded; a directory or upload failure is counted and the run goes on
/// with the next file. The run is over when every file is done, or when a
/// count has reached `u32::MAX`.
pub open spec fn sync_step_spec(run: SyncRun, event: SyncEvent, r: SyncStep) -> bool {
    match run.pending {
        SyncPending::Next => match event {
            SyncEvent::Begin => advances(run, r),
            _ => r.run == run && r.action is Wait,
        },
        SyncPending::Announced { remote_dir, remote_path } => match event {
            SyncEvent::Shown => same_files(run, r.run) && if string_views(run.created.dirs@).contains(
                remote_dir@,
            ) {
                r.run.pending is Uploading && (r.action matches SyncAction::Upload { remote_path: p, index }
                    && p@ == remote_path@ && index == run.done)
            } else {
                (r.run.pending matches SyncPending::Ensuring { remote_dir: d, remote_path: p } && d@
                    == remote_dir@ && p@ == remote_path@) && (r.action matches SyncAction::EnsureDir(d)
                    && d@ == remote_dir@)
            },
            _ => r.run == run && r.action is Wait,
        },
        SyncPending::Ensuring { remote_dir, remote_path } => match event {
            SyncEvent::DirEnsured(Ok(())) => {
                &&& r.run.remote_folder == run.remote_folder && r.run.queue == run.queue
                &&& r.run.done == run.done && r.run.tally == run.tally
                &&& string_views(r.run.created.dirs@) == string_views(run.created.dirs@).push(remote_dir@)
                &&& r.run.pending is Uploading
                &&& r.action matches SyncAction::Upload { remote_path: p, index } && p@ == remote_path@ && index
                    == run.done
            },
            SyncEvent::DirEnsured(Err(e)) => if run.done < run.queue@.len() && run.tally.failed < u32::MAX {
                &&& dir_failure_counted(run.tally, r.run.tally, run.queue@[run.done as int].rel_path@, e)
                &&& advances(one_more_done(run, r.run.tally), r)
            } else {
                ends(run, r)
            },
            _ => r.run == run && r.action is Wait,
        },
        SyncPending::Uploading => match event {
            SyncEvent::Uploaded(result) => if run.done < run.queue@.len() && run.tally.failed < u32::MAX
                && run.tally.uploaded < u32::MAX {
                &&& upload_counted(run.tally, r.run.tally, run.queue@[run.done as int].rel_path@, result)
                &&& advances(one_more_done(run, r.run.tally), r)
            } else {
                ends(run, r)
            },
            _ => r.run == run && r.action is Wait,
        },
        SyncPending::Over => r.run == run && r.action is Wait,
    }
}

/// The upload phase of a run over `queue`, before its first step.
pub fn new_sync_run(remote_folder: String, queue: Vec<LocalEntry>) -> (run: SyncRun)
    ensures
        run.remote_folder == remote_folder,
        run.queue == queue,
        run.done == 0,
        string_views(run.created.dirs@) == seq![crate::yandex::remote_dir(remote_folder@, seq![])],
        run.tally.uploaded == 0 && run.tally.failed == 0 && run.tally.errors@.len() == 0,
        run.pending is Next,
        tally_in_step(run),
{
    assert(queue@.len() == queue.len());
    let created = CreatedDirs::with_root(remote_folder.as_str());
    SyncRun { remote_folder, queue, done: 0, created, tally: SyncTally::new(), pending: SyncPending::Next }
}

fn saturating_count(n: usize) -> (c: u32)
    ensures
        c == shown_count(n as int),
{
    if n <= u32::MAX as usize {
        n as u32
    } else {
        u32::MAX
    }
}

/// Announces the next file, or ends the run (see [`advances`]).
fn advance(run: SyncRun) -> (r: SyncStep)
    ensures
        advances(run, r),
{
    let SyncRun { remote_folder, queue, done, created, tally, pending } = run;
    if done < queue.len() && tally.failed < u32::MAX && tally.uploaded < u32::MAX {
        let (remote_dir, remote_path) = upload_target(remote_folder.as_str(), &queue[done]);
        let action = SyncAction::ShowItem {
            current: saturating_count(done + 1),
            total: saturating_count(queue.len()),
            rel_path: queue[done].rel_path.clone(),
        };
        SyncStep {
            run: SyncRun {
                remote_folder,
                queue,
                done,
                created,
                tally,
                pending: SyncPending::Announced { remote_dir, remote_path },
            },
            action,
        }
    } else {
        SyncStep {
            run: SyncRun { remote_folder, queue, done, created, tally, pending: SyncPending::Over },
            action: SyncAction::Finish,
        }
    }
}

/// Takes the upload phase one step further (see [`sync_step_spec`]).
pub fn sync_step(run: SyncRun, event: SyncEvent) -> (r: SyncStep)
    ensures
        sync_step_spec(run, event, r),
{
    let SyncRun { remote_folder, queue, done, created, tally, pending } = run;
    match pending {
        SyncPending::Next => match event {
            SyncEvent::Begin => advance(SyncRun { remote_folder, queue, done, created, tally, pending: SyncPending::Next }),
            _ => SyncStep {
                run: SyncRun { remote_folder, queue, done, created, tally, pending: SyncPending::Next },
                action: SyncAction::Wait,
            },
        },
        SyncPending::Announced { remote_dir, remote_path } => match event {
            SyncEvent::Shown => {
                if created.needs_ensure(remote_dir.as_str()) {
                    let ensure = SyncAction::EnsureDir(remote_dir.clone());
                    SyncStep {
                        run: SyncRun {
                            remote_folder,
                            queue,
                            done,
                            created,
                            tally,
                            pending: SyncPending::Ensuring { remote_dir, remote_path },
                        },
                        action: ensure,
                    }
                } else {
                    SyncStep {
                        run: SyncRun { remote_folder, queue, done, created, tally, pending: SyncPending::Uploading },
                        action: SyncAction::Upload { remote_path, index: done },
                    }
                }
            },
            _ => SyncStep {
                run: SyncRun {
                    remote_folder,
                    queue,
                    done,
                    created,
                    tally,
                    pending: SyncPending::Announced { remote_dir, remote_path },
                },
                action: SyncAction::Wait,
            },
        },
        SyncPending::Ensuring { remote_dir, remote_path } => match event {
            SyncEvent::DirEnsured(Ok(())) => {
                let mut created = created;
                created.mark_created(remote_dir);
                SyncStep {
                    run: SyncRun { remote_folder, queue, done, created, tally, pending: SyncPending::Uploading },
                    action: SyncAction::Upload { remote_path, index: done },
                }
            },
            SyncEvent::DirEnsured(Err(e)) => {
                if done < queue.len() && tally.failed < u32::MAX {
                    let mut tally = tally;
                    tally.record_dir_failure(queue[done].rel_path.as_str(), &e);
                    advance(SyncRun { remote_folder, queue, done: done + 1, created, tally, pending: SyncPending::Next })
                } else {
                    SyncStep {
                        run: SyncRun { remote_folder, queue, done, created, tally, pending: SyncPending::Over },
                        action: SyncAction::Finish,
                    }
                }
            },
            _ => SyncStep {
                run: SyncRun {
                    remote_folder,
                    queue,
                    done,
                    created,
                    tally,
                    pending: SyncPending::Ensuring { remote_dir, remote_path },
                },
                action: SyncAction::Wait,
            },
        },
        SyncPending::Uploading => match event {
            SyncEvent::Uploaded(result) => {
                if done < queue.len() && tally.failed < u32::MAX && tally.uploaded < u32::MAX {
                    let mut tally = tally;
                    tally.record_upload(queue[done].rel_path.as_str(), result);
                    advance(SyncRun { remote_folder, queue, done: done + 1, created, tally, pending: SyncPending::Next })
                } else {
                    SyncStep {
                        run: SyncRun { remote_folder, queue, done, created, tally, pending: SyncPending::Over },
                        action: SyncAction::Finish,
                    }
                }
            },
            _ => SyncStep {
                run: SyncRun { remote_folder, queue, done, created, tally, pending: SyncPending::Uploading },
                action: SyncAction::Wait,
            },
        },
        SyncPending::Over => SyncStep {
            run: SyncRun { remote_folder, queue, done, created, tally, pending: SyncPending::Over },
            action: SyncAction::Wait,
        },
    }
}

/// The most errors a sync run keeps.
pub open spec fn kept_errors(failed: int) -> int {
    if failed < 20 {
        failed
    } else {
        20
    }
}

/// The tally keeps pace with the run: every file done is counted once, as
/// uploaded or failed, an error is kept for each failure up to twenty, and a
/// file is in hand only while neither count is full.
pub open spec fn tally_in_step(run: SyncRun) -> bool {
    &&& run.queue@.len() <= usize::MAX
    &&& run.done <= run.queue@.len()
    &&& run.tally.uploaded + run.tally.failed == run.done
    &&& file_error_views(run.tally.errors@).len() == kept_errors(run.tally.failed as int)
    &&& !(run.pending is Next || run.pending is Over) ==> run.done < run.queue@.len() && run.tally.failed
        < u32::MAX && run.tally.uploaded < u32::MAX
}

/// Every step keeps the tally in pace with the run; and when the upload
/// phase ends, the uploaded and the failed files together are all the files
/// to upload (unless one of the counts filled up first), and the errors kept
/// number the failures, at most twenty.
pub proof fn lemma_sync_tally_counts_every_file(run: SyncRun, event: SyncEvent, r: SyncStep)
    requires
        tally_in_step(run),
        sync_step_spec(run, event, r),
    ensures
        tally_in_step(r.run),
        r.action is Finish ==> r.run.tally.uploaded + r.run.tally.failed == r.run.queue@.len()
            || r.run.tally.uploaded == u32::MAX || r.run.tally.failed == u32::MAX,
        r.action is Finish ==> file_error_views(r.run.tally.errors@).len() == kept_errors(r.run.tally.failed as int),
{
    match run.pending {
        SyncPending::Ensuring { .. } => match event {
            SyncEvent::DirEnsured(Err(e)) => {
                if run.done < run.queue@.len() && run.tally.failed < u32::MAX && run.tally.uploaded < u32::MAX {
                    let next = one_more_done(run, r.run.tally);
                    assert(next.done == run.done + 1);
                    assert(same_files(next, r.run));
                }
            },
            _ => {},
        },
        SyncPending::Uploading => match event {
            SyncEvent::Uploaded(result) => {
                if run.done < run.queue@.len() && run.tally.failed < u32::MAX && run.tally.uploaded < u32::MAX {
                    let next = one_more_done(run, r.run.tally);
                    assert(next.done == run.done + 1);
                    assert(same_files(next, r.run));
                }
            },
            _ => {},
        },
        _ => {},
    }
}

} // verus!
