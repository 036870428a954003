use bigecho::disk_api::YandexError;
use bigecho::sync_plan::LocalEntry;
use bigecho::sync_run::{new_sync_run, sync_step, SyncAction, SyncEvent, SyncRun};

fn entry(rel_path: &str) -> LocalEntry {
    LocalEntry { rel_path: rel_path.to_string(), size: 1 }
}

fn step(run: SyncRun, event: SyncEvent) -> (SyncRun, SyncAction) {
    let s = sync_step(run, event);
    (s.run, s.action)
}

#[test]
fn sync_run_goes_on_after_failures_and_counts_every_file() {
    let run = new_sync_run(
        "BigEcho".to_string(),
        vec![entry("10.04.2026/m/a.opus"), entry("10.04.2026/m/b.md"), entry("c.txt")],
    );
    let (run, action) = step(run, SyncEvent::Begin);
    assert!(matches!(&action, SyncAction::ShowItem { current: 1, total: 3, rel_path } if rel_path == "10.04.2026/m/a.opus"));
    let (run, action) = step(run, SyncEvent::Shown);
    assert!(matches!(&action, SyncAction::EnsureDir(d) if d == "disk:/BigEcho/10.04.2026/m"));
    let (run, action) = step(run, SyncEvent::DirEnsured(Err(YandexError::Unauthorized)));
    assert!(matches!(&action, SyncAction::ShowItem { current: 2, total: 3, .. }));
    let (run, action) = step(run, SyncEvent::Shown);
    assert!(matches!(&action, SyncAction::EnsureDir(_)));
    let (run, action) = step(run, SyncEvent::DirEnsured(Ok(())));
    assert!(matches!(&action, SyncAction::Upload { remote_path, index: 1 } if remote_path == "disk:/BigEcho/10.04.2026/m/b.md"));
    let (run, action) = step(run, SyncEvent::Uploaded(Ok(())));
    assert!(matches!(&action, SyncAction::ShowItem { current: 3, total: 3, rel_path } if rel_path == "c.txt"));
    let (run, action) = step(run, SyncEvent::Shown);
    assert!(matches!(&action, SyncAction::Upload { remote_path, index: 2 } if remote_path == "disk:/BigEcho/c.txt"));
    let (run, action) = step(run, SyncEvent::Uploaded(Err(YandexError::Network("reset".to_string()))));
    assert!(matches!(action, SyncAction::Finish));
    assert_eq!(run.tally.uploaded, 1);
    assert_eq!(run.tally.failed, 2);
    assert_eq!(run.tally.uploaded + run.tally.failed, 3);
    let errors: Vec<(String, String)> = run.tally.errors.iter().map(|e| (e.path.clone(), e.message.clone())).collect();
    assert_eq!(
        errors,
        vec![
            ("10.04.2026/m/a.opus".to_string(), "ensure_dir: unauthorized".to_string()),
            ("c.txt".to_string(), "network error: reset".to_string()),
        ]
    );
}

#[test]
fn sync_run_with_nothing_to_upload_finishes_at_once() {
    let (run, action) = step(new_sync_run("BigEcho".to_string(), vec![]), SyncEvent::Begin);
    assert!(matches!(action, SyncAction::Finish));
    assert_eq!(run.tally.uploaded + run.tally.failed, 0);
}

#[test]
fn sync_run_ignores_a_report_it_does_not_wait_for() {
    let run = new_sync_run("BigEcho".to_string(), vec![entry("a.txt")]);
    let (run, action) = step(run, SyncEvent::Uploaded(Ok(())));
    assert!(matches!(action, SyncAction::Wait));
    assert_eq!(run.done, 0);
}
