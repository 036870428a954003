use std::collections::{BTreeMap, BTreeSet};

use bigecho::disk_api::{finished_summary, SyncTally, YandexError};
use bigecho::sync_plan::{
    classify_files, dirs_to_list, is_ignored_file_name, local_file_order, upload_target,
    CreatedDirs, LocalEntry,
};
use bigecho::yandex::{entry_name_of, remote_dir_for, LastRunSummary};

#[derive(Default)]
struct FakeDisk {
    dirs: BTreeSet<String>,
    files: BTreeMap<String, u64>,
    failures: BTreeSet<String>,
    upload_calls: usize,
}

impl FakeDisk {
    fn list(&self, dir: &str) -> Vec<(String, u64)> {
        let prefix = format!("{dir}/");
        self.files
            .iter()
            .filter_map(|(k, v)| k.strip_prefix(&prefix).filter(|s| !s.contains('/')).map(|s| (s.to_string(), *v)))
            .collect()
    }
}

struct Run {
    summary: LastRunSummary,
    items: Vec<(usize, usize, String)>,
}

fn run(local: &[(&str, u64)], disk: &mut FakeDisk) -> Run {
    let folder = "BigEcho";
    let files: Vec<LocalEntry> = local
        .iter()
        .filter(|(p, _)| !is_ignored_file_name(&entry_name_of(p)))
        .map(|(p, size)| LocalEntry { rel_path: p.to_string(), size: *size })
        .collect();
    let order = local_file_order(&files);
    let files: Vec<LocalEntry> = order
        .iter()
        .map(|&i| LocalEntry { rel_path: files[i].rel_path.clone(), size: files[i].size })
        .collect();
    disk.dirs.insert(remote_dir_for(folder, ""));
    let dirs = dirs_to_list(folder, &files);
    let listings: Vec<Vec<(String, u64)>> = dirs.iter().map(|d| disk.list(d)).collect();
    let classified = classify_files(folder, &files, &dirs, &listings);
    let mut created = CreatedDirs::with_root(folder);
    let mut tally = SyncTally::new();
    let mut items = Vec::new();
    for (k, &i) in classified.to_upload.iter().enumerate() {
        let f = &files[i];
        items.push((k + 1, classified.to_upload.len(), f.rel_path.clone()));
        let (dir, path) = upload_target(folder, f);
        if created.needs_ensure(&dir) {
            disk.dirs.insert(dir.clone());
            created.mark_created(dir);
        }
        let result = if disk.failures.contains(&path) {
            Err(YandexError::Network("simulated".into()))
        } else {
            disk.upload_calls += 1;
            disk.files.insert(path, f.size);
            Ok(())
        };
        tally.record_upload(&f.rel_path, result);
    }
    let summary = finished_summary(
        "s".into(),
        "f".into(),
        0,
        files.len() as u32,
        classified.to_upload.len() as u32,
        classified.already_synced as u32,
        tally,
    );
    Run { summary, items }
}

#[test]
fn uploads_file_when_absent_on_remote() {
    let mut disk = FakeDisk::default();
    let r = run(&[("10.04.2026/meeting_15-06-07/audio.opus", 5)], &mut disk);
    assert_eq!(r.summary.uploaded, 1);
    assert_eq!(r.summary.skipped, 0);
    assert_eq!(r.summary.failed, 0);
    assert_eq!(disk.upload_calls, 1);
}

#[test]
fn skips_file_when_remote_size_matches() {
    let mut disk = FakeDisk::default();
    disk.files.insert("disk:/BigEcho/10.04.2026/meeting_15-06-07/audio.opus".into(), 5);
    let r = run(&[("10.04.2026/meeting_15-06-07/audio.opus", 5)], &mut disk);
    assert_eq!(r.summary.total_objects, 1);
    assert_eq!(r.summary.not_synced, 0);
    assert_eq!(r.summary.uploaded, 0);
    assert_eq!(r.summary.skipped, 1);
    assert_eq!(disk.upload_calls, 0);
}

#[test]
fn uploads_file_when_remote_size_differs() {
    let mut disk = FakeDisk::default();
    disk.files.insert("disk:/BigEcho/10.04.2026/audio.opus".into(), 999);
    let r = run(&[("10.04.2026/audio.opus", 5)], &mut disk);
    assert_eq!(r.summary.uploaded, 1);
    assert_eq!(r.summary.skipped, 0);
}

#[test]
fn creates_missing_remote_directories_in_order() {
    let mut disk = FakeDisk::default();
    run(&[("A/B/C/file.opus", 1)], &mut disk);
    assert!(disk.dirs.contains("disk:/BigEcho"));
    assert!(disk.dirs.contains("disk:/BigEcho/A/B/C"));
}

#[test]
fn emits_progress_events_in_order() {
    let mut disk = FakeDisk::default();
    let r = run(&[("b.opus", 2), ("a.opus", 2)], &mut disk);
    assert_eq!((r.summary.total_objects, r.summary.not_synced), (2, 2));
    assert_eq!(r.items, vec![(1, 2, "a.opus".to_string()), (2, 2, "b.opus".to_string())]);
}

#[test]
fn ds_store_files_are_ignored() {
    let mut disk = FakeDisk::default();
    let r = run(&[("10.04.2026/audio.opus", 5), ("10.04.2026/.DS_Store", 4), (".DS_Store", 9)], &mut disk);
    assert_eq!(r.summary.total_objects, 1);
    assert_eq!(r.summary.not_synced, 1);
    assert_eq!(r.summary.uploaded, 1);
    assert_eq!(disk.upload_calls, 1);
    assert!(!disk.files.keys().any(|p| p.ends_with("/.DS_Store")));
    let item_paths: Vec<String> = r.items.iter().map(|(_, _, p)| p.clone()).collect();
    assert_eq!(item_paths, vec!["10.04.2026/audio.opus".to_string()]);
}

#[test]
fn preflight_classifies_total_and_not_synced() {
    let mut disk = FakeDisk::default();
    disk.files.insert("disk:/BigEcho/a.opus".into(), 2);
    disk.files.insert("disk:/BigEcho/b.opus".into(), 999);
    let r = run(&[("a.opus", 2), ("b.opus", 4), ("c.opus", 6)], &mut disk);
    assert_eq!(r.summary.total_objects, 3);
    assert_eq!(r.summary.not_synced, 2);
    assert_eq!(r.summary.skipped, 1);
    assert_eq!(r.summary.uploaded, 2);
    assert_eq!(disk.upload_calls, 2);
}

#[test]
fn upload_loop_iterates_only_needs_upload() {
    let mut disk = FakeDisk::default();
    disk.files.insert("disk:/BigEcho/a.opus".into(), 2);
    disk.files.insert("disk:/BigEcho/b.opus".into(), 2);
    let r = run(&[("a.opus", 2), ("b.opus", 2)], &mut disk);
    assert_eq!(r.summary.total_objects, 2);
    assert_eq!(r.summary.not_synced, 0);
    assert_eq!(r.summary.uploaded, 0);
    assert_eq!(r.summary.skipped, 2);
    assert_eq!(disk.upload_calls, 0);
    assert!(r.items.is_empty());
}

#[test]
fn failed_uploads_are_counted_and_reported() {
    let mut disk = FakeDisk::default();
    disk.failures.insert("disk:/BigEcho/b.opus".into());
    let r = run(&[("a.opus", 2), ("b.opus", 4)], &mut disk);
    assert_eq!(r.summary.uploaded, 1);
    assert_eq!(r.summary.failed, 1);
    assert_eq!(r.summary.errors[0].path, "b.opus");
    assert_eq!(r.summary.errors[0].message, "network error: simulated");
}

#[test]
fn listing_directories_once_each() {
    let files = vec![
        LocalEntry { rel_path: "a/x.opus".into(), size: 1 },
        LocalEntry { rel_path: "b/y.opus".into(), size: 1 },
        LocalEntry { rel_path: "a/z.opus".into(), size: 1 },
        LocalEntry { rel_path: "top.opus".into(), size: 1 },
    ];
    assert_eq!(
        dirs_to_list("/BigEcho/", &files),
        vec!["disk:/BigEcho/a".to_string(), "disk:/BigEcho/b".to_string(), "disk:/BigEcho".to_string()]
    );
    let mut created = CreatedDirs::with_root("BigEcho");
    assert!(!created.needs_ensure("disk:/BigEcho"));
    assert!(created.needs_ensure("disk:/BigEcho/a"));
    created.mark_created("disk:/BigEcho/a".to_string());
    assert!(!created.needs_ensure("disk:/BigEcho/a"));
}
