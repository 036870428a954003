use bigecho::brain_state::{
    archive_lease_key, default_lease_ttl_secs, is_already_running_error, lease_expiry,
    lease_held_error, lease_is_expired, new_shared_state, session_lease_key,
    try_begin_archive_upload, try_begin_session_upload, BrainUploadLeaseGuard,
};

fn lease(key: &str) -> BrainUploadLeaseGuard {
    BrainUploadLeaseGuard {
        app_data_dir: "/tmp/app".to_string(),
        lease_key: key.to_string(),
        active: true,
    }
}

#[test]
fn archive_guard_rejects_parallel_runs_until_dropped() {
    let mut state = new_shared_state();
    let mut first = try_begin_archive_upload(&mut state, lease("archive")).expect("first archive starts");
    assert!(try_begin_archive_upload(&mut state, lease("archive")).is_err());
    state.finish_archive_upload(&mut first);
    assert!(try_begin_archive_upload(&mut state, lease("archive")).is_ok());
}

#[test]
fn session_guard_rejects_parallel_upload_for_same_session_only() {
    let mut state = new_shared_state();
    let mut first =
        try_begin_session_upload(&mut state, "s1", lease("session:s1")).expect("first session starts");
    assert!(try_begin_session_upload(&mut state, "s1", lease("session:s1")).is_err());
    assert!(try_begin_session_upload(&mut state, "s2", lease("session:s2")).is_ok());
    state.finish_session_upload(&mut first);
    assert!(try_begin_session_upload(&mut state, "s1", lease("session:s1")).is_ok());
}

#[test]
fn finishing_twice_changes_nothing() {
    let mut state = new_shared_state();
    let mut g = try_begin_session_upload(&mut state, "s1", lease("session:s1")).expect("starts");
    let mut other = try_begin_session_upload(&mut state, "s2", lease("session:s2")).expect("starts");
    state.finish_session_upload(&mut g);
    state.finish_session_upload(&mut g);
    assert!(!g.active);
    assert!(state.is_session_uploading("s2"));
    assert!(!state.is_session_uploading("s1"));
    state.finish_session_upload(&mut other);
    assert!(!state.is_session_uploading("s2"));
}

#[test]
fn refusals_are_recognised_as_already_running() {
    let mut state = new_shared_state();
    let _g = try_begin_archive_upload(&mut state, lease("archive")).expect("starts");
    let err = match try_begin_archive_upload(&mut state, lease("archive")) {
        Err(e) => e,
        Ok(_) => panic!("second archive upload must be refused"),
    };
    assert!(is_already_running_error(&err));
    assert!(is_already_running_error(&lease_held_error("session:s1")));
    assert!(!is_already_running_error("network error"));
    assert_eq!(
        lease_held_error("archive"),
        "BRAIN_ALREADY_RUNNING: Brain upload lease is held by another process (archive)"
    );
}

#[test]
fn lease_keys_and_expiry() {
    assert_eq!(archive_lease_key(), "archive");
    assert_eq!(session_lease_key("s1"), "session:s1");
    assert_eq!(default_lease_ttl_secs(), 7200);
    assert_eq!(lease_expiry(100, 60), 160);
    assert_eq!(lease_expiry(100, 0), 101);
    assert_eq!(lease_expiry(i64::MAX - 5, 60), i64::MAX);
    assert!(lease_is_expired(100, 100));
    assert!(!lease_is_expired(101, 100));
}
