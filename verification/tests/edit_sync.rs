use kaku_sftp::edit_sync::{
    retry_delay, stamp_from, Action, EditSync, FileStamp, SyncTracker, WatchStart, Watchers,
    MAX_RETRY_DELAY, MAX_SYNC_ATTEMPTS, MAX_WATCHERS, QUIET_PERIOD, RETRY_BASE_DELAY,
};

fn at(ms: u64) -> u64 {
    1_000_000 + ms
}

fn stat(size: u64) -> Option<FileStamp> {
    Some(FileStamp { size, mtime: 100 })
}

#[test]
fn no_change_is_idle() {
    let mut t = SyncTracker::new(stat(10));
    assert_eq!(t.observe(stat(10), at(100)), Action::Idle);
}

#[test]
fn change_starts_quiet_period_then_uploads() {
    let mut t = SyncTracker::new(stat(10));
    assert_eq!(t.observe(stat(20), at(100)), Action::Changed);
    // Quiet period not elapsed yet.
    assert_eq!(t.observe(stat(20), at(100) + 500), Action::Idle);
    // Elapsed: upload.
    assert_eq!(t.observe(stat(20), at(100) + QUIET_PERIOD + 600), Action::Upload);
}

#[test]
fn continued_editing_extends_the_quiet_period() {
    let mut t = SyncTracker::new(stat(10));
    assert_eq!(t.observe(stat(20), at(100)), Action::Changed);
    // Another write before the quiet period elapses resets it.
    assert_eq!(t.observe(stat(30), at(100) + 800), Action::Changed);
    assert_eq!(t.observe(stat(30), at(100) + QUIET_PERIOD + 200), Action::Idle);
    assert_eq!(t.observe(stat(30), at(100) + 800 + QUIET_PERIOD + 600), Action::Upload);
}

#[test]
fn successful_sync_stops_uploading_until_next_change() {
    let mut t = SyncTracker::new(stat(10));
    assert_eq!(t.observe(stat(20), at(100)), Action::Changed);
    assert_eq!(t.observe(stat(20), at(100) + QUIET_PERIOD + 1000), Action::Upload);
    t.mark_synced(stat(20).unwrap());
    assert_eq!(t.observe(stat(20), at(100) + QUIET_PERIOD + 2000), Action::Idle);
}

#[test]
fn failed_upload_retries_after_delay() {
    let mut t = SyncTracker::new(stat(10));
    assert_eq!(t.observe(stat(20), at(100)), Action::Changed);
    let ready = at(100) + QUIET_PERIOD + 1000;
    assert_eq!(t.observe(stat(20), ready), Action::Upload);
    assert!(!t.mark_failed(ready));
    // Retry delayed.
    assert_eq!(t.observe(stat(20), ready + 1000), Action::Idle);
    assert_eq!(t.observe(stat(20), ready + RETRY_BASE_DELAY + 100), Action::Upload);
}

#[test]
fn retry_delay_doubles_up_to_the_cap() {
    assert_eq!(retry_delay(1), 5_000);
    assert_eq!(retry_delay(2), 10_000);
    assert_eq!(retry_delay(3), 20_000);
    assert_eq!(retry_delay(4), 40_000);
    assert_eq!(retry_delay(9), MAX_RETRY_DELAY);
}

#[test]
fn failure_stops_after_the_attempt_budget() {
    let mut t = SyncTracker::new(stat(10));
    assert_eq!(t.observe(stat(20), at(100)), Action::Changed);
    let mut now = at(100) + QUIET_PERIOD + 1000;
    for attempt in 1..=MAX_SYNC_ATTEMPTS {
        assert_eq!(t.observe(stat(20), now), Action::Upload, "attempt {attempt}");
        let last = t.mark_failed(now);
        assert_eq!(last, attempt == MAX_SYNC_ATTEMPTS, "attempt {attempt}");
        now += retry_delay(attempt) + 1;
    }
    // Budget spent: idle forever, however long the watcher polls.
    assert_eq!(t.observe(stat(20), now), Action::Idle);
    assert_eq!(t.observe(stat(20), now + 3_600_000), Action::Idle);
}

#[test]
fn new_save_restarts_a_spent_budget() {
    let mut t = SyncTracker::new(stat(10));
    assert_eq!(t.observe(stat(20), at(100)), Action::Changed);
    for _ in 0..MAX_SYNC_ATTEMPTS {
        t.mark_failed(at(100));
    }
    assert_eq!(t.observe(stat(20), at(100)), Action::Idle);
    // The user edits and saves again: the same stat is never reported
    // twice, so this is a genuinely new change.
    assert_eq!(t.observe(stat(30), at(200)), Action::Changed);
    assert_eq!(t.observe(stat(30), at(200) + QUIET_PERIOD + 100), Action::Upload);
}

#[test]
fn deleted_file_stops_the_watcher() {
    let mut t = SyncTracker::new(stat(10));
    assert_eq!(t.observe(None, at(100)), Action::Stop);
}

#[test]
fn a_moved_remote_file_is_not_overwritten_unasked() {
    let mine = Some(stamp_from(Some(10), Some(1)));
    let theirs = Some(stamp_from(Some(12), Some(2)));
    let mut sync = EditSync::new("/srv/a.txt".into(), stat(10), mine);
    assert_eq!(
        sync.check_conflict(stat(20), theirs).as_deref(),
        Some("/srv/a.txt changed on the server; save again to overwrite it")
    );
    // The second save goes through, and becomes the new baseline.
    assert_eq!(sync.check_conflict(stat(30), theirs), None);
    assert_eq!(sync.uploaded(stat(30), 30, theirs), "saved /srv/a.txt to server (30 bytes)");
    assert_eq!(sync.check_conflict(stat(40), theirs), None);
}

#[test]
fn failing_saves_are_announced_twice() {
    let mut sync = EditSync::new("/srv/a.txt".into(), stat(10), None);
    assert_eq!(
        sync.upload_failed("no route", at(0)).as_deref(),
        Some("failed to save /srv/a.txt: no route (retrying)")
    );
    for _ in 2..MAX_SYNC_ATTEMPTS {
        assert_eq!(sync.upload_failed("no route", at(0)), None);
    }
    assert_eq!(
        sync.upload_failed("no route", at(0)).as_deref(),
        Some("could not save /srv/a.txt: no route - save again to retry")
    );
}

#[test]
fn a_file_is_watched_once() {
    let mut w = Watchers::new();
    assert!(matches!(w.begin("/a"), WatchStart::Start));
    w.running();
    assert!(matches!(w.begin("/a"), WatchStart::Known));
    w.ended("/a");
    assert!(matches!(w.begin("/a"), WatchStart::Start));
    w.unstarted("/a");
    for i in 0..MAX_WATCHERS {
        assert!(matches!(w.begin(&format!("/f{i}")), WatchStart::Start));
        w.running();
    }
    match w.begin("/more") {
        WatchStart::Full(text) => {
            assert_eq!(text, "too many open files; edits to /more will not auto-sync")
        }
        other => panic!("{:?}", other),
    }
}
