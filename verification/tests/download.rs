use exodium::download::{
    disk_completion, download_file_indices, extraction_lock_stale, file_finished, gamedata_to_drop,
    placeholder_should_delete, should_retry_update, space_needed, download_preflight, progress_file, Preflight, stuck_action, stuck_error,
    to_long_path, torrent_reset, progress_step, FileReport, FileSelection, PollAction, PollReport,
    RetryState, StuckAction, TorrentReset, ZipOnDisk,
};

// ── selection ────────────────────────────────────────────────────────────

#[test]
fn selection_adds_and_removes_indices() {
    let mut sel = FileSelection::new();
    assert!(!sel.is_file_selected(3));
    sel.select(&[3, 5, 3]);
    assert!(sel.is_file_selected(3));
    assert!(sel.is_file_selected(5));
    assert!(!sel.is_file_selected(4));
    let mut all = sel.selected();
    all.sort();
    assert_eq!(all, vec![3, 5]);

    sel.deselect(3);
    assert!(!sel.is_file_selected(3));
    assert_eq!(sel.selected(), vec![5]);

    // Removing an index that is not selected changes nothing.
    sel.deselect(42);
    assert_eq!(sel.selected(), vec![5]);
}

// ── stuck-download retries ───────────────────────────────────────────────

#[test]
fn stuck_download_retry_counter_ticks_every_five_seconds() {
    let mut st = RetryState::new();
    // First poll retries at once.
    assert_eq!(st.poll(7, 100_000), (1, true));
    // In between, the counter holds still.
    assert_eq!(st.poll(7, 102_000), (1, false));
    assert_eq!(st.poll(7, 104_999), (1, false));
    // Five seconds after the last retry: the next one.
    assert_eq!(st.poll(7, 105_000), (2, true));
    // Other games have counters of their own.
    assert_eq!(st.poll(8, 105_500), (1, true));
    assert_eq!(st.poll(7, 106_000), (2, false));
}

#[test]
fn stuck_download_retry_state_forgets_idle_entries() {
    let mut st = RetryState::new();
    assert_eq!(st.poll(7, 100_000), (1, true));
    assert_eq!(st.poll(7, 105_000), (2, true));
    // Idle for two minutes: the entry is gone and counting starts over.
    assert_eq!(st.poll(7, 225_000), (1, true));
}

#[test]
fn stuck_download_clear_restarts_the_count() {
    let mut st = RetryState::new();
    assert_eq!(st.poll(7, 100_000), (1, true));
    assert_eq!(st.poll(7, 105_000), (2, true));
    st.clear(7);
    assert_eq!(st.poll(7, 106_000), (1, true));
}

#[test]
fn stuck_download_poll_early_after_boot() {
    // The clock has not run a minute yet: the first poll waits.
    let mut st = RetryState::new();
    assert_eq!(st.poll(1, 1_000), (0, false));
    assert_eq!(st.poll(1, 6_000), (1, true));
}

#[test]
fn stuck_download_actions() {
    assert!(matches!(stuck_action(5, false), StuckAction::Wait));
    assert!(matches!(stuck_action(1, true), StuckAction::Retry));
    assert!(matches!(stuck_action(60, true), StuckAction::Retry));
    assert!(matches!(stuck_action(61, true), StuckAction::GiveUp));
    assert!(matches!(stuck_action(62, true), StuckAction::Wait));
    assert!(!stuck_error(60));
    assert!(stuck_error(61));
}

// ── completion and queueing ─────────────────────────────────────────────

#[test]
fn file_completion() {
    assert!(file_finished(10, 10));
    assert!(file_finished(11, 10));
    assert!(!file_finished(9, 10));
    assert!(!file_finished(0, 0));
}

#[test]
fn disk_based_completion() {
    assert!(disk_completion(false, 99, 100, Some(100)));
    assert!(disk_completion(false, 990, 1000, Some(2000)));
    assert!(!disk_completion(false, 98, 100, Some(100)));
    assert!(!disk_completion(false, 99, 100, Some(99)));
    assert!(!disk_completion(false, 99, 100, None));
    assert!(!disk_completion(true, 100, 100, Some(100)));
    assert!(!disk_completion(false, 0, 0, Some(0)));
}

#[test]
fn disk_space_needed_for_download() {
    assert_eq!(space_needed(1_000, 0), 2_000 + 500 * 1024 * 1024);
    assert_eq!(space_needed(0, 0), 500 * 1024 * 1024);
    // Bytes already on disk are credited once.
    assert_eq!(space_needed(1_000, 400), 1_600 + 500 * 1024 * 1024);
    assert_eq!(space_needed(1_000, 2_000 + 500 * 1024 * 1024 + 7), 0);
}

#[test]
fn download_preflight_decisions() {
    let mib = 1024 * 1024;
    assert_eq!(download_preflight(true, Some(1_000), 0, Some(0)), Preflight::AlreadyInstalled);
    assert_eq!(
        download_preflight(false, Some(1_000 * mib), 0, Some(1_000 * mib as u64)),
        Preflight::NotEnoughSpace { needed: 2_500 * mib as u64, free: 1_000 * mib as u64 }
    );
    // A partly downloaded ZIP makes a resume fit.
    assert_eq!(
        download_preflight(false, Some(1_000 * mib), 1_500 * mib as u64, Some(1_000 * mib as u64)),
        Preflight::Proceed
    );
    // Unknown size or unknown free space: no check.
    assert_eq!(download_preflight(false, None, 0, Some(0)), Preflight::Proceed);
    assert_eq!(download_preflight(false, Some(1_000), 0, None), Preflight::Proceed);
}

#[test]
fn progress_needs_an_index_and_a_running_manager() {
    assert_eq!(progress_file(Some(12), true), Some(12));
    assert_eq!(progress_file(Some(12), false), None);
    assert_eq!(progress_file(None, true), None);
}

#[test]
fn queued_files_of_a_game() {
    assert_eq!(download_file_indices(12, Some(40)), vec![12, 40]);
    assert_eq!(download_file_indices(12, None), vec![12]);
}

#[test]
fn shared_gamedata_is_kept_while_needed() {
    assert_eq!(gamedata_to_drop(Some(40), 0), Some(40));
    assert_eq!(gamedata_to_drop(Some(40), 2), None);
    assert_eq!(gamedata_to_drop(None, 0), None);
}

#[test]
fn uninstall_resets_exactly_the_tracking_torrents() {
    match torrent_reset(&vec![3], true, Some(5), Some(3)) {
        TorrentReset::Invalidate(v) => assert_eq!(v, vec![3, 5]),
        _ => panic!("a torrent that tracked a deleted ZIP is invalidated"),
    }
    match torrent_reset(&vec![9], false, Some(5), Some(3)) {
        TorrentReset::Invalidate(v) => assert_eq!(v, vec![9]),
        _ => panic!("a torrent that tracked a deleted ZIP is invalidated"),
    }
    match torrent_reset(&Vec::new(), true, Some(5), None) {
        TorrentReset::Deselect(v) => assert_eq!(v, vec![5]),
        _ => panic!("the game's own torrent drops its selection"),
    }
    assert!(matches!(torrent_reset(&Vec::new(), false, Some(5), None), TorrentReset::Untouched));
}

#[test]
fn stale_extraction_locks() {
    assert!(extraction_lock_stale(301));
    assert!(!extraction_lock_stale(300));
}

// ── torrent files on disk ────────────────────────────────────────────────

#[test]
fn placeholder_cleanup_keeps_selected_files() {
    let selected = vec!["eXoDOS/Content/Foo.zip".to_string()];
    // Windows-style path of an in-flight download: kept.
    assert!(!placeholder_should_delete("C:\\data\\eXoDOS\\Content\\Foo.zip", 0, Some("zip"), &selected));
    assert!(!placeholder_should_delete("/data/eXoDOS/Content/Foo.zip", 0, Some("zip"), &selected));
    // A placeholder nobody is downloading: deleted.
    assert!(placeholder_should_delete("/data/eXoDOS/Content/Bar.zip", 0, Some("zip"), &selected));
    // Files with content, or not ZIPs, are never touched.
    assert!(!placeholder_should_delete("/data/eXoDOS/Content/Bar.zip", 5, Some("zip"), &selected));
    assert!(!placeholder_should_delete("/data/eXoDOS/Content/Bar.txt", 0, Some("txt"), &selected));
    assert!(!placeholder_should_delete("/data/eXoDOS/Content/Bar", 0, None, &selected));
}

#[test]
fn long_paths_get_the_extended_prefix() {
    assert_eq!(to_long_path("C:/Games/eXo", true), "\\\\?\\C:\\Games\\eXo");
    assert_eq!(to_long_path("C:\\Games\\eXo", true), "\\\\?\\C:\\Games\\eXo");
    assert_eq!(to_long_path("\\\\server\\share\\x", true), "\\\\?\\UNC\\server\\share\\x");
    assert_eq!(to_long_path("relative/dir", true), "relative\\dir");
    assert_eq!(to_long_path("\\\\?\\C:\\x", true), "\\\\?\\C:\\x");
}

#[test]
fn long_paths_only_on_windows() {
    assert_eq!(to_long_path("/data/eXoDOS", false), "/data/eXoDOS");
    assert_eq!(to_long_path("C:/Games", false), "C:/Games");
}

#[test]
fn long_path_conversion_is_idempotent() {
    for p in ["C:/Games/eXo", "\\\\server\\share", "relative/dir", "D:\\a/b", ""] {
        let once = to_long_path(p, true);
        assert_eq!(to_long_path(&once, true), once);
    }
}

#[test]
fn selection_updates_retry_while_initializing() {
    assert!(should_retry_update("can't update initializing torrent", 0));
    assert!(should_retry_update("can't update initializing torrent", 18));
    assert!(!should_retry_update("can't update initializing torrent", 19));
    assert!(!should_retry_update("torrent is paused", 0));
}

#[test]
fn stuck_download_error_comes_after_five_minutes() {
    let mut st = RetryState::new();
    let start = 100_000u64;
    let mut t = start;
    let mut attempts = 0;
    // Poll every second until the retries are exhausted.
    while !stuck_error(attempts) {
        attempts = st.poll(3, t).0;
        t += 1_000;
    }
    let last = t - 1_000;
    assert_eq!(attempts, 61);
    assert!(last - start >= 60 * 5_000);
    assert_eq!(last - start, 300_000);
}

// ── one progress poll ────────────────────────────────────────────────────

#[test]
fn progress_poll_passes_an_unfinished_download_through() {
    let mut st = RetryState::new();
    let rep = FileReport { downloaded: 500, total: 1000, finished: false };
    let (r, a) = progress_step(rep, false, ZipOnDisk::Missing, &mut st, 7, 100_000);
    assert_eq!(
        r,
        PollReport { downloaded: 500, total: 1000, finished: false, installed: false, stuck: false }
    );
    assert!(matches!(a, PollAction::Nothing));
    // No retry was counted.
    assert_eq!(st.poll(7, 100_000), (1, true));
}

#[test]
fn progress_poll_trusts_the_disk_when_stats_lag() {
    let mut st = RetryState::new();
    let rep = FileReport { downloaded: 995, total: 1000, finished: false };
    let (r, a) = progress_step(rep, false, ZipOnDisk::Present(1000), &mut st, 7, 100_000);
    assert_eq!(
        r,
        PollReport { downloaded: 1000, total: 1000, finished: true, installed: false, stuck: false }
    );
    assert!(matches!(a, PollAction::Extract));
}

#[test]
fn progress_poll_extracts_and_clears_retries() {
    let mut st = RetryState::new();
    assert_eq!(st.poll(7, 100_000), (1, true));
    let rep = FileReport { downloaded: 1000, total: 1000, finished: true };
    let (r, a) = progress_step(rep, false, ZipOnDisk::Present(1000), &mut st, 7, 101_000);
    assert!(r.finished && !r.stuck);
    assert!(matches!(a, PollAction::Extract));
    // The count starts over.
    assert_eq!(st.poll(7, 200_000), (1, true));
}

#[test]
fn progress_poll_of_an_installed_game_does_nothing() {
    let mut st = RetryState::new();
    let rep = FileReport { downloaded: 1000, total: 1000, finished: true };
    let (r, a) = progress_step(rep, true, ZipOnDisk::Missing, &mut st, 7, 100_000);
    assert!(r.finished && r.installed && !r.stuck);
    assert!(matches!(a, PollAction::Nothing));
    let (_, a) = progress_step(rep, false, ZipOnDisk::Unknown, &mut st, 7, 100_000);
    assert!(matches!(a, PollAction::Nothing));
}

#[test]
fn progress_poll_retries_a_missing_zip_then_reports_it_stuck() {
    let mut st = RetryState::new();
    let rep = FileReport { downloaded: 1000, total: 1000, finished: true };
    let mut now: u64 = 100_000;
    let (r, a) = progress_step(rep, false, ZipOnDisk::Missing, &mut st, 7, now);
    assert!(!r.finished && !r.stuck);
    assert!(matches!(a, PollAction::Stuck(StuckAction::Retry)));
    // Within five seconds: wait.
    let (r, a) = progress_step(rep, false, ZipOnDisk::Missing, &mut st, 7, now + 1_000);
    assert!(!r.finished && !r.stuck);
    assert!(matches!(a, PollAction::Stuck(StuckAction::Wait)));
    for _ in 0..59 {
        now += 5_000;
        let (r, a) = progress_step(rep, false, ZipOnDisk::Missing, &mut st, 7, now);
        assert!(!r.stuck);
        assert!(matches!(a, PollAction::Stuck(StuckAction::Retry)));
    }
    now += 5_000;
    let (r, a) = progress_step(rep, false, ZipOnDisk::Missing, &mut st, 7, now);
    assert!(!r.finished && r.stuck);
    assert!(matches!(a, PollAction::Stuck(StuckAction::GiveUp)));
    now += 5_000;
    let (r, a) = progress_step(rep, false, ZipOnDisk::Missing, &mut st, 7, now);
    assert!(r.stuck);
    assert!(matches!(a, PollAction::Stuck(StuckAction::Wait)));
}
