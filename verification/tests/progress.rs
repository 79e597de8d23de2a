use zpic::progress::{progress_message, scale_position, ProgressState};

#[test]
fn scale_position_clamps_direct_progress() {
    assert_eq!(scale_position(0, 100, 100), 0);
    assert_eq!(scale_position(50, 100, 100), 50);
    assert_eq!(scale_position(150, 100, 100), 100);
}

#[test]
fn scale_position_maps_body_progress_back_to_file_size() {
    assert_eq!(scale_position(0, 200, 100), 0);
    assert_eq!(scale_position(100, 200, 100), 50);
    assert_eq!(scale_position(200, 200, 100), 100);
}

#[test]
fn progress_message_includes_batch_index_when_needed() {
    assert_eq!(progress_message("s3", "[1] cover.png", 1, 3), "Uploading [1] cover.png via s3 (1/3)");
    assert_eq!(progress_message("s3", "cover.png", 1, 1), "Uploading cover.png via s3");
}

#[test]
fn disabled_sink_callback_is_noop() {
    let sink = ProgressState::new(true, "s3", 1, false, true);
    assert!(!sink.is_enabled());
    assert!(!sink.callback_drives_bar(100));
}

#[test]
fn scale_position_handles_zero_sizes_and_huge_values() {
    assert_eq!(scale_position(10, 20, 0), 0);
    assert_eq!(scale_position(7, 0, 5), 5);
    assert_eq!(scale_position(u64::MAX, u64::MAX, u64::MAX - 1), u64::MAX - 1);
}

#[test]
fn enabled_sink_tracks_files() {
    let mut sink = ProgressState::new(false, "s3", 2, false, true);
    assert!(sink.is_enabled());
    let first = sink.begin_file("a.png", 10).unwrap();
    assert_eq!(first.message, "Uploading a.png via s3 (1/2)");
    assert!(!first.cleared_previous);
    assert!(sink.callback_drives_bar(10));
    assert_eq!(sink.finish_file(20), Some((10, 10)));
    let second = sink.begin_file("b.png", 0).unwrap();
    assert_eq!(second.message, "Uploading b.png via s3 (2/2)");
    assert!(!sink.callback_drives_bar(0));
    assert!(sink.fail_file());
    assert!(!sink.finish());
    assert_eq!(sink.files_done, 2);
}

#[test]
fn non_terminal_or_dry_run_disables_progress() {
    assert!(!ProgressState::new(false, "s3", 1, false, false).is_enabled());
    assert!(!ProgressState::new(false, "s3", 1, true, true).is_enabled());
    assert!(!ProgressState::new(false, "s3", 0, false, true).is_enabled());
}
