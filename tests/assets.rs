use compy::{verify_successful_compression, AssetStatus, CompressionError, MediaAsset, VideoFile};

const MB: u64 = 1024 * 1024;

fn sized(path: &str, size: Option<u64>) -> VideoFile {
    let mut v = VideoFile::new(path.to_string());
    v.record_size(size);
    v
}

#[test]
fn new_asset_is_pending_and_unprobed() {
    let v = VideoFile::new("a.mp4".to_string());
    assert_eq!(v.path(), "a.mp4");
    assert_eq!(*v.status(), AssetStatus::Pending);
    assert_eq!(v.size(), None);
    assert_eq!(v.size_mb(), None);
    assert_eq!(v.duration_int(), None);
    assert_eq!(v.creation_time(), None);
}

#[test]
fn set_status_changes_only_the_status() {
    let mut v = sized("a.mp4", Some(10));
    v.set_status(AssetStatus::Failed);
    assert_eq!(*v.status(), AssetStatus::Failed);
    assert_eq!(v.size(), Some(10));
    assert_eq!(v.path(), "a.mp4");
}

#[test]
fn size_in_megabytes_truncates() {
    assert_eq!(sized("a", Some(5 * MB + MB - 1)).size_mb(), Some(5));
    assert_eq!(sized("a", Some(MB - 1)).size_mb(), Some(0));
    assert_eq!(sized("a", Some(u64::MAX)).size_mb(), Some(u64::MAX / MB));
}

#[test]
fn is_greater_than_compares_sizes() {
    assert!(sized("a", Some(10)).is_greater_than(&sized("b", Some(10))));
    assert!(!sized("a", Some(9)).is_greater_than(&sized("b", Some(10))));
    assert!(!sized("a", None).is_greater_than(&sized("b", Some(10))));
    assert!(sized("a", Some(1)).is_greater_than(&sized("b", None)));
}

#[test]
fn probes_are_recorded() {
    let mut v = VideoFile::new("a.mp4".to_string());
    v.record_duration(Some(61));
    v.record_creation_time(Some("2024-01-01T10:00:00.000000Z".to_string()));
    assert_eq!(v.duration_int(), Some(61));
    assert_eq!(v.creation_time(), Some("2024-01-01T10:00:00.000000Z".to_string()));
    let copy = v.duplicate();
    assert_eq!(copy.duration_int(), Some(61));
    assert_eq!(copy.path(), "a.mp4");
}

#[test]
fn status_labels() {
    assert_eq!(AssetStatus::Pending.label(), "Pending");
    assert_eq!(AssetStatus::Completed.label(), "Completed");
    assert_eq!(AssetStatus::PostProcessingFailed.label(), "Post processing failed");
    assert!(AssetStatus::Skipped.is_terminal());
    assert!(!AssetStatus::Processing.is_terminal());
}

#[test]
fn error_messages() {
    let e = CompressionError::IoError("Could not delete a.mp4".to_string(), "denied".to_string());
    assert_eq!(e.message(), "Could not delete a.mp4 an IO error occurred: denied");
    let e = CompressionError::DateError("x".to_string(), "y".to_string());
    assert_eq!(e.message(), "x a date error occurred: y");
    let e = CompressionError::CompressionFailed("bigger".to_string());
    assert_eq!(e.message(), "bigger");
}

#[test]
fn verification_passes_a_smaller_copy() {
    let o = sized("a.mp4", Some(10 * MB));
    let c = sized("a compressed.mp4", Some(3 * MB));
    assert!(verify_successful_compression(&o, &c).is_ok());
}

#[test]
fn verification_fails_a_copy_that_is_not_smaller() {
    let o = sized("a.mp4", Some(2 * MB + 5));
    let c = sized("a compressed.mp4", Some(3 * MB + 7));
    match verify_successful_compression(&o, &c) {
        Err(CompressionError::CompressionFailed(m)) => {
            assert_eq!(m, "Compressed is greater than original. Original: 2 MB, compressed: 3 MB")
        }
        other => panic!("unexpected {:?}", other),
    }
    let same = sized("a compressed.mp4", Some(2 * MB + 5));
    assert!(matches!(verify_successful_compression(&o, &same), Err(CompressionError::CompressionFailed(_))));
}

#[test]
fn verification_fails_on_an_unreadable_size() {
    let o = sized("a.mp4", None);
    let c = sized("a compressed.mp4", Some(1));
    match verify_successful_compression(&o, &c) {
        Err(CompressionError::FileSizeError(m)) => assert_eq!(m, "Error reading a.mp4 file size"),
        other => panic!("unexpected {:?}", other),
    }
    let o = sized("a.mp4", Some(1));
    let c = sized("a compressed.mp4", None);
    match verify_successful_compression(&o, &c) {
        Err(CompressionError::FileSizeError(m)) => assert_eq!(m, "Error reading a compressed.mp4 file size"),
        other => panic!("unexpected {:?}", other),
    }
}

#[test]
fn creation_date_needs_a_creation_time() {
    let v = VideoFile::new("a.mp4".to_string());
    match v.set_creation_date_with_time_zone(&"a compressed.mp4".to_string(), &"-06:00".to_string()) {
        Err(CompressionError::DateError(m, e)) => {
            assert_eq!(m, "Could not correct the creation date");
            assert_eq!(e, "Creation time not available on video asset");
        }
        other => panic!("unexpected {:?}", other),
    }
    assert!(v.set_creation_date(&"a compressed.mp4".to_string(), 3600).is_err());
}

#[test]
fn creation_date_arguments() {
    let mut v = VideoFile::new("a.mp4".to_string());
    v.record_creation_time(Some("2020-05-01T12:00:00Z".to_string()));
    let args = v.set_creation_date_with_time_zone(&"a compressed.mp4".to_string(), &"-06:00".to_string()).unwrap();
    assert_eq!(args[0], "-Keys:CreationDate<${CreateDate;ShiftTime(\"-06:00\")}-06:00");
    assert_eq!(args[2], "a compressed.mp4");
    let shifted = v.set_creation_date(&"a compressed.mp4".to_string(), -21600).unwrap();
    assert_eq!(shifted[0], "-Keys:CreationDate<${CreateDate;ShiftTime(\"-06:00\")}-06:00");
    assert_eq!(shifted[1], "-overwrite_original");
}

#[test]
fn summary_line_shows_path_and_status() {
    let mut v = VideoFile::new("dir/a.mp4".to_string());
    assert_eq!(v.summary_line(), "dir/a.mp4 - Pending");
    v.set_status(AssetStatus::PostProcessingFailed);
    assert_eq!(v.summary_line(), "dir/a.mp4 - Post processing failed");
}
