use compy::{Action, AppConfig, AssetRun, AssetStatus, CompressionError, Event, MediaAsset, VideoFile};

const MB: u64 = 1024 * 1024;

fn config(delete: bool) -> AppConfig {
    AppConfig::new(delete, "+02:00".to_string())
}

fn start(path: &str, delete: bool) -> AssetRun {
    let (run, first) = AssetRun::begin(VideoFile::new(path.to_string()), &config(delete));
    assert_eq!(first, Action::CheckTarget);
    assert_eq!(*run.asset().status(), AssetStatus::Processing);
    run
}

/// Drives a run from its start up to the creation-date step, with a
/// compressed copy smaller than the source.
fn through_metadata(run: &mut AssetRun) {
    assert_eq!(run.step(Event::TargetChecked { exists: false }), Action::Encode);
    assert_eq!(run.step(Event::EncoderExited { success: true }), Action::ProbeSizes);
    let next = run.step(Event::SizesProbed { original: Some(50 * MB), compressed: Some(20 * MB) });
    assert_eq!(next, Action::ProbeCreationTime);
    let next = run.step(Event::CreationTimeProbed { creation_time: Some("2021-06-01T08:00:00Z".to_string()) });
    assert_eq!(next, Action::WriteCreationDate);
    assert_eq!(*run.asset().status(), AssetStatus::Processing);
}

#[test]
fn begin_names_the_target() {
    let run = start("videos/trip.mp4", false);
    assert_eq!(run.source_path(), "videos/trip.mp4");
    assert_eq!(run.target_path(), "videos/trip compressed.mp4");
    assert_eq!(run.pending(), Action::CheckTarget);
    let args = run.encoder_args();
    assert_eq!(args[1], "videos/trip.mp4");
    assert_eq!(args[12], "videos/trip compressed.mp4");
    assert_eq!(run.metadata_args()[0], "-Keys:CreationDate<${CreateDate;ShiftTime(\"+02:00\")}+02:00");
}

#[test]
fn begin_fails_an_unnameable_asset() {
    let (run, first) = AssetRun::begin(VideoFile::new("videos/raw".to_string()), &config(false));
    assert_eq!(first, Action::Finish);
    assert_eq!(*run.asset().status(), AssetStatus::Failed);
    assert!(matches!(run.error(), Some(CompressionError::IoError(_, w)) if w == "Error reading file extension"));
}

#[test]
fn begin_leaves_a_processed_asset_alone() {
    let mut done = VideoFile::new("a.mp4".to_string());
    done.set_status(AssetStatus::Completed);
    let (run, first) = AssetRun::begin(done, &config(true));
    assert_eq!(first, Action::Finish);
    assert_eq!(*run.asset().status(), AssetStatus::Completed);
}

#[test]
fn existing_target_skips_without_encoding() {
    let mut run = start("a.mp4", false);
    assert_eq!(run.step(Event::TargetChecked { exists: true }), Action::Finish);
    assert_eq!(*run.asset().status(), AssetStatus::Skipped);
    assert_eq!(run.step(Event::EncoderExited { success: true }), Action::Finish);
    assert_eq!(*run.asset().status(), AssetStatus::Skipped);
}

#[test]
fn second_run_on_the_same_source_is_skipped() {
    let mut first = start("clip.mov", false);
    through_metadata(&mut first);
    assert_eq!(first.step(Event::CreationDateWritten { outcome: Ok(true) }), Action::Finish);
    assert_eq!(*first.asset().status(), AssetStatus::Completed);
    let written = first.target_path().clone();

    let mut second = start("clip.mov", false);
    assert_eq!(second.target_path(), &written);
    assert_eq!(second.step(Event::TargetChecked { exists: true }), Action::Finish);
    assert_eq!(*second.asset().status(), AssetStatus::Skipped);
}

#[test]
fn encoder_failure_fails_and_stops() {
    let mut run = start("a.mp4", true);
    run.step(Event::TargetChecked { exists: false });
    assert_eq!(run.step(Event::EncoderExited { success: false }), Action::Finish);
    assert_eq!(*run.asset().status(), AssetStatus::Failed);
    assert!(run.error().is_none());
    let later = run.step(Event::SizesProbed { original: Some(1), compressed: Some(0) });
    assert_eq!(later, Action::Finish);
    assert_eq!(*run.into_asset().status(), AssetStatus::Failed);
}

#[test]
fn larger_copy_is_rolled_back() {
    let mut run = start("a.mp4", true);
    run.step(Event::TargetChecked { exists: false });
    run.step(Event::EncoderExited { success: true });
    let next = run.step(Event::SizesProbed { original: Some(2 * MB), compressed: Some(3 * MB) });
    assert_eq!(next, Action::RemoveCompressed);
    assert_eq!(*run.asset().status(), AssetStatus::Failed);
    match run.error() {
        Some(CompressionError::CompressionFailed(m)) => {
            assert_eq!(m, "Compressed is greater than original. Original: 2 MB, compressed: 3 MB")
        }
        other => panic!("unexpected {:?}", other),
    }
    assert_eq!(run.step(Event::CompressedRemoved { outcome: Ok(()) }), Action::Finish);
    assert_eq!(*run.asset().status(), AssetStatus::Failed);
    assert!(matches!(run.error(), Some(CompressionError::CompressionFailed(_))));
}

#[test]
fn equal_size_counts_as_a_failed_compression() {
    let mut run = start("a.mp4", false);
    run.step(Event::TargetChecked { exists: false });
    run.step(Event::EncoderExited { success: true });
    let next = run.step(Event::SizesProbed { original: Some(7), compressed: Some(7) });
    assert_eq!(next, Action::RemoveCompressed);
    assert_eq!(*run.asset().status(), AssetStatus::Failed);
}

#[test]
fn unreadable_size_fails_without_rollback() {
    let mut run = start("a.mp4", false);
    run.step(Event::TargetChecked { exists: false });
    run.step(Event::EncoderExited { success: true });
    let next = run.step(Event::SizesProbed { original: Some(7), compressed: None });
    assert_eq!(next, Action::Finish);
    assert_eq!(*run.asset().status(), AssetStatus::Failed);
    assert!(matches!(run.error(), Some(CompressionError::FileSizeError(m)) if m == "Error reading a compressed.mp4 file size"));
}

#[test]
fn missing_creation_time_is_a_post_processing_failure() {
    let mut run = start("a.mp4", true);
    run.step(Event::TargetChecked { exists: false });
    run.step(Event::EncoderExited { success: true });
    run.step(Event::SizesProbed { original: Some(9), compressed: Some(3) });
    let next = run.step(Event::CreationTimeProbed { creation_time: None });
    assert_eq!(next, Action::Finish);
    assert_eq!(*run.asset().status(), AssetStatus::PostProcessingFailed);
    assert!(matches!(run.error(), Some(CompressionError::DateError(_, _))));
}

#[test]
fn metadata_tool_failure_keeps_the_source() {
    let mut run = start("a.mp4", true);
    through_metadata(&mut run);
    assert_eq!(run.step(Event::CreationDateWritten { outcome: Ok(false) }), Action::Finish);
    assert_eq!(*run.asset().status(), AssetStatus::PostProcessingFailed);
    let mut run = start("a.mp4", true);
    through_metadata(&mut run);
    let next = run.step(Event::CreationDateWritten { outcome: Err("not found".to_string()) });
    assert_eq!(next, Action::Finish);
    match run.error() {
        Some(e) => assert_eq!(e.message(), "Could not correct the creation date a date error occurred: not found"),
        None => panic!("no error"),
    }
}

#[test]
fn success_without_deletion_completes() {
    let mut run = start("a.mp4", false);
    through_metadata(&mut run);
    assert_eq!(run.step(Event::CreationDateWritten { outcome: Ok(true) }), Action::Finish);
    assert_eq!(*run.asset().status(), AssetStatus::Completed);
    assert!(run.error().is_none());
}

#[test]
fn success_with_deletion_trashes_the_source() {
    let mut run = start("a.mp4", true);
    through_metadata(&mut run);
    assert_eq!(run.step(Event::CreationDateWritten { outcome: Ok(true) }), Action::TrashSource);
    assert_eq!(run.step(Event::SourceTrashed { trashed: true }), Action::Finish);
    assert_eq!(*run.asset().status(), AssetStatus::Completed);
}

#[test]
fn failed_trash_falls_back_to_removal() {
    let mut run = start("a.mp4", true);
    through_metadata(&mut run);
    run.step(Event::CreationDateWritten { outcome: Ok(true) });
    assert_eq!(run.step(Event::SourceTrashed { trashed: false }), Action::RemoveSource);
    assert_eq!(run.step(Event::SourceRemoved { outcome: Ok(()) }), Action::Finish);
    assert_eq!(*run.asset().status(), AssetStatus::Completed);
}

#[test]
fn failed_removal_is_a_post_processing_failure() {
    let mut run = start("a.mp4", true);
    through_metadata(&mut run);
    run.step(Event::CreationDateWritten { outcome: Ok(true) });
    run.step(Event::SourceTrashed { trashed: false });
    assert_eq!(run.step(Event::SourceRemoved { outcome: Err("denied".to_string()) }), Action::Finish);
    assert_eq!(*run.asset().status(), AssetStatus::PostProcessingFailed);
    assert!(matches!(run.error(), Some(CompressionError::IoError(m, w)) if m == "Could not delete a.mp4" && w == "denied"));
}

#[test]
fn unrelated_event_changes_nothing() {
    let mut run = start("a.mp4", false);
    assert_eq!(run.step(Event::SourceTrashed { trashed: true }), Action::CheckTarget);
    assert_eq!(*run.asset().status(), AssetStatus::Processing);
}

#[test]
fn progress_capacity_is_the_probed_duration() {
    let mut run = start("a.mp4", false);
    assert_eq!(run.progress_capacity(), 0);
    run.record_duration(Some(95));
    assert_eq!(run.progress_capacity(), 95);
    assert_eq!(run.asset().duration_int(), Some(95));
}

#[test]
fn failed_rollback_is_recorded() {
    let mut run = start("a.mp4", true);
    run.step(Event::TargetChecked { exists: false });
    run.step(Event::EncoderExited { success: true });
    run.step(Event::SizesProbed { original: Some(2), compressed: Some(3) });
    let next = run.step(Event::CompressedRemoved { outcome: Err("busy".to_string()) });
    assert_eq!(next, Action::Finish);
    assert_eq!(*run.asset().status(), AssetStatus::Failed);
    assert!(matches!(run.error(), Some(CompressionError::IoError(m, w)) if m == "Could not delete a compressed.mp4" && w == "busy"));
}
