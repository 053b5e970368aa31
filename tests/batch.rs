use compy::{process_assets, Action, AppConfig, AssetStatus, Event, MediaAsset, VideoFile};

fn assets(paths: &[&str]) -> Vec<VideoFile> {
    paths.iter().map(|p| VideoFile::new(p.to_string())).collect()
}

fn config() -> AppConfig {
    AppConfig::new(false, "+00:00".to_string())
}

#[test]
fn batch_goes_on_after_a_failure() {
    let (mut batch, action) = process_assets(assets(&["a.mp4", "b.mp4", "c.mp4"]), config());
    assert_eq!(action, Action::CheckTarget);
    assert_eq!(batch.current().unwrap().source_path(), "a.mp4");
    // a.mp4: the encoder fails.
    assert_eq!(batch.step(Event::TargetChecked { exists: false }), Action::Encode);
    assert_eq!(batch.step(Event::EncoderExited { success: false }), Action::CheckTarget);
    assert_eq!(batch.current().unwrap().source_path(), "b.mp4");
    // b.mp4: already compressed.
    assert_eq!(batch.step(Event::TargetChecked { exists: true }), Action::CheckTarget);
    assert_eq!(batch.current().unwrap().source_path(), "c.mp4");
    // c.mp4: compressed cleanly.
    batch.step(Event::TargetChecked { exists: false });
    batch.step(Event::EncoderExited { success: true });
    batch.step(Event::SizesProbed { original: Some(10), compressed: Some(4) });
    batch.step(Event::CreationTimeProbed { creation_time: Some("t".to_string()) });
    assert_eq!(batch.step(Event::CreationDateWritten { outcome: Ok(true) }), Action::Finish);
    assert!(batch.current().is_none());
    assert_eq!(batch.finished().len(), 3);
    let out = batch.into_assets();
    let summary: Vec<(String, AssetStatus)> = out.iter().map(|a| (a.path().clone(), *a.status())).collect();
    assert_eq!(
        summary,
        vec![
            ("a.mp4".to_string(), AssetStatus::Failed),
            ("b.mp4".to_string(), AssetStatus::Skipped),
            ("c.mp4".to_string(), AssetStatus::Completed),
        ]
    );
}

#[test]
fn unnameable_assets_are_passed_over_at_once() {
    let (batch, action) = process_assets(assets(&["noext", "b.mkv"]), config());
    assert_eq!(action, Action::CheckTarget);
    assert_eq!(batch.current().unwrap().source_path(), "b.mkv");
    assert_eq!(batch.finished().len(), 1);
    let out = batch.into_assets();
    assert_eq!(out.len(), 2);
    assert_eq!(*out[0].status(), AssetStatus::Failed);
    assert_eq!(*out[1].status(), AssetStatus::Processing);
}

#[test]
fn empty_batch_finishes_at_once() {
    let (batch, action) = process_assets(Vec::new(), config());
    assert_eq!(action, Action::Finish);
    assert!(batch.into_assets().is_empty());
}

#[test]
fn duration_is_recorded_on_the_run_under_way() {
    let (mut batch, _) = process_assets(assets(&["a.mp4"]), config());
    batch.record_duration(Some(42));
    assert_eq!(batch.current().unwrap().progress_capacity(), 42);
}
