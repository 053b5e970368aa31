//! The per-asset pipeline as a state machine.
//!
//! The outside work (looking at the disk, running the encoder and the
//! metadata tool, trashing or removing files) is done by the caller: a step
//! takes what came of the last request and says what to do next, until
//! `Action::Finish`.
use vstd::prelude::*;
use vstd::string::*;

use crate::asset::{
    megabytes, opt_view, AssetStatus, AssetView, CompressionError, ErrorView, MediaAsset,
    VideoFile,
};
use crate::paths::{compressed_name, get_compressed_file_name, has_extension, has_file_name};
use crate::scanner::strings_view;
use crate::text::{decimal, push_decimal};
use crate::tools::{
    encoder_args, encoder_args_spec, metadata_args, metadata_args_spec, missing_creation_time,
};

verus! {

/// What a run is told once for all: whether to remove sources after a clean
/// compression, and the UTC offset of the creation dates.
pub struct AppConfig {
    delete: bool,
    time_zone: String,
}

impl AppConfig {
    pub fn new(delete: bool, time_zone: String) -> (r: AppConfig)
        ensures
            r.delete_enabled() == delete,
            r.time_zone_view() == time_zone@,
    {
        AppConfig { delete, time_zone }
    }

    pub closed spec fn delete_enabled(&self) -> bool {
        self.delete
    }

    pub closed spec fn time_zone_view(&self) -> Seq<char> {
        self.time_zone@
    }

    pub fn delete(&self) -> (r: bool)
        ensures
            r == self.delete_enabled(),
    {
        self.delete
    }

    pub fn time_zone(&self) -> (r: &String)
        ensures
            r@ == self.time_zone_view(),
    {
        &self.time_zone
    }
}

/// What the pipeline asks the caller to do next.
#[derive(Debug, Clone, Copy, PartialEq, Eq, Structural)]
pub enum Action {
    /// Tell whether the target path exists.
    CheckTarget,
    /// Run the encoder with `encoder_args`, following its diagnostic stream
    /// with a `ProgressMonitor`, and tell whether it exited successfully.
    Encode,
    /// Tell the sizes of the source and of the target.
    ProbeSizes,
    /// Remove the target: it is no smaller than the source. The asset has
    /// already failed; a removal that fails too is recorded as its error.
    RemoveCompressed,
    /// Tell the creation-time tag of the source.
    ProbeCreationTime,
    /// Run the metadata tool with `metadata_args`.
    WriteCreationDate,
    /// Move the source to the trash.
    TrashSource,
    /// Remove the source for good.
    RemoveSource,
    /// Nothing is left to do.
    Finish,
}

/// What came of the last action.
#[derive(Debug)]
pub enum Event {
    TargetChecked { exists: bool },
    /// `success` is false when the encoder could not be started as well.
    EncoderExited { success: bool },
    SizesProbed { original: Option<u64>, compressed: Option<u64> },
    /// `Ok`, or the system's words on why the compressed copy stays.
    CompressedRemoved { outcome: Result<(), String> },
    CreationTimeProbed { creation_time: Option<String> },
    /// `Ok` with whether the tool exited successfully, or why it could not
    /// be started.
    CreationDateWritten { outcome: Result<bool, String> },
    SourceTrashed { trashed: bool },
    /// `Ok`, or the system's words on why the file stays.
    SourceRemoved { outcome: Result<(), String> },
}

pub open spec fn size_error(path: Seq<char>) -> ErrorView {
    ErrorView::FileSizeError("Error reading "@ + path + " file size"@)
}

pub open spec fn regression_error(original: u64, compressed: u64) -> ErrorView {
    ErrorView::CompressionFailed(
        "Compressed is greater than original. Original: "@ + decimal(megabytes(original) as nat)
            + " MB, compressed: "@ + decimal(megabytes(compressed) as nat) + " MB"@,
    )
}

/// The verifier's decision on the sizes recorded for the source and its
/// compressed copy: `None` to go on.
pub open spec fn verdict(original: AssetView, compressed: AssetView) -> Option<ErrorView> {
    match (original.size, compressed.size) {
        (None, _) => Some(size_error(original.path)),
        (Some(_), None) => Some(size_error(compressed.path)),
        (Some(o), Some(c)) => if c >= o {
            Some(regression_error(o, c))
        } else {
            None
        },
    }
}

pub open spec fn date_message() -> Seq<char> {
    "Could not correct the creation date"@
}

pub open spec fn tool_failed() -> ErrorView {
    ErrorView::DateError(date_message(), "The metadata tool exited with a failure status"@)
}

pub open spec fn delete_error(path: Seq<char>, words: Seq<char>) -> ErrorView {
    ErrorView::IoError("Could not delete "@ + path, words)
}

pub open spec fn naming_error(words: Seq<char>) -> ErrorView {
    ErrorView::IoError("Could not name the compressed copy"@, words)
}

fn size_error_exec(path: &String) -> (r: CompressionError)
    ensures
        r@ == size_error(path@),
{
    let mut m = String::from_str("Error reading ");
    m.append(path.as_str());
    m.append(" file size");
    CompressionError::FileSizeError(m)
}

/// Decides between going on and failing, from the recorded sizes: a size
/// that could not be read fails, and so does a compressed copy that is no
/// smaller than its source.
pub fn verify_successful_compression(original: &VideoFile, compressed: &VideoFile) -> (r: Result<
    (),
    CompressionError,
>)
    ensures
        match r {
            Ok(()) => verdict(original@, compressed@) is None,
            Err(e) => verdict(original@, compressed@) == Some(e@),
        },
{
    let o = match original.size() {
        Some(o) => o,
        None => {
            return Err(size_error_exec(original.path()));
        },
    };
    let c = match compressed.size() {
        Some(c) => c,
        None => {
            return Err(size_error_exec(compressed.path()));
        },
    };
    if compressed.is_greater_than(original) {
        let mut m = String::from_str("Compressed is greater than original. Original: ");
        push_decimal(&mut m, o / 1024 / 1024);
        m.append(" MB, compressed: ");
        push_decimal(&mut m, c / 1024 / 1024);
        m.append(" MB");
        return Err(CompressionError::CompressionFailed(m));
    }
    Ok(())
}

/// The mathematical content of an `AssetRun`.
pub struct RunView {
    pub asset: AssetView,
    pub compressed: AssetView,
    pub delete: bool,
    pub time_zone: Seq<char>,
    pub pending: Action,
    pub error: Option<ErrorView>,
}

/// The pipeline of one asset.
pub struct AssetRun {
    asset: VideoFile,
    compressed: VideoFile,
    delete: bool,
    time_zone: String,
    pending: Action,
    error: Option<CompressionError>,
}

pub open spec fn err_view(e: Option<CompressionError>) -> Option<ErrorView> {
    match e {
        Some(x) => Some(x@),
        None => None,
    }
}

impl View for AssetRun {
    type V = RunView;

    closed spec fn view(&self) -> RunView {
        RunView {
            asset: self.asset@,
            compressed: self.compressed@,
            delete: self.delete,
            time_zone: self.time_zone@,
            pending: self.pending,
            error: err_view(self.error),
        }
    }
}

pub open spec fn with_status(a: AssetView, status: AssetStatus) -> AssetView {
    AssetView { status, ..a }
}

/// The run ends with `status`.
pub open spec fn finish_with(v: RunView, status: AssetStatus, error: Option<ErrorView>) -> RunView {
    RunView { asset: with_status(v.asset, status), pending: Action::Finish, error, ..v }
}

/// The run goes on with `next`.
pub open spec fn await_next(v: RunView, next: Action) -> RunView {
    RunView { pending: next, ..v }
}

/// The start of a run: a pending asset moves to `Processing` and its
/// target is named; any other asset is left as it is.
pub open spec fn begin_spec(a: AssetView, delete: bool, time_zone: Seq<char>) -> RunView {
    let idle = RunView {
        asset: a,
        compressed: crate::scanner::fresh_asset(Seq::empty()),
        delete,
        time_zone,
        pending: Action::Finish,
        error: None,
    };
    if a.status != AssetStatus::Pending {
        idle
    } else if !has_extension(a.path) {
        finish_with(
            idle,
            AssetStatus::Failed,
            Some(
                naming_error(
                    if has_file_name(a.path) {
                        "Error reading file extension"@
                    } else {
                        "Error reading file name"@
                    },
                ),
            ),
        )
    } else {
        RunView {
            asset: with_status(a, AssetStatus::Processing),
            compressed: crate::scanner::fresh_asset(compressed_name(a.path)),
            pending: Action::CheckTarget,
            ..idle
        }
    }
}

/// One step: what came of the pending action decides the next one. An event
/// that does not answer the pending action changes nothing.
pub open spec fn step_spec(v: RunView, e: Event) -> RunView {
    match (v.pending, e) {
        (Action::CheckTarget, Event::TargetChecked { exists }) => if exists {
            finish_with(v, AssetStatus::Skipped, None)
        } else {
            await_next(v, Action::Encode)
        },
        (Action::Encode, Event::EncoderExited { success }) => if success {
            await_next(v, Action::ProbeSizes)
        } else {
            finish_with(v, AssetStatus::Failed, None)
        },
        (Action::ProbeSizes, Event::SizesProbed { original, compressed }) => {
            let w = RunView {
                asset: AssetView { size: original, ..v.asset },
                compressed: AssetView { size: compressed, ..v.compressed },
                ..v
            };
            match verdict(w.asset, w.compressed) {
                None => await_next(w, Action::ProbeCreationTime),
                Some(err) => if err is CompressionFailed {
                    RunView {
                        asset: with_status(w.asset, AssetStatus::Failed),
                        pending: Action::RemoveCompressed,
                        error: Some(err),
                        ..w
                    }
                } else {
                    finish_with(w, AssetStatus::Failed, Some(err))
                },
            }
        },
        (Action::RemoveCompressed, Event::CompressedRemoved { outcome }) => match outcome {
            Ok(()) => await_next(v, Action::Finish),
            Err(words) => RunView {
                pending: Action::Finish,
                error: Some(delete_error(v.compressed.path, words@)),
                ..v
            },
        },
        (Action::ProbeCreationTime, Event::CreationTimeProbed { creation_time }) => {
            let w = RunView {
                asset: AssetView { creation_time: opt_view(creation_time), ..v.asset },
                ..v
            };
            if creation_time is Some {
                await_next(w, Action::WriteCreationDate)
            } else {
                finish_with(w, AssetStatus::PostProcessingFailed, Some(missing_creation_time()))
            }
        },
        (Action::WriteCreationDate, Event::CreationDateWritten { outcome }) => match outcome {
            Ok(true) => if v.delete {
                await_next(v, Action::TrashSource)
            } else {
                finish_with(v, AssetStatus::Completed, None)
            },
            Ok(false) => finish_with(v, AssetStatus::PostProcessingFailed, Some(tool_failed())),
            Err(words) => finish_with(
                v,
                AssetStatus::PostProcessingFailed,
                Some(ErrorView::DateError(date_message(), words@)),
            ),
        },
        (Action::TrashSource, Event::SourceTrashed { trashed }) => if trashed {
            finish_with(v, AssetStatus::Completed, None)
        } else {
            await_next(v, Action::RemoveSource)
        },
        (Action::RemoveSource, Event::SourceRemoved { outcome }) => match outcome {
            Ok(()) => finish_with(v, AssetStatus::Completed, None),
            Err(words) => finish_with(
                v,
                AssetStatus::PostProcessingFailed,
                Some(delete_error(v.asset.path, words@)),
            ),
        },
        _ => v,
    }
}

impl AssetRun {
    /// Starts the pipeline of `asset`: a pending asset moves to `Processing`
    /// and the target is named; the first action is returned. An asset that
    /// is not pending is left as it is, with nothing to do.
    pub fn begin(asset: VideoFile, config: &AppConfig) -> (r: (AssetRun, Action))
        ensures
            r.0@ == begin_spec(asset@, config.delete_enabled(), config.time_zone_view()),
            r.1 == r.0@.pending,
    {
        let mut asset = asset;
        let time_zone = config.time_zone().clone();
        if *asset.status() != AssetStatus::Pending {
            let run = AssetRun {
                asset,
                compressed: VideoFile::new(String::new()),
                delete: config.delete(),
                time_zone,
                pending: Action::Finish,
                error: None,
            };
            return (run, Action::Finish);
        }
        match get_compressed_file_name(asset.path()) {
            Ok(target) => {
                asset.set_status(AssetStatus::Processing);
                let run = AssetRun {
                    asset,
                    compressed: VideoFile::new(target),
                    delete: config.delete(),
                    time_zone,
                    pending: Action::CheckTarget,
                    error: None,
                };
                (run, Action::CheckTarget)
            },
            Err(words) => {
                asset.set_status(AssetStatus::Failed);
                let run = AssetRun {
                    asset,
                    compressed: VideoFile::new(String::new()),
                    delete: config.delete(),
                    time_zone,
                    pending: Action::Finish,
                    error: Some(
                        CompressionError::IoError(
                            String::from_str("Could not name the compressed copy"),
                            words,
                        ),
                    ),
                };
                (run, Action::Finish)
            },
        }
    }

    fn finish(&mut self, status: AssetStatus, error: Option<CompressionError>) -> (r: Action)
        ensures
            final(self)@ == finish_with(old(self)@, status, err_view(error)),
            r == Action::Finish,
    {
        self.asset.set_status(status);
        self.pending = Action::Finish;
        self.error = error;
        Action::Finish
    }

    fn await_next(&mut self, next: Action) -> (r: Action)
        ensures
            final(self)@ == await_next(old(self)@, next),
            r == next,
    {
        self.pending = next;
        next
    }

    /// Takes what came of the pending action and returns the next one.
    pub fn step(&mut self, event: Event) -> (r: Action)
        ensures
            final(self)@ == step_spec(old(self)@, event),
            r == final(self)@.pending,
    {
        match (self.pending, event) {
            (Action::CheckTarget, Event::TargetChecked { exists }) => {
                if exists {
                    self.finish(AssetStatus::Skipped, None)
                } else {
                    self.await_next(Action::Encode)
                }
            },
            (Action::Encode, Event::EncoderExited { success }) => {
                if success {
                    self.await_next(Action::ProbeSizes)
                } else {
                    self.finish(AssetStatus::Failed, None)
                }
            },
            (Action::ProbeSizes, Event::SizesProbed { original, compressed }) => {
                self.asset.record_size(original);
                self.compressed.record_size(compressed);
                match verify_successful_compression(&self.asset, &self.compressed) {
                    Ok(()) => self.await_next(Action::ProbeCreationTime),
                    Err(err) => {
                        match err {
                            CompressionError::CompressionFailed(m) => {
                                self.asset.set_status(AssetStatus::Failed);
                                self.error = Some(CompressionError::CompressionFailed(m));
                                self.await_next(Action::RemoveCompressed)
                            },
                            other => self.finish(AssetStatus::Failed, Some(other)),
                        }
                    },
                }
            },
            (Action::RemoveCompressed, Event::CompressedRemoved { outcome }) => {
                match outcome {
                    Ok(()) => self.await_next(Action::Finish),
                    Err(words) => {
                        let mut m = String::from_str("Could not delete ");
                        m.append(self.compressed.path().as_str());
                        self.error = Some(CompressionError::IoError(m, words));
                        self.await_next(Action::Finish)
                    },
                }
            },
            (Action::ProbeCreationTime, Event::CreationTimeProbed { creation_time }) => {
                self.asset.record_creation_time(creation_time);
                match self.asset.set_creation_date_with_time_zone(
                    self.compressed.path(),
                    &self.time_zone,
                ) {
                    Ok(_) => self.await_next(Action::WriteCreationDate),
                    Err(e) => self.finish(AssetStatus::PostProcessingFailed, Some(e)),
                }
            },
            (Action::WriteCreationDate, Event::CreationDateWritten { outcome }) => {
                match outcome {
                    Ok(true) => {
                        if self.delete {
                            self.await_next(Action::TrashSource)
                        } else {
                            self.finish(AssetStatus::Completed, None)
                        }
                    },
                    Ok(false) => {
                        let e = CompressionError::DateError(
                            String::from_str("Could not correct the creation date"),
                            String::from_str("The metadata tool exited with a failure status"),
                        );
                        self.finish(AssetStatus::PostProcessingFailed, Some(e))
                    },
                    Err(words) => {
                        let e = CompressionError::DateError(
                            String::from_str("Could not correct the creation date"),
                            words,
                        );
                        self.finish(AssetStatus::PostProcessingFailed, Some(e))
                    },
                }
            },
            (Action::TrashSource, Event::SourceTrashed { trashed }) => {
                if trashed {
                    self.finish(AssetStatus::Completed, None)
                } else {
                    self.await_next(Action::RemoveSource)
                }
            },
            (Action::RemoveSource, Event::SourceRemoved { outcome }) => {
                match outcome {
                    Ok(()) => self.finish(AssetStatus::Completed, None),
                    Err(words) => {
                        let mut m = String::from_str("Could not delete ");
                        m.append(self.asset.path().as_str());
                        let e = CompressionError::IoError(m, words);
                        self.finish(AssetStatus::PostProcessingFailed, Some(e))
                    },
                }
            },
            _ => self.pending,
        }
    }

    /// The action the run waits on.
    pub fn pending(&self) -> (r: Action)
        ensures
            r == self@.pending,
    {
        self.pending
    }

    /// The asset being processed.
    pub fn asset(&self) -> (r: &VideoFile)
        ensures
            r@ == self@.asset,
    {
        &self.asset
    }

    /// The path of the source.
    pub fn source_path(&self) -> (r: &String)
        ensures
            r@ == self@.asset.path,
    {
        self.asset.path()
    }

    /// The path of the compressed copy.
    pub fn target_path(&self) -> (r: &String)
        ensures
            r@ == self@.compressed.path,
    {
        self.compressed.path()
    }

    /// The encoder's arguments for this asset.
    pub fn encoder_args(&self) -> (r: Vec<String>)
        ensures
            strings_view(r@) == encoder_args_spec(self@.asset.path, self@.compressed.path),
    {
        encoder_args(self.asset.path(), self.compressed.path())
    }

    /// The metadata tool's arguments for this asset.
    pub fn metadata_args(&self) -> (r: Vec<String>)
        ensures
            strings_view(r@) == metadata_args_spec(self@.compressed.path, self@.time_zone),
    {
        metadata_args(self.compressed.path(), &self.time_zone)
    }

    /// The probed duration of the source in whole seconds, 0 when unknown:
    /// the capacity of the progress indicator.
    pub fn progress_capacity(&self) -> (r: u64)
        ensures
            r == match self@.asset.duration {
                Some(d) => d,
                None => 0,
            },
    {
        match self.asset.duration_int() {
            Some(d) => d,
            None => 0,
        }
    }

    /// Records the probed duration of the source.
    pub fn record_duration(&mut self, seconds: Option<u64>)
        ensures
            final(self)@ == (RunView {
                asset: AssetView { duration: seconds, ..old(self)@.asset },
                ..old(self)@
            }),
    {
        self.asset.record_duration(seconds);
    }

    /// Why the run did not end cleanly, if it did not.
    pub fn error(&self) -> (r: &Option<CompressionError>)
        ensures
            err_view(*r) == self@.error,
    {
        &self.error
    }

    /// The asset, with its final status, once the run is over.
    pub fn into_asset(self) -> (r: VideoFile)
        ensures
            r@ == self@.asset,
    {
        self.asset
    }
}

} // verus!
