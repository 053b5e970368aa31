//! A tracked video file: its path, its lifecycle status, and what probing the
//! file revealed about it.
use vstd::prelude::*;
use vstd::string::*;

verus! {

/// Where an asset stands in its single processing pass.
#[derive(Debug, Clone, Copy, PartialEq, Eq, Structural)]
pub enum AssetStatus {
    Pending,
    Processing,
    Completed,
    Skipped,
    Failed,
    PostProcessingFailed,
}

/// Another name for `AssetStatus`.
pub type VideoStatus = AssetStatus;

/// A status that ends a pass: nothing proceeds past it.
pub open spec fn is_terminal(s: AssetStatus) -> bool {
    match s {
        AssetStatus::Pending | AssetStatus::Processing => false,
        _ => true,
    }
}

pub open spec fn status_label(s: AssetStatus) -> Seq<char> {
    match s {
        AssetStatus::Pending => "Pending"@,
        AssetStatus::Processing => "Processing"@,
        AssetStatus::Completed => "Completed"@,
        AssetStatus::Skipped => "Skipped"@,
        AssetStatus::Failed => "Failed"@,
        AssetStatus::PostProcessingFailed => "Post processing failed"@,
    }
}

impl AssetStatus {
    /// The human-readable name of the status.
    pub fn label(&self) -> (r: &'static str)
        ensures
            r@ == status_label(*self),
    {
        match self {
            AssetStatus::Pending => "Pending",
            AssetStatus::Processing => "Processing",
            AssetStatus::Completed => "Completed",
            AssetStatus::Skipped => "Skipped",
            AssetStatus::Failed => "Failed",
            AssetStatus::PostProcessingFailed => "Post processing failed",
        }
    }

    pub fn is_terminal(&self) -> (r: bool)
        ensures
            r == is_terminal(*self),
    {
        match self {
            AssetStatus::Pending | AssetStatus::Processing => false,
            _ => true,
        }
    }
}

/// The mathematical content of a `VideoFile`.
pub struct AssetView {
    pub path: Seq<char>,
    pub status: AssetStatus,
    pub size: Option<u64>,
    pub duration: Option<u64>,
    pub creation_time: Option<Seq<char>>,
}

/// A video file and what is known of it. Probing is done by the caller, who
/// records the results here; absent values mean the probe failed or has not
/// been made.
#[derive(Clone)]
pub struct VideoFile {
    path: String,
    status: AssetStatus,
    size: Option<u64>,
    duration: Option<u64>,
    creation_time: Option<String>,
}

pub open spec fn opt_view(o: Option<String>) -> Option<Seq<char>> {
    match o {
        Some(s) => Some(s@),
        None => None,
    }
}

impl View for VideoFile {
    type V = AssetView;

    closed spec fn view(&self) -> AssetView {
        AssetView {
            path: self.path@,
            status: self.status,
            size: self.size,
            duration: self.duration,
            creation_time: opt_view(self.creation_time),
        }
    }
}

/// The size in whole mebibytes, truncating.
pub open spec fn megabytes(size: u64) -> u64 {
    (size / 1024 / 1024) as u64
}

/// `a >= b` on optional sizes, where an absent size is below every present one.
pub open spec fn size_at_least(a: Option<u64>, b: Option<u64>) -> bool {
    match (a, b) {
        (_, None) => true,
        (None, Some(_)) => false,
        (Some(x), Some(y)) => x >= y,
    }
}

/// The operations every tracked media file offers.
pub trait MediaAsset: View<V = AssetView> {
    fn path(&self) -> (r: &String)
        ensures
            r@ == self@.path,
    ;

    fn status(&self) -> (r: &AssetStatus)
        ensures
            *r == self@.status,
    ;

    fn set_status(&mut self, status: AssetStatus)
        ensures
            final(self)@ == (AssetView { status, ..old(self)@ }),
    ;

    fn size(&self) -> (r: Option<u64>)
        ensures
            r == self@.size,
    ;

    fn size_mb(&self) -> (r: Option<u64>)
        ensures
            r == (match self@.size {
                Some(s) => Some(megabytes(s)),
                None => None,
            }),
    ;

    fn is_greater_than(&self, video: &VideoFile) -> (r: bool)
        ensures
            r == size_at_least(self@.size, video@.size),
    ;
}

impl MediaAsset for VideoFile {
    fn path(&self) -> (r: &String) {
        &self.path
    }

    fn status(&self) -> (r: &AssetStatus) {
        &self.status
    }

    fn set_status(&mut self, status: AssetStatus) {
        self.status = status;
    }

    fn size(&self) -> (r: Option<u64>) {
        self.size
    }

    fn size_mb(&self) -> (r: Option<u64>) {
        match self.size {
            Some(size) => Some(size / 1024 / 1024),
            None => None,
        }
    }

    fn is_greater_than(&self, video: &VideoFile) -> (r: bool) {
        match (self.size, video.size) {
            (_, None) => true,
            (None, Some(_)) => false,
            (Some(x), Some(y)) => x >= y,
        }
    }
}

impl VideoFile {
    /// A newly discovered file: pending, nothing probed yet.
    pub fn new(path: String) -> (r: VideoFile)
        ensures
            r@ == (AssetView {
                path: path@,
                status: AssetStatus::Pending,
                size: None,
                duration: None,
                creation_time: None,
            }),
    {
        VideoFile { path, status: AssetStatus::Pending, size: None, duration: None, creation_time: None }
    }

    /// Records the size in bytes that the filesystem reported.
    pub fn record_size(&mut self, size: Option<u64>)
        ensures
            final(self)@ == (AssetView { size, ..old(self)@ }),
    {
        self.size = size;
    }

    /// Records the probed duration, in whole seconds.
    pub fn record_duration(&mut self, seconds: Option<u64>)
        ensures
            final(self)@ == (AssetView { duration: seconds, ..old(self)@ }),
    {
        self.duration = seconds;
    }

    /// Records the probed creation-time tag.
    pub fn record_creation_time(&mut self, tag: Option<String>)
        ensures
            final(self)@ == (AssetView { creation_time: opt_view(tag), ..old(self)@ }),
    {
        self.creation_time = tag;
    }

    /// The line of the final report for this asset: its path and status.
    pub fn summary_line(&self) -> (r: String)
        ensures
            r@ == self@.path + " - "@ + status_label(self@.status),
    {
        let mut r = self.path.clone();
        r.append(" - ");
        r.append(self.status.label());
        r
    }

    /// An independent copy of this record.
    pub fn duplicate(&self) -> (r: VideoFile)
        ensures
            r@ == self@,
    {
        VideoFile {
            path: self.path.clone(),
            status: self.status,
            size: self.size,
            duration: self.duration,
            creation_time: self.creation_time(),
        }
    }

    /// The probed duration in whole seconds.
    pub fn duration_int(&self) -> (r: Option<u64>)
        ensures
            r == self@.duration,
    {
        self.duration
    }

    /// The probed creation-time tag.
    pub fn creation_time(&self) -> (r: Option<String>)
        ensures
            opt_view(r) == self@.creation_time,
    {
        match &self.creation_time {
            Some(t) => Some(t.clone()),
            None => None,
        }
    }
}

/// The mathematical content of a `CompressionError`.
pub enum ErrorView {
    FileSizeError(Seq<char>),
    IoError(Seq<char>, Seq<char>),
    DateError(Seq<char>, Seq<char>),
    CompressionFailed(Seq<char>),
    NotFound(Seq<char>),
    NoAssetsFound(Seq<char>),
}

/// What can go wrong while scanning or processing.
#[derive(Debug)]
pub enum CompressionError {
    /// A size could not be read.
    FileSizeError(String),
    /// A filesystem operation failed: what was done, and the system's words.
    IoError(String, String),
    /// The creation date could not be corrected: what was done, and why.
    DateError(String, String),
    /// The output was not smaller than the input.
    CompressionFailed(String),
    /// The input path does not exist.
    NotFound(String),
    /// The input holds no file to compress.
    NoAssetsFound(String),
}

impl View for CompressionError {
    type V = ErrorView;

    open spec fn view(&self) -> ErrorView {
        match self {
            CompressionError::FileSizeError(m) => ErrorView::FileSizeError(m@),
            CompressionError::IoError(m, e) => ErrorView::IoError(m@, e@),
            CompressionError::DateError(m, e) => ErrorView::DateError(m@, e@),
            CompressionError::CompressionFailed(m) => ErrorView::CompressionFailed(m@),
            CompressionError::NotFound(m) => ErrorView::NotFound(m@),
            CompressionError::NoAssetsFound(m) => ErrorView::NoAssetsFound(m@),
        }
    }
}

pub open spec fn error_message(e: ErrorView) -> Seq<char> {
    match e {
        ErrorView::FileSizeError(m) => m,
        ErrorView::IoError(m, e) => m + " an IO error occurred: "@ + e,
        ErrorView::DateError(m, e) => m + " a date error occurred: "@ + e,
        ErrorView::CompressionFailed(m) => m,
        ErrorView::NotFound(m) => m,
        ErrorView::NoAssetsFound(m) => m,
    }
}

impl CompressionError {
    /// The text shown to the user.
    pub fn message(&self) -> (r: String)
        ensures
            r@ == error_message(self@),
    {
        match self {
            CompressionError::FileSizeError(m) => m.clone(),
            CompressionError::IoError(m, e) => {
                let mut r = m.clone();
                r.append(" an IO error occurred: ");
                r.append(e.as_str());
                r
            },
            CompressionError::DateError(m, e) => {
                let mut r = m.clone();
                r.append(" a date error occurred: ");
                r.append(e.as_str());
                r
            },
            CompressionError::CompressionFailed(m) => m.clone(),
            CompressionError::NotFound(m) => m.clone(),
            CompressionError::NoAssetsFound(m) => m.clone(),
        }
    }
}

} // verus!
