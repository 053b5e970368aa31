//! Batch video compression: discovery of candidate files, the invocations of
//! the encoder and of the metadata tool, progress tracking, and the per-file
//! pipeline that decides between commit, rollback and skip.
pub mod asset;
pub mod batch;
pub mod guarantees;
pub mod paths;
pub mod pipeline;
pub mod progress;
pub mod scanner;
pub mod text;
pub mod tools;

pub use asset::{AssetStatus, CompressionError, MediaAsset, VideoFile, VideoStatus};
pub use batch::{process_assets, Batch};
pub use paths::get_compressed_file_name;
pub use pipeline::{verify_successful_compression, Action, AppConfig, AssetRun, Event};
pub use progress::{parse_timestamp, ProgressMonitor};
pub use scanner::{FileScanner, FileScannerConfig, Listing};
