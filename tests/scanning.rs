use compy::{CompressionError, FileScanner, FileScannerConfig, Listing, MediaAsset, VideoStatus};

fn white_list() -> Vec<String> {
    vec!["mp4".to_string(), "mov".to_string(), "mkv".to_string()]
}

fn paths(assets: &[compy::VideoFile]) -> Vec<String> {
    assets.iter().map(|a| a.path().clone()).collect()
}

#[test]
fn directory_scan_keeps_only_visible_unmarked_listed_files() {
    let config = FileScannerConfig::new("dir".to_string(), white_list());
    let mut scanner = FileScanner::new(config);
    let entries = vec![
        "dir".to_string(),
        "dir/video1.mp4".to_string(),
        "dir/video2.mov".to_string(),
        "dir/doc.txt".to_string(),
        "dir/.hidden.mp4".to_string(),
        "dir/video1 compressed.mp4".to_string(),
    ];
    let found = scanner.scan(Listing::Directory(entries)).unwrap();
    assert_eq!(paths(&found), vec!["dir/video1.mp4".to_string(), "dir/video2.mov".to_string()]);
    assert!(found.iter().all(|a| *a.status() == VideoStatus::Pending));
}

#[test]
fn extensions_match_ignoring_case() {
    let config = FileScannerConfig::new("d".to_string(), white_list());
    let mut scanner = FileScanner::new(config);
    let found = scanner
        .scan(Listing::Directory(vec!["d/A.MP4".to_string(), "d/b.Mkv".to_string(), "d/c.avi".to_string()]))
        .unwrap();
    assert_eq!(paths(&found), vec!["d/A.MP4".to_string(), "d/b.Mkv".to_string()]);
}

#[test]
fn files_inside_hidden_directories_are_still_entries() {
    let config = FileScannerConfig::new("d".to_string(), white_list());
    let mut scanner = FileScanner::new(config);
    let found = scanner
        .scan(Listing::Directory(vec!["d/.cache".to_string(), "d/.cache/x.mp4".to_string()]))
        .unwrap();
    assert_eq!(paths(&found), vec!["d/.cache/x.mp4".to_string()]);
}

#[test]
fn single_file_input() {
    let config = FileScannerConfig::new("movie.mkv".to_string(), white_list());
    let mut scanner = FileScanner::new(config);
    let found = scanner.scan(Listing::File).unwrap();
    assert_eq!(paths(&found), vec!["movie.mkv".to_string()]);
}

#[test]
fn single_unlisted_file_finds_nothing() {
    let config = FileScannerConfig::new("notes.txt".to_string(), white_list());
    let mut scanner = FileScanner::new(config);
    match scanner.scan(Listing::File) {
        Err(CompressionError::NoAssetsFound(m)) => assert_eq!(m, "No valid videos were found"),
        other => panic!("unexpected {:?}", other.map(|v| v.len())),
    }
}

#[test]
fn single_compressed_file_finds_nothing() {
    let config = FileScannerConfig::new("a compressed.mp4".to_string(), white_list());
    let mut scanner = FileScanner::new(config);
    assert!(matches!(scanner.scan(Listing::File), Err(CompressionError::NoAssetsFound(_))));
}

#[test]
fn missing_input_is_not_found() {
    let config = FileScannerConfig::new("nowhere".to_string(), white_list());
    let mut scanner = FileScanner::new(config);
    match scanner.scan(Listing::Missing) {
        Err(CompressionError::NotFound(m)) => assert_eq!(m, "No such file or directory"),
        other => panic!("unexpected {:?}", other.map(|v| v.len())),
    }
}

#[test]
fn empty_directory_finds_nothing() {
    let config = FileScannerConfig::new("empty".to_string(), white_list());
    let mut scanner = FileScanner::new(config);
    assert!(matches!(scanner.scan(Listing::Directory(vec!["empty".to_string()])), Err(CompressionError::NoAssetsFound(_))));
    let mut other = FileScanner::new(FileScannerConfig::new("dev".to_string(), white_list()));
    assert!(matches!(other.scan(Listing::Other), Err(CompressionError::NoAssetsFound(_))));
}

#[test]
fn scanning_twice_finds_each_file_once() {
    let config = FileScannerConfig::new("dir".to_string(), white_list());
    let mut scanner = FileScanner::new(config);
    let entries = vec!["dir".to_string(), "dir/a.mp4".to_string(), "dir/b.mkv".to_string()];
    let first = scanner.scan(Listing::Directory(entries.clone())).unwrap();
    let second = scanner.scan(Listing::Directory(entries)).unwrap();
    assert_eq!(paths(&first), paths(&second));
    assert_eq!(paths(&second), vec!["dir/a.mp4".to_string(), "dir/b.mkv".to_string()]);
    assert!(matches!(scanner.scan(Listing::Missing), Err(CompressionError::NotFound(_))));
}
