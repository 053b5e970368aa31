use compy::{parse_timestamp, ProgressMonitor};

#[test]
fn timestamps_are_read_in_whole_seconds() {
    assert_eq!(parse_timestamp(&b"frame=  10 time=01:02:03.45 bitrate=1".to_vec()), Some(3723));
    assert_eq!(parse_timestamp(&b"00:00:07.99".to_vec()), Some(7));
    assert_eq!(parse_timestamp(&b"time=1:02:03.45".to_vec()), None);
    assert_eq!(parse_timestamp(&b"time=01:02:03".to_vec()), None);
    assert_eq!(parse_timestamp(&b"".to_vec()), None);
    assert_eq!(parse_timestamp(&b"a 00:00:09.00 b 00:00:01.00".to_vec()), Some(9));
}

#[test]
fn progress_follows_chunks_cut_at_carriage_returns() {
    let mut m = ProgressMonitor::new(60);
    m.feed(b"frame=1 time=00:00:05.00 bitrate=x\r");
    assert_eq!(m.position(), 5);
    m.feed(b"frame=2 time=00:00:1");
    assert_eq!(m.position(), 5);
    m.feed(b"2.50 bitrate=y\rgarbage\r");
    assert_eq!(m.position(), 12);
}

#[test]
fn progress_never_moves_back() {
    let mut m = ProgressMonitor::new(60);
    m.feed(b"time=00:00:30.00\rtime=00:00:10.00\r");
    assert_eq!(m.position(), 30);
}

#[test]
fn progress_never_passes_the_capacity() {
    let mut m = ProgressMonitor::new(60);
    m.feed(b"time=00:05:00.00\r");
    assert_eq!(m.position(), 60);
    assert_eq!(m.capacity(), 60);
    let mut unknown = ProgressMonitor::new(0);
    unknown.feed(b"time=00:00:03.00\r");
    assert_eq!(unknown.position(), 0);
}

#[test]
fn last_chunk_counts_once_the_stream_closes() {
    let mut m = ProgressMonitor::new(100);
    m.feed(b"time=00:00:02.00\rtime=00:00:04.00 end\n");
    assert_eq!(m.position(), 2);
    m.finish();
    assert_eq!(m.position(), 4);
}
