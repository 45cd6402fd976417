use axnet::console::{read_bytes, write_bytes, MAX_RW_SIZE};

#[test]
fn write_splits_into_bounded_chunks() {
    let bytes = vec![7u8; 600];
    // the console takes a full chunk each time
    let written = write_bytes(&bytes, &vec![MAX_RW_SIZE, MAX_RW_SIZE, MAX_RW_SIZE]);
    assert_eq!(written, 600); // 256 + 256 + 88
}

#[test]
fn write_stops_on_zero_progress() {
    let bytes = vec![7u8; 600];
    let written = write_bytes(&bytes, &vec![100, 0, MAX_RW_SIZE]);
    assert_eq!(written, 100);
}

#[test]
fn write_partial_when_reports_run_out() {
    let bytes = vec![7u8; 600];
    let written = write_bytes(&bytes, &vec![MAX_RW_SIZE]);
    assert_eq!(written, 256);

    // short writes accumulate too
    let written = write_bytes(&bytes, &vec![10, 20, 30]);
    assert_eq!(written, 60);
}

#[test]
fn write_never_exceeds_the_buffer() {
    let bytes = vec![7u8; 10];
    // the console cannot take more than it was asked for
    let written = write_bytes(&bytes, &vec![MAX_RW_SIZE, MAX_RW_SIZE]);
    assert_eq!(written, 10);

    let written = write_bytes(&[], &vec![MAX_RW_SIZE]);
    assert_eq!(written, 0);
}

#[test]
fn read_asks_for_at_most_one_chunk() {
    // a large buffer still asks for one bounded chunk
    assert_eq!(read_bytes(300, 500), MAX_RW_SIZE);
    // a short delivery is taken as reported
    assert_eq!(read_bytes(100, 40), 40);
    // a small buffer bounds the request
    assert_eq!(read_bytes(16, 500), 16);
    assert_eq!(read_bytes(0, 5), 0);
}
