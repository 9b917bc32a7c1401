use tarpc_bench::conn::{after_decode, after_read, DecodeOutcome, ReadOutcome, Reply, Step, READ_CHUNK};

#[test]
fn read_appends_only_bytes_read() {
    let mut chunk = vec![0u8; READ_CHUNK];
    chunk[0] = 5;
    chunk[1] = 6;
    chunk[2] = 7;
    let mut pending = vec![1];
    assert!(after_read(&chunk, ReadOutcome::Read(2), &mut pending) == Step::Decode);
    assert_eq!(pending, vec![1, 5, 6]);
}

#[test]
fn empty_or_failed_read_stops() {
    let chunk = vec![3u8; READ_CHUNK];
    let mut pending = vec![4];
    assert!(after_read(&chunk, ReadOutcome::Read(0), &mut pending) == Step::Stop);
    assert!(after_read(&chunk, ReadOutcome::Failed, &mut pending) == Step::Stop);
    assert_eq!(pending, vec![4]);
}

#[test]
fn decode_outcomes_map_to_replies() {
    assert!(after_decode(DecodeOutcome::Frame) == Reply::Answer);
    assert!(after_decode(DecodeOutcome::Incomplete) == Reply::ReportIncomplete);
    assert!(after_decode(DecodeOutcome::Failed) == Reply::ReportError);
}
