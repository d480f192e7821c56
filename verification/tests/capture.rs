use tzmcfi_tools::capture::{
    CaptureError, CaptureStep, OutputCapture, ReadEvent, DEFAULT_MAX_BYTES,
    DEFAULT_SILENCE_TIMEOUT_SECS, READ_BUFFER_BYTES,
};

fn markers(list: &[&str]) -> Vec<Vec<u8>> {
    list.iter().map(|m| m.as_bytes().to_vec()).collect()
}

#[derive(Debug, PartialEq)]
enum End {
    Matched(Vec<u8>),
    Closed(Vec<u8>),
    Timeout,
    TooLong,
    /// Every event was taken in and the capture asks for more.
    Reading(usize),
}

/// Feeds the events to a capture until it ends, and says how many events it
/// took in.
fn feed(list: &[&str], max_bytes: usize, events: Vec<ReadEvent>) -> (End, usize) {
    let mut capture = OutputCapture::new(&markers(list), max_bytes);
    let mut taken = 0;
    for event in events {
        taken += 1;
        match capture.step(event) {
            CaptureStep::Continue(next) => capture = next,
            CaptureStep::Finished(Ok(captured)) => {
                let end = if captured.matched {
                    End::Matched(captured.output)
                } else {
                    End::Closed(captured.output)
                };
                return (end, taken);
            }
            CaptureStep::Finished(Err(CaptureError::Timeout)) => return (End::Timeout, taken),
            CaptureStep::Finished(Err(CaptureError::TooLong)) => return (End::TooLong, taken),
        }
    }
    (End::Reading(capture.len()), taken)
}

fn data(chunks: &[&str]) -> Vec<ReadEvent> {
    chunks.iter().map(|c| ReadEvent::Data(c.as_bytes().to_vec())).collect()
}

#[test]
fn harness_constants() {
    assert_eq!(DEFAULT_MAX_BYTES, 1024 * 1024);
    assert_eq!(DEFAULT_SILENCE_TIMEOUT_SECS, 35);
    assert_eq!(READ_BUFFER_BYTES, 16384);
}

#[test]
fn marker_ends_capture_and_reading_stops() {
    let (end, taken) = feed(
        &["MARK_A", "MARK_B"],
        1000,
        data(&["noiseMARK_A", "more that is never read"]),
    );
    assert_eq!(end, End::Matched(b"noiseMARK_A".to_vec()));
    assert_eq!(taken, 1);
}

#[test]
fn output_is_cut_at_the_end_of_the_first_marker() {
    let (end, _) = feed(&["MARK_A", "MARK_B"], 1000, data(&["xxMARK_Byy MARK_A zz"]));
    assert_eq!(end, End::Matched(b"xxMARK_B".to_vec()));
    // Of two markers that overlap, the one that is complete first counts.
    let (end, _) = feed(&["abcd", "bc"], 1000, data(&["xabcdx"]));
    assert_eq!(end, End::Matched(b"xabc".to_vec()));
}

#[test]
fn marker_split_across_reads_is_found() {
    let whole = feed(&["MARK_A", "MARK_B"], 1000, data(&["noiseMARK_A"])).0;
    assert_eq!(whole, End::Matched(b"noiseMARK_A".to_vec()));
    for cut in 1.."noiseMARK_A".len() {
        let (a, b) = "noiseMARK_A".split_at(cut);
        let (end, taken) = feed(&["MARK_A", "MARK_B"], 1000, data(&[a, b, "tail"]));
        assert_eq!(end, whole, "cut at {}", cut);
        assert_eq!(taken, 2);
    }
    let (end, taken) = feed(&["MARK_A"], 1000, data(&["MAR", "K_A"]));
    assert_eq!(end, End::Matched(b"MARK_A".to_vec()));
    assert_eq!(taken, 2);
    // Byte by byte.
    let chunks: Vec<String> = "some noise MARK_B trailing".chars().map(|c| c.to_string()).collect();
    let refs: Vec<&str> = chunks.iter().map(|s| s.as_str()).collect();
    let (end, taken) = feed(&["MARK_A", "MARK_B"], 1000, data(&refs));
    assert_eq!(end, End::Matched(b"some noise MARK_B".to_vec()));
    assert_eq!(taken, "some noise MARK_B".len());
}

#[test]
fn first_chunk_shorter_than_marker() {
    let (end, taken) = feed(&["a long terminating marker"], 1000, data(&["a"]));
    assert_eq!(end, End::Reading(1));
    assert_eq!(taken, 1);
    let (end, _) = feed(&["a long terminating marker"], 1000, data(&["a", " long terminating marker!"]));
    assert_eq!(end, End::Matched(b"a long terminating marker".to_vec()));
}

#[test]
fn marker_seen_only_within_the_window() {
    // The window reaches back far enough for a marker that started in an
    // earlier read, and what lies before it was scanned when it arrived.
    let (end, taken) = feed(&["END"], 1000, data(&["EN", "xx", "E", "N", "D", "END"]));
    assert_eq!(end, End::Matched(b"ENxxEND".to_vec()));
    assert_eq!(taken, 5);
}

#[test]
fn silence_ends_capture_with_timeout() {
    let mut events = data(&["some output"]);
    events.push(ReadEvent::TimedOut);
    events.push(ReadEvent::Data(b"MARK_A".to_vec()));
    let (end, taken) = feed(&["MARK_A"], 1000, events);
    assert_eq!(end, End::Timeout);
    assert_eq!(taken, 2);
    let (end, _) = feed(&["MARK_A"], 1000, vec![ReadEvent::TimedOut]);
    assert_eq!(end, End::Timeout);
}

#[test]
fn endless_stream_ends_capture_with_too_long() {
    let chunk = "0123456789";
    for max in [0usize, 1, 9, 10, 11, 25, 30, 99] {
        let events: Vec<ReadEvent> =
            (0..20).map(|_| ReadEvent::Data(chunk.as_bytes().to_vec())).collect();
        let (end, taken) = feed(&["MARK_A"], max, events);
        assert_eq!(end, End::TooLong);
        // The first read that brings the total above the ceiling ends it.
        let total = taken * chunk.len();
        assert!(total > max);
        assert!(total - chunk.len() <= max);
    }
    let (end, _) = feed(&["MARK_A"], 10, data(&["0123456789"]));
    assert_eq!(end, End::Reading(10));
}

#[test]
fn marker_goes_before_the_ceiling() {
    let (end, _) = feed(&["MARK_A"], 3, data(&["noiseMARK_A"]));
    assert_eq!(end, End::Matched(b"noiseMARK_A".to_vec()));
}

#[test]
fn closed_stream_ends_capture_unmatched() {
    let mut events = data(&["partial"]);
    events.push(ReadEvent::Closed);
    assert_eq!(feed(&["MARK_A"], 1000, events).0, End::Closed(b"partial".to_vec()));
    let mut events = data(&["partial"]);
    events.push(ReadEvent::Failed);
    assert_eq!(feed(&["MARK_A"], 1000, events).0, End::Closed(b"partial".to_vec()));
    let mut events = data(&["partial"]);
    events.push(ReadEvent::Data(Vec::new()));
    assert_eq!(feed(&["MARK_A"], 1000, events).0, End::Closed(b"partial".to_vec()));
    assert_eq!(feed(&["MARK_A"], 1000, vec![ReadEvent::Closed]).0, End::Closed(Vec::new()));
}

#[test]
fn no_markers_never_match() {
    let (end, _) = feed(&[], 1000, data(&["anything", "at all"]));
    assert_eq!(end, End::Reading(14));
    let (end, _) = feed(&[], 5, data(&["anything"]));
    assert_eq!(end, End::TooLong);
}

#[test]
fn empty_marker_ends_capture_at_the_first_read() {
    // An empty marker occurs everywhere; the scan finds it where the window
    // starts.
    let (end, taken) = feed(&["", "abc"], 1000, data(&["xyz"]));
    assert_eq!(end, End::Matched(Vec::new()));
    assert_eq!(taken, 1);
    let (end, _) = feed(&[""], 1000, data(&["xyz"]));
    assert_eq!(end, End::Matched(b"x".to_vec()));
}

#[test]
fn binary_output() {
    let mut capture = OutputCapture::new(&vec![vec![0u8, 255, 0]], 100);
    capture = match capture.step(ReadEvent::Data(vec![1, 2, 0, 255])) {
        CaptureStep::Continue(next) => next,
        _ => panic!("no marker yet"),
    };
    assert_eq!(capture.len(), 4);
    match capture.step(ReadEvent::Data(vec![0, 7, 7])) {
        CaptureStep::Finished(Ok(captured)) => {
            assert!(captured.matched);
            assert_eq!(captured.output, vec![1, 2, 0, 255, 0]);
        }
        _ => panic!("the marker is complete"),
    }
}
