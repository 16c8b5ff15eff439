use partfetch::PartError;
use partfetch::PartResult;
use partfetch::ProtocolError;
use partfetch::fetch_begin;
use partfetch::session_exit_code;
use partfetch::summarize;

#[test]
fn missing_content_length_fails_the_part() {
    let r = fetch_begin(None);
    assert_eq!(
        r,
        Err(PartError::Protocol(ProtocolError::MissingContentLength))
    );
}

#[test]
fn declared_length_starts_at_zero_received() {
    let p = fetch_begin(Some(1_000)).unwrap();
    assert_eq!(p.expected_total, 1_000);
    assert_eq!(p.received, 0);
}

#[test]
fn chunks_accumulate() {
    let mut p = fetch_begin(Some(1_000)).unwrap();
    p.record_chunk(200);
    p.record_chunk(300);
    assert_eq!(p.received, 500);
    assert_eq!(p.expected_total, 1_000);
    let done = p.complete(4);
    assert_eq!(
        done,
        PartResult::Completed {
            part_index: 4,
            bytes_written: 500
        }
    );
}

#[test]
fn byte_count_saturates_instead_of_wrapping() {
    let mut p = fetch_begin(Some(u64::MAX)).unwrap();
    p.record_chunk(u64::MAX - 1);
    p.record_chunk(5);
    assert_eq!(p.received, u64::MAX);
}

#[test]
fn mid_stream_failure_keeps_partial_byte_count() {
    // a network drop at byte 500 of 1000: two chunks arrive, the third read fails
    let mut p = fetch_begin(Some(1_000)).unwrap();
    p.record_chunk(256);
    p.record_chunk(244);
    assert_eq!(p.received, 500);
    let failed = p.fail(1, PartError::Io(String::from("connection reset")));
    assert_eq!(
        failed,
        PartResult::Failed {
            part_index: 1,
            error: PartError::Io(String::from("connection reset"))
        }
    );
}

#[test]
fn one_failed_part_does_not_abort_the_session() {
    // completions arrive out of plan order; one part dropped mid-stream
    let results = vec![
        PartResult::Completed {
            part_index: 2,
            bytes_written: 1_000,
        },
        PartResult::Failed {
            part_index: 1,
            error: PartError::Io(String::from("connection reset")),
        },
        PartResult::Completed {
            part_index: 0,
            bytes_written: 1_000,
        },
    ];
    let summary = summarize(&results);
    assert_eq!(summary.completed, 2);
    assert_eq!(summary.failed, 1);
    // partial success still exits successfully
    assert_eq!(session_exit_code(&summary), 0);
}

#[test]
fn summary_of_no_results_is_empty() {
    let summary = summarize(&Vec::new());
    assert_eq!(summary.completed, 0);
    assert_eq!(summary.failed, 0);
    assert_eq!(session_exit_code(&summary), 0);
}
