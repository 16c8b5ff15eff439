use partfetch::ByteRange;
use partfetch::ProtocolError;
use partfetch::SessionConfig;
use partfetch::part_file_name;
use partfetch::plan;
use partfetch::probe_total_size;
use partfetch::range_header_value;
use partfetch::u64_to_dec;

#[test]
fn probe_reads_the_content_length() {
    assert_eq!(probe_total_size(Some(250_000_000)), Ok(250_000_000));
}

#[test]
fn probe_without_length_aborts_the_run() {
    assert_eq!(
        probe_total_size(None),
        Err(ProtocolError::MissingContentLength)
    );
}

#[test]
fn config_feeds_the_planner() {
    let cfg = SessionConfig {
        url: String::from("http://example.test/largefile"),
        start_part_number: 2,
        start_pos: 200,
        max_session_size: 1_000,
        part_size: 300,
        };
    let req = cfg.to_plan_request(5_000);
    assert_eq!(req.total_remote_size, 5_000);
    assert_eq!(req.start_pos, 200);
    assert_eq!(req.max_session_size, 1_000);
    assert_eq!(req.part_size, 300);
    assert_eq!(req.start_part_number, 2);
    let (parts, resume) = plan(&req).unwrap();
    assert_eq!(parts.len(), 4);
    assert!(resume.truncated);
    assert_eq!(resume.next_start_pos, 1_200);
    assert_eq!(resume.next_part_number, 6);
}

#[test]
fn part_file_names_carry_the_index() {
    assert_eq!(part_file_name(0), "part_0");
    assert_eq!(part_file_name(7), "part_7");
    assert_eq!(part_file_name(123), "part_123");
}

#[test]
fn decimal_rendering_is_exact() {
    assert_eq!(u64_to_dec(0), "0");
    assert_eq!(u64_to_dec(10), "10");
    assert_eq!(u64_to_dec(90017), "90017");
    assert_eq!(u64_to_dec(u64::MAX), "18446744073709551615");
}

#[test]
fn range_header_is_inclusive_on_both_ends() {
    assert_eq!(
        range_header_value(&ByteRange {
            start: 0,
            end: 99_999_999
        }),
        "bytes=0-99999999"
    );
    assert_eq!(
        range_header_value(&ByteRange { start: 5, end: 5 }),
        "bytes=5-5"
    );
}
