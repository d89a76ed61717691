use transfer_file::format::{range_header_value, u64_to_decimal};
use transfer_file::partition::{make_parts, part_count, PartDescriptor, PART_SIZE};
use transfer_file::probe::{
    accept_ranges_is_bytes, choose_strategy, content_range_total, interpret_probe,
    DownloadStrategy, ProbeResult,
};
use transfer_file::progress::record_progress;
use transfer_file::stats::TransferStats;
use transfer_file::transfer::{
    check_response_status, is_success_status, part_response_accepted, plan_download,
    single_stream_total, validate_upload_method, DownloadPlan, Error, UploadMethod,
};

const MIB: u64 = 1024 * 1024;

#[test]
fn total_is_sum_of_chunks() {
    let mut stats = TransferStats::start(500);
    let chunks: [(usize, u128); 5] = [(100, 0), (2000, 700), (0, 3), (4096, 499), (1, 501)];
    let mut sum: u64 = 0;
    for (len, elapsed) in chunks {
        stats.apply_chunk(len, elapsed);
        sum += len as u64;
        assert_eq!(stats.total_transferred, sum);
    }
    assert_eq!(stats.total_transferred, 6197);
}

#[test]
fn total_is_sum_with_real_clock() {
    let mut stats = TransferStats::default();
    stats.record_chunk_transfer(1234);
    stats.record_chunk_transfer(0);
    stats.record_chunk_transfer(766);
    assert_eq!(stats.total_transferred, 2000);
}

#[test]
fn speed_stable_until_window_fills() {
    let mut stats = TransferStats::start(500);
    stats.apply_chunk(1000, 100);
    stats.apply_chunk(1000, 100);
    stats.apply_chunk(1000, 100);
    assert_eq!(stats.transfer_speed, 0);
    // The fourth chunk fills the window: 4000 bytes over 500 ms.
    stats.apply_chunk(1000, 200);
    assert_eq!(stats.transfer_speed, 4000 / 500 * 1024);
    // A new window leaves the computed speed untouched until it fills.
    stats.apply_chunk(50, 499);
    assert_eq!(stats.transfer_speed, 4000 / 500 * 1024);
    // The next window closes on its own accumulators only.
    stats.apply_chunk(2950, 101);
    assert_eq!(stats.transfer_speed, 3000 / 600 * 1024);
}

#[test]
fn speed_formula_divides_before_scaling() {
    let mut stats = TransferStats::start(500);
    stats.apply_chunk(1000, 500);
    // 1000 / 500 = 2, then times 1024.
    assert_eq!(stats.transfer_speed, 2048);
}

#[test]
fn default_granularity_is_half_second() {
    let stats = TransferStats::default();
    assert_eq!(stats.granularity, 500);
    assert_eq!(stats.total_transferred, 0);
    assert_eq!(stats.transfer_speed, 0);
}

#[test]
fn part_count_is_ceiling() {
    assert_eq!(part_count(0, PART_SIZE), 0);
    assert_eq!(part_count(1, PART_SIZE), 1);
    assert_eq!(part_count(PART_SIZE, PART_SIZE), 1);
    assert_eq!(part_count(PART_SIZE + 1, PART_SIZE), 2);
    assert_eq!(part_count(10 * MIB, PART_SIZE), 10);
}

#[test]
fn parts_cover_exactly_ten_mib() {
    let parts = make_parts(10 * MIB, PART_SIZE);
    assert_eq!(parts.len(), 10);
    for (i, part) in parts.iter().enumerate() {
        assert_eq!(part.index, i as u64);
        assert_eq!(part.start_offset, i as u64 * MIB);
        assert_eq!(part.end_offset_inclusive, (i as u64 + 1) * MIB - 1);
    }
}

#[test]
fn parts_are_disjoint_sorted_and_contiguous() {
    let total: u64 = 2_500_000;
    let parts = make_parts(total, PART_SIZE);
    assert_eq!(parts.len(), 3);
    assert_eq!(parts[0].start_offset, 0);
    for w in parts.windows(2) {
        assert_eq!(w[1].start_offset, w[0].end_offset_inclusive + 1);
        assert!(w[0].end_offset_inclusive < w[1].start_offset);
    }
    assert_eq!(parts[2].end_offset_inclusive, total - 1);
    let covered: u64 = parts
        .iter()
        .map(|p: &PartDescriptor| p.end_offset_inclusive - p.start_offset + 1)
        .sum();
    assert_eq!(covered, total);
}

#[test]
fn accept_ranges_token_is_case_insensitive() {
    assert!(accept_ranges_is_bytes(b"bytes"));
    assert!(accept_ranges_is_bytes(b"BYTES"));
    assert!(accept_ranges_is_bytes(b"Bytes"));
    assert!(!accept_ranges_is_bytes(b"none"));
    assert!(!accept_ranges_is_bytes(b"bytes "));
    assert!(!accept_ranges_is_bytes(b""));
}

#[test]
fn content_range_total_reads_size_after_slash() {
    assert_eq!(content_range_total(b"bytes 0-0/10485760"), 10_485_760);
    assert_eq!(content_range_total(b"bytes 0-0/0"), 0);
    assert_eq!(content_range_total(b"10485760"), 0);
    assert_eq!(content_range_total(b"bytes 0-0/abc"), 0);
    assert_eq!(content_range_total(b"bytes 0-0/"), 0);
    assert_eq!(content_range_total(b"a/+123"), 123);
    assert_eq!(content_range_total(b"a/456/789"), 456);
    assert_eq!(content_range_total(b"bytes 0-0/18446744073709551615"), u64::MAX);
    assert_eq!(content_range_total(b"bytes 0-0/18446744073709551616"), 0);
    assert_eq!(content_range_total(b"bytes 0-0/00042"), 42);
    assert_eq!(content_range_total(b"by\x01tes 0-0/42"), 0);
    assert_eq!(content_range_total(b"bytes\t0-0/42"), 42);
}

#[test]
fn probe_without_accept_ranges_routes_single_stream() {
    // Whatever total the Content-Range announces, absent Accept-Ranges
    // means the single-stream path.
    let probe = interpret_probe(None, Some(b"bytes 0-0/10485760"));
    assert!(!probe.supports_ranges);
    assert_eq!(probe.total_size, 10_485_760);
    assert_eq!(choose_strategy(&probe), DownloadStrategy::SingleStream);

    let probe = interpret_probe(None, None);
    assert_eq!(choose_strategy(&probe), DownloadStrategy::SingleStream);
}

#[test]
fn probe_with_ranges_and_size_routes_partitioned() {
    let probe = interpret_probe(Some(b"bytes"), Some(b"bytes 0-0/10485760"));
    assert!(probe.supports_ranges);
    assert_eq!(probe.total_size, 10 * MIB);
    assert_eq!(choose_strategy(&probe), DownloadStrategy::Partitioned);
    // Ranges supported but no usable size still means single-stream.
    let probe = interpret_probe(Some(b"bytes"), None);
    assert_eq!(choose_strategy(&probe), DownloadStrategy::SingleStream);
}

#[test]
fn ten_mib_download_is_ten_parts_and_full_progress() {
    let probe = interpret_probe(Some(b"bytes"), Some(b"bytes 0-0/10485760"));
    let plan = plan_download(&probe, false);
    match plan {
        DownloadPlan::Partitioned { total_size, parts } => {
            assert_eq!(total_size, 10 * MIB);
            assert_eq!(parts.len(), 10);
            let mut stats = TransferStats::default();
            let mut last_progress = 0;
            for part in &parts {
                let len = (part.end_offset_inclusive - part.start_offset + 1) as usize;
                assert_eq!(len as u64, MIB);
                let payload = record_progress(&mut stats, len, total_size);
                assert_eq!(payload.total, 10 * MIB);
                assert!(payload.progress > last_progress);
                last_progress = payload.progress;
            }
            assert_eq!(stats.total_transferred, 10 * MIB);
            assert_eq!(last_progress, 10 * MIB);
        }
        DownloadPlan::SingleStream { .. } => panic!("expected the partitioned path"),
    }
}

#[test]
fn single_stream_reports_declared_length_or_zero() {
    let probe = interpret_probe(None, None);
    let plan = plan_download(&probe, false);
    assert!(matches!(plan, DownloadPlan::SingleStream { use_post: false }));

    assert_eq!(single_stream_total(Some(777)), 777);
    assert_eq!(single_stream_total(None), 0);

    // With no declared length every event reports a total of zero.
    let mut stats = TransferStats::default();
    let total = single_stream_total(None);
    let p1 = record_progress(&mut stats, 4096, total);
    let p2 = record_progress(&mut stats, 4096, total);
    assert_eq!(p1.total, 0);
    assert_eq!(p2.total, 0);
    assert_eq!(p2.progress, 8192);
}

#[test]
fn body_makes_single_stream_use_post() {
    let probe = interpret_probe(None, None);
    let plan = plan_download(&probe, true);
    assert!(matches!(plan, DownloadPlan::SingleStream { use_post: true }));
}

#[test]
fn not_found_surfaces_status_and_body() {
    let r = check_response_status(404, String::from("Not Found"));
    match r {
        Err(Error::HttpErrorCode(code, body)) => {
            assert_eq!(code, 404);
            assert_eq!(body, "Not Found");
        }
        _ => panic!("expected the HTTP status failure"),
    }
    assert!(check_response_status(200, String::new()).is_ok());
}

#[test]
fn success_statuses_are_the_2xx_range() {
    assert!(is_success_status(200));
    assert!(is_success_status(204));
    assert!(is_success_status(299));
    assert!(!is_success_status(199));
    assert!(!is_success_status(300));
    assert!(!is_success_status(404));
}

#[test]
fn part_accepts_success_or_partial_content() {
    assert!(part_response_accepted(200));
    assert!(part_response_accepted(206));
    assert!(!part_response_accepted(304));
    assert!(!part_response_accepted(404));
    assert!(!part_response_accepted(500));
}

#[test]
fn upload_five_mib_reports_constant_total() {
    let method = validate_upload_method("PUT").expect("PUT is a valid upload method");
    assert_eq!(method, UploadMethod::Put);
    let file_len = 5 * MIB;
    let mut stats = TransferStats::default();
    let mut sent = 0;
    while sent < file_len {
        let chunk = 512 * 1024;
        let payload = record_progress(&mut stats, chunk as usize, file_len);
        sent += chunk;
        assert_eq!(payload.total, 5 * MIB);
        assert_eq!(payload.progress, sent);
    }
    assert_eq!(stats.total_transferred, 5 * MIB);
    // The upload's result is the response body text on success.
    assert!(check_response_status(200, String::from("stored")).is_ok());
}

#[test]
fn upload_method_accepts_post_and_put_any_case() {
    assert_eq!(validate_upload_method("POST").unwrap(), UploadMethod::Post);
    assert_eq!(validate_upload_method("post").unwrap(), UploadMethod::Post);
    assert_eq!(validate_upload_method("PoSt").unwrap(), UploadMethod::Post);
    assert_eq!(validate_upload_method("put").unwrap(), UploadMethod::Put);
}

#[test]
fn upload_delete_fails_validation_before_any_request() {
    match validate_upload_method("DELETE") {
        Err(Error::ContentLength(message)) => {
            assert_eq!(message, "Invalid HTTP method");
        }
        _ => panic!("expected the validation failure"),
    }
    assert!(validate_upload_method("GET").is_err());
    assert!(validate_upload_method("").is_err());
    assert!(validate_upload_method("PUTS").is_err());
}

#[test]
fn io_and_request_failures_carry_their_text() {
    let io = Error::Io(String::from("permission denied"));
    assert!(matches!(io, Error::Io(ref m) if m == "permission denied"));
    let req = Error::Request(String::from("connection refused"));
    assert!(matches!(req, Error::Request(ref m) if m == "connection refused"));
}

#[test]
fn decimal_rendering_is_exact() {
    assert_eq!(u64_to_decimal(0), "0");
    assert_eq!(u64_to_decimal(7), "7");
    assert_eq!(u64_to_decimal(10), "10");
    assert_eq!(u64_to_decimal(10_485_760), "10485760");
    assert_eq!(u64_to_decimal(u64::MAX), "18446744073709551615");
}

#[test]
fn range_header_values() {
    assert_eq!(range_header_value(0, 0), "bytes=0-0");
    assert_eq!(range_header_value(1_048_576, 2_097_151), "bytes=1048576-2097151");
}

#[test]
fn probe_result_fields_drive_strategy() {
    let probe = ProbeResult { supports_ranges: true, total_size: 0 };
    assert_eq!(choose_strategy(&probe), DownloadStrategy::SingleStream);
    let probe = ProbeResult { supports_ranges: true, total_size: 1 };
    assert_eq!(choose_strategy(&probe), DownloadStrategy::Partitioned);
}
