use statusline::report::{format_report, report_line};
use statusline::request::{MetricKind, MetricRequest};
use statusline::sample::{MemoryStats, RatePair, SampleResults, SwapStats};

fn no_results() -> SampleResults {
    SampleResults {
        per_cpu: None,
        avg_cpu: None,
        memory: None,
        swap: None,
        disk: None,
        net: None,
    }
}

#[test]
fn empty_request_is_a_single_leading_separator() {
    let req = MetricRequest::new(false, false, false, false, false, false);
    let line = report_line(&req, &no_results());
    assert_eq!(line, " ");
}

#[test]
fn all_unavailable_is_a_single_leading_separator() {
    let req = MetricRequest::new(true, true, true, true, true, true);
    let line = report_line(&req, &no_results());
    assert_eq!(line, " ");
}

#[test]
fn memory_two_of_eight_gib() {
    let mut results = no_results();
    results.memory = Some(MemoryStats {
        total: 8_589_934_592,
        used: 2_147_483_648,
        shared: 0,
    });
    let req = MetricRequest::new(false, false, true, false, false, false);
    assert_eq!(report_line(&req, &results), " MEM: 2.00/8.00 GB");
}

#[test]
fn disk_segment_from_the_scenario_snapshots() {
    // Deltas of 1024 bytes over the one-second window on each counter.
    let mut results = no_results();
    results.disk = Some(RatePair { upload: 1024, download: 1024 });
    let req = MetricRequest::new(false, false, false, false, true, false);
    assert_eq!(report_line(&req, &results), " IO: 1.00 1.00 kB/s");
}

#[test]
fn per_cpu_segment_one_decimal_no_label() {
    let mut results = no_results();
    results.per_cpu = Some(vec![105, 230, 7]);
    let req = MetricRequest::new(true, false, false, false, false, false);
    assert_eq!(report_line(&req, &results), " 10.5% 23.0% 0.7%");
}

#[test]
fn avg_cpu_segment_two_decimals() {
    let mut results = no_results();
    results.avg_cpu = Some(1234);
    let req = MetricRequest::new(false, true, false, false, false, false);
    assert_eq!(report_line(&req, &results), " avgCPU: 12.34%");
}

#[test]
fn swap_segment_used_over_total() {
    let mut results = no_results();
    results.swap = Some(SwapStats {
        total: 4_294_967_296,
        used: 1_073_741_824,
    });
    let req = MetricRequest::new(false, false, false, true, false, false);
    assert_eq!(report_line(&req, &results), " Swap: 1.00/4.00 GB");
}

#[test]
fn net_segment_upload_then_download() {
    let mut results = no_results();
    results.net = Some(RatePair { upload: 512, download: 4096 });
    let req = MetricRequest::new(false, false, false, false, false, true);
    assert_eq!(report_line(&req, &results), " NET: 0.50 4.00 kB/s");
}

#[test]
fn memory_sums_shared_into_used() {
    let mut results = no_results();
    results.memory = Some(MemoryStats {
        total: 8_589_934_592,
        used: 1_073_741_824,
        shared: 1_073_741_824,
    });
    let req = MetricRequest::new(false, false, true, false, false, false);
    assert_eq!(report_line(&req, &results), " MEM: 2.00/8.00 GB");
}

#[test]
fn segments_joined_by_single_spaces_in_canonical_order() {
    let mut results = no_results();
    results.avg_cpu = Some(250);
    results.memory = Some(MemoryStats {
        total: 8_589_934_592,
        used: 2_147_483_648,
        shared: 0,
    });
    results.net = Some(RatePair { upload: 1024, download: 1024 });
    let req = MetricRequest::new(false, true, true, false, false, true);
    assert_eq!(
        report_line(&req, &results),
        " avgCPU: 2.50% MEM: 2.00/8.00 GB NET: 1.00 1.00 kB/s"
    );
}

#[test]
fn failed_metric_omitted_others_kept() {
    // Memory's read failed; the swap and net segments are untouched.
    let mut results = no_results();
    results.swap = Some(SwapStats {
        total: 4_294_967_296,
        used: 1_073_741_824,
    });
    results.net = Some(RatePair { upload: 512, download: 4096 });
    let req = MetricRequest::new(false, false, true, true, false, true);
    assert_eq!(
        report_line(&req, &results),
        " Swap: 1.00/4.00 GB NET: 0.50 4.00 kB/s"
    );
}

#[test]
fn formatting_twice_is_byte_identical() {
    let mut results = no_results();
    results.avg_cpu = Some(777);
    results.disk = Some(RatePair { upload: 3, download: 2048 });
    let kinds = vec![MetricKind::AvgCpuPercent, MetricKind::DiskIo];
    let once = format_report(&kinds, &results);
    let twice = format_report(&kinds, &results);
    assert_eq!(once, twice);
    assert_eq!(once.as_bytes(), twice.as_bytes());
}

#[test]
fn truncation_keeps_two_decimals() {
    // 3 bytes over the window is 0.29296875 hundredths-of-kiB: truncated.
    let mut results = no_results();
    results.disk = Some(RatePair { upload: 3, download: 1536 });
    let req = MetricRequest::new(false, false, false, false, true, false);
    assert_eq!(report_line(&req, &results), " IO: 0.00 1.50 kB/s");
}
