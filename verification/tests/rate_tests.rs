use statusline::coordinator::collect_results;
use statusline::rate::{disk_rate, net_rate};
use statusline::request::MetricRequest;
use statusline::sample::{DiskCounters, DiskEntry, NetCounters, RatePair, RawSamples};

fn entry(name: &str, read_bytes: u64, write_bytes: u64) -> DiskEntry {
    DiskEntry {
        name: String::from(name),
        counters: DiskCounters { read_bytes, write_bytes },
    }
}

#[test]
fn disk_delta_of_1024_bytes_is_one_kib_per_second() {
    let first = Some(vec![entry("sda", 1000, 500)]);
    let second = Some(vec![entry("sda", 2024, 1524)]);
    assert_eq!(
        disk_rate(&first, &second),
        Some(RatePair { upload: 1024, download: 1024 })
    );
}

#[test]
fn disk_regression_is_unavailable_not_negative() {
    let first = Some(vec![entry("sda", 5000, 500)]);
    let second = Some(vec![entry("sda", 4000, 1524)]);
    assert_eq!(disk_rate(&first, &second), None);
}

#[test]
fn disk_write_regression_alone_is_unavailable() {
    let first = Some(vec![entry("sda", 1000, 900)]);
    let second = Some(vec![entry("sda", 2000, 800)]);
    assert_eq!(disk_rate(&first, &second), None);
}

#[test]
fn disk_failed_read_is_unavailable() {
    let second = Some(vec![entry("sda", 2024, 1524)]);
    assert_eq!(disk_rate(&None, &second), None);
    let first = Some(vec![entry("sda", 1000, 500)]);
    assert_eq!(disk_rate(&first, &None), None);
}

#[test]
fn disk_missing_device_is_unavailable() {
    let first = Some(vec![entry("nvme0n1", 1000, 500)]);
    let second = Some(vec![entry("nvme0n1", 2024, 1524)]);
    assert_eq!(disk_rate(&first, &second), None);
}

#[test]
fn disk_uses_the_fixed_device_among_others() {
    let first = Some(vec![entry("sdb", 7, 7), entry("sda", 100, 200)]);
    let second = Some(vec![entry("sda", 1124, 1224), entry("sdb", 9, 9)]);
    assert_eq!(
        disk_rate(&first, &second),
        Some(RatePair { upload: 1024, download: 1024 })
    );
}

#[test]
fn net_delta_is_sent_then_received() {
    let first = Some(NetCounters { bytes_sent: 100, bytes_recv: 4096 });
    let second = Some(NetCounters { bytes_sent: 612, bytes_recv: 8192 });
    assert_eq!(
        net_rate(&first, &second),
        Some(RatePair { upload: 512, download: 4096 })
    );
}

#[test]
fn net_regression_is_unavailable() {
    let first = Some(NetCounters { bytes_sent: 100, bytes_recv: 4096 });
    let second = Some(NetCounters { bytes_sent: 612, bytes_recv: 4000 });
    assert_eq!(net_rate(&first, &second), None);
}

#[test]
fn net_failed_read_is_unavailable() {
    let second = Some(NetCounters { bytes_sent: 612, bytes_recv: 8192 });
    assert_eq!(net_rate(&None, &second), None);
}

#[test]
fn collect_masks_unrequested_metrics() {
    let mut raw = RawSamples::empty();
    raw.avg_cpu = Some(1234);
    raw.net_first = Some(NetCounters { bytes_sent: 0, bytes_recv: 0 });
    raw.net_second = Some(NetCounters { bytes_sent: 1024, bytes_recv: 2048 });
    // Only net was requested: the avg-cpu read must not leak into the results.
    let req = MetricRequest::new(false, false, false, false, false, true);
    let results = collect_results(&req, raw);
    assert_eq!(results.avg_cpu, None);
    assert_eq!(results.net, Some(RatePair { upload: 1024, download: 2048 }));
    assert_eq!(results.disk, None);
}

#[test]
fn collect_passes_requested_instantaneous_reads_through() {
    let mut raw = RawSamples::empty();
    raw.avg_cpu = Some(1234);
    raw.per_cpu = Some(vec![105, 230]);
    let req = MetricRequest::new(true, true, false, false, false, false);
    let results = collect_results(&req, raw);
    assert_eq!(results.avg_cpu, Some(1234));
    assert_eq!(results.per_cpu, Some(vec![105, 230]));
}
