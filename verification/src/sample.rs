//! Plain-value shapes of the collaborator reads and of the per-metric
//! results. Every metric degrades independently: `None` is the explicit
//! "unavailable" marker, and an unavailable metric is simply left out of the
//! report.

use vstd::prelude::*;
use crate::request::MetricKind;

verus! {

/// Virtual memory usage in bytes.
#[derive(Clone, Copy, PartialEq, Eq, Structural, Debug)]
pub struct MemoryStats {
    pub total: u64,
    pub used: u64,
    pub shared: u64,
}

/// Swap usage in bytes.
#[derive(Clone, Copy, PartialEq, Eq, Structural, Debug)]
pub struct SwapStats {
    pub total: u64,
    pub used: u64,
}

/// Cumulative per-device disk counters at one instant, in bytes.
#[derive(Clone, Copy, PartialEq, Eq, Structural, Debug)]
pub struct DiskCounters {
    pub read_bytes: u64,
    pub write_bytes: u64,
}

/// One device's entry in a disk counter snapshot.
#[derive(Clone, Debug)]
pub struct DiskEntry {
    pub name: String,
    pub counters: DiskCounters,
}

/// Cumulative network counters aggregated over all interfaces, in bytes.
#[derive(Clone, Copy, PartialEq, Eq, Structural, Debug)]
pub struct NetCounters {
    pub bytes_sent: u64,
    pub bytes_recv: u64,
}

/// A derived throughput: bytes moved in each direction over the one-second
/// sampling window, so bytes per second.
#[derive(Clone, Copy, PartialEq, Eq, Structural, Debug)]
pub struct RatePair {
    pub upload: u64,
    pub download: u64,
}

/// Everything the collaborators handed back for one invocation, raw.
/// A `None` records that the read failed or was never requested.
/// The two snapshot fields of each rate metric must come from reads
/// separated by the single shared one-second wait of the sampling plan.
#[derive(Clone, Debug)]
pub struct RawSamples {
    /// Per-core CPU load in tenths of a percent.
    pub per_cpu: Option<Vec<u64>>,
    /// Average CPU load in hundredths of a percent.
    pub avg_cpu: Option<u64>,
    pub memory: Option<MemoryStats>,
    pub swap: Option<SwapStats>,
    pub disk_first: Option<Vec<DiskEntry>>,
    pub disk_second: Option<Vec<DiskEntry>>,
    pub net_first: Option<NetCounters>,
    pub net_second: Option<NetCounters>,
}

impl RawSamples {
    /// The same raw reads with the given metric's collaborator read failed:
    /// its value — for a rate metric, both of its snapshots — is missing.
    pub open spec fn spec_fail_read(self, k: MetricKind) -> RawSamples {
        match k {
            MetricKind::PerCpuPercent => RawSamples { per_cpu: None, ..self },
            MetricKind::AvgCpuPercent => RawSamples { avg_cpu: None, ..self },
            MetricKind::VirtualMemory => RawSamples { memory: None, ..self },
            MetricKind::SwapMemory => RawSamples { swap: None, ..self },
            MetricKind::DiskIo => RawSamples { disk_first: None, disk_second: None, ..self },
            MetricKind::NetIo => RawSamples { net_first: None, net_second: None, ..self },
        }
    }

    /// A record with every read still missing.
    pub fn empty() -> (r: RawSamples)
        ensures
            r.per_cpu is None,
            r.avg_cpu is None,
            r.memory is None,
            r.swap is None,
            r.disk_first is None,
            r.disk_second is None,
            r.net_first is None,
            r.net_second is None,
    {
        RawSamples {
            per_cpu: None,
            avg_cpu: None,
            memory: None,
            swap: None,
            disk_first: None,
            disk_second: None,
            net_first: None,
            net_second: None,
        }
    }
}

/// The per-metric outcomes one invocation report is rendered from.
#[derive(Clone, Debug)]
pub struct SampleResults {
    /// Per-core CPU load in tenths of a percent.
    pub per_cpu: Option<Vec<u64>>,
    /// Average CPU load in hundredths of a percent.
    pub avg_cpu: Option<u64>,
    pub memory: Option<MemoryStats>,
    pub swap: Option<SwapStats>,
    pub disk: Option<RatePair>,
    pub net: Option<RatePair>,
}

impl SampleResults {
    /// Whether the given metric has a value to report.
    pub open spec fn available(self, k: MetricKind) -> bool {
        match k {
            MetricKind::PerCpuPercent => self.per_cpu is Some,
            MetricKind::AvgCpuPercent => self.avg_cpu is Some,
            MetricKind::VirtualMemory => self.memory is Some,
            MetricKind::SwapMemory => self.swap is Some,
            MetricKind::DiskIo => self.disk is Some,
            MetricKind::NetIo => self.net is Some,
        }
    }

    /// The same results with the given metric made unavailable.
    pub open spec fn spec_clear(self, k: MetricKind) -> SampleResults {
        match k {
            MetricKind::PerCpuPercent => SampleResults { per_cpu: None, ..self },
            MetricKind::AvgCpuPercent => SampleResults { avg_cpu: None, ..self },
            MetricKind::VirtualMemory => SampleResults { memory: None, ..self },
            MetricKind::SwapMemory => SampleResults { swap: None, ..self },
            MetricKind::DiskIo => SampleResults { disk: None, ..self },
            MetricKind::NetIo => SampleResults { net: None, ..self },
        }
    }
}

} // verus!
