//! Rate derivation: two counter snapshots separated by the shared
//! one-second wait become a bytes-per-second pair. A failed read, a missing
//! device, or a counter that went backwards (reset or overflow) makes the
//! metric unavailable — never a negative or wrapped rate.

use vstd::prelude::*;
use vstd::string::StringExecFns;
use crate::sample::{DiskCounters, DiskEntry, NetCounters, RatePair};

verus! {

/// The representative disk device the report covers.
pub open spec fn spec_disk_device() -> Seq<char> {
    "sda"@
}

/// The counters of the first entry named `name`, if any.
pub open spec fn spec_lookup_disk(s: Seq<DiskEntry>, name: Seq<char>) -> Option<DiskCounters>
    decreases s.len(),
{
    if s.len() == 0 {
        None
    } else if s[0].name@ == name {
        Some(s[0].counters)
    } else {
        spec_lookup_disk(s.drop_first(), name)
    }
}

/// The growth of a cumulative counter over the window: `None` on regression.
pub open spec fn spec_delta(first: u64, second: u64) -> Option<u64> {
    if second >= first {
        Some((second - first) as u64)
    } else {
        None
    }
}

/// What the disk throughput result must be, given the two snapshot reads:
/// both reads succeeded, the device is present in both, and neither counter
/// regressed — otherwise unavailable.
pub open spec fn spec_disk_rate(
    first: Option<Vec<DiskEntry>>,
    second: Option<Vec<DiskEntry>>,
) -> Option<RatePair> {
    match (first, second) {
        (Some(f), Some(s)) => match (
            spec_lookup_disk(f@, spec_disk_device()),
            spec_lookup_disk(s@, spec_disk_device()),
        ) {
            (Some(c1), Some(c2)) => match (
                spec_delta(c1.read_bytes, c2.read_bytes),
                spec_delta(c1.write_bytes, c2.write_bytes),
            ) {
                (Some(up), Some(down)) => Some(RatePair { upload: up, download: down }),
                _ => None,
            },
            _ => None,
        },
        _ => None,
    }
}

/// What the network throughput result must be, given the two aggregate
/// counter reads: both succeeded and neither counter regressed.
pub open spec fn spec_net_rate(
    first: Option<NetCounters>,
    second: Option<NetCounters>,
) -> Option<RatePair> {
    match (first, second) {
        (Some(c1), Some(c2)) => match (
            spec_delta(c1.bytes_sent, c2.bytes_sent),
            spec_delta(c1.bytes_recv, c2.bytes_recv),
        ) {
            (Some(up), Some(down)) => Some(RatePair { upload: up, download: down }),
            _ => None,
        },
        _ => None,
    }
}

/// First entry of the snapshot named `name`.
fn lookup_disk(entries: &Vec<DiskEntry>, name: &String) -> (r: Option<DiskCounters>)
    ensures
        r == spec_lookup_disk(entries@, name@),
{
    let n = entries.len();
    let mut i: usize = 0;
    proof {
        assert(entries@.skip(0) =~= entries@);
    }
    while i < n
        invariant
            n == entries@.len(),
            i <= n,
            spec_lookup_disk(entries@, name@) == spec_lookup_disk(entries@.skip(i as int), name@),
        decreases n - i,
    {
        proof {
            assert(entries@.skip(i as int)[0] == entries@[i as int]);
        }
        if entries[i].name == *name {
            return Some(entries[i].counters);
        }
        proof {
            assert(entries@.skip(i as int).drop_first() =~= entries@.skip(i + 1));
        }
        i = i + 1;
    }
    proof {
        assert(entries@.skip(n as int).len() == 0);
    }
    None
}

/// `second - first` when the counter did not regress.
fn delta(first: u64, second: u64) -> (r: Option<u64>)
    ensures
        r == spec_delta(first, second),
{
    if second >= first {
        Some(second - first)
    } else {
        None
    }
}

/// Disk throughput over the shared window, for the representative device.
pub fn disk_rate(first: &Option<Vec<DiskEntry>>, second: &Option<Vec<DiskEntry>>) -> (r: Option<
    RatePair,
>)
    ensures
        r == spec_disk_rate(*first, *second),
{
    let device: String = String::from_str("sda");
    match (first, second) {
        (Some(f), Some(s)) => match (lookup_disk(f, &device), lookup_disk(s, &device)) {
            (Some(c1), Some(c2)) => match (
                delta(c1.read_bytes, c2.read_bytes),
                delta(c1.write_bytes, c2.write_bytes),
            ) {
                (Some(up), Some(down)) => Some(RatePair { upload: up, download: down }),
                _ => None,
            },
            _ => None,
        },
        _ => None,
    }
}

/// Network throughput over the shared window, aggregated over interfaces.
pub fn net_rate(first: &Option<NetCounters>, second: &Option<NetCounters>) -> (r: Option<RatePair>)
    ensures
        r == spec_net_rate(*first, *second),
{
    match (first, second) {
        (Some(c1), Some(c2)) => match (
            delta(c1.bytes_sent, c2.bytes_sent),
            delta(c1.bytes_recv, c2.bytes_recv),
        ) {
            (Some(up), Some(down)) => Some(RatePair { upload: up, download: down }),
            _ => None,
        },
        _ => None,
    }
}

} // verus!
