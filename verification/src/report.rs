//! Report rendering: each available requested metric becomes one textual
//! segment, segments keep request order, and the whole line starts with one
//! leading separator — a compatibility quirk of the textual contract. An
//! unavailable metric contributes nothing, not even a placeholder: absence
//! of a segment is the only error signal.

use vstd::prelude::*;
use vstd::string::StringExecFns;
use crate::digits::{
    fixed1_string, fixed2_string, gib_hundredths, kib_hundredths, spec_fixed1, spec_fixed2,
    spec_gib_hundredths, spec_kib_hundredths,
};
use crate::request::{MetricKind, MetricRequest};
use crate::sample::{MemoryStats, RatePair, SampleResults, SwapStats};

verus! {

/// Per-core percentages at one decimal, each with a `%` sign, space
/// separated, no label.
pub open spec fn spec_per_cpu_segment(cores: Seq<u64>) -> Seq<char>
    decreases cores.len(),
{
    if cores.len() == 0 {
        Seq::<char>::empty()
    } else if cores.len() == 1 {
        spec_fixed1(cores[0] as nat) + "%"@
    } else {
        spec_per_cpu_segment(cores.drop_last()) + " "@ + spec_fixed1(cores.last() as nat) + "%"@
    }
}

/// Average CPU percentage at two decimals.
pub open spec fn spec_avg_cpu_segment(hundredths: u64) -> Seq<char> {
    "avgCPU: "@ + spec_fixed2(hundredths as nat) + "%"@
}

/// Virtual memory as `(shared+used)/total` in GiB at two decimals.
pub open spec fn spec_memory_segment(m: MemoryStats) -> Seq<char> {
    "MEM: "@ + spec_fixed2(spec_gib_hundredths((m.used + m.shared) as nat)) + "/"@ + spec_fixed2(
        spec_gib_hundredths(m.total as nat),
    ) + " GB"@
}

/// Swap as `used/total` in GiB at two decimals.
pub open spec fn spec_swap_segment(sw: SwapStats) -> Seq<char> {
    "Swap: "@ + spec_fixed2(spec_gib_hundredths(sw.used as nat)) + "/"@ + spec_fixed2(
        spec_gib_hundredths(sw.total as nat),
    ) + " GB"@
}

/// Disk throughput as upload then download in kiB/s at two decimals.
pub open spec fn spec_disk_segment(r: RatePair) -> Seq<char> {
    "IO: "@ + spec_fixed2(spec_kib_hundredths(r.upload as nat)) + " "@ + spec_fixed2(
        spec_kib_hundredths(r.download as nat),
    ) + " kB/s"@
}

/// Network throughput as upload then download in kiB/s at two decimals.
pub open spec fn spec_net_segment(r: RatePair) -> Seq<char> {
    "NET: "@ + spec_fixed2(spec_kib_hundredths(r.upload as nat)) + " "@ + spec_fixed2(
        spec_kib_hundredths(r.download as nat),
    ) + " kB/s"@
}

/// The segment of one metric, given its result is available (empty when it
/// is not; such a metric contributes no segment at all, see
/// `spec_segments`).
pub open spec fn spec_segment(k: MetricKind, res: SampleResults) -> Seq<char> {
    match k {
        MetricKind::PerCpuPercent => match res.per_cpu {
            Some(v) => spec_per_cpu_segment(v@),
            None => Seq::<char>::empty(),
        },
        MetricKind::AvgCpuPercent => match res.avg_cpu {
            Some(h) => spec_avg_cpu_segment(h),
            None => Seq::<char>::empty(),
        },
        MetricKind::VirtualMemory => match res.memory {
            Some(m) => spec_memory_segment(m),
            None => Seq::<char>::empty(),
        },
        MetricKind::SwapMemory => match res.swap {
            Some(sw) => spec_swap_segment(sw),
            None => Seq::<char>::empty(),
        },
        MetricKind::DiskIo => match res.disk {
            Some(r) => spec_disk_segment(r),
            None => Seq::<char>::empty(),
        },
        MetricKind::NetIo => match res.net {
            Some(r) => spec_net_segment(r),
            None => Seq::<char>::empty(),
        },
    }
}

/// The segments of the available metrics, in request order; an unavailable
/// or unrequested metric contributes nothing.
pub open spec fn spec_segments(kinds: Seq<MetricKind>, res: SampleResults) -> Seq<Seq<char>>
    decreases kinds.len(),
{
    if kinds.len() == 0 {
        Seq::<Seq<char>>::empty()
    } else {
        spec_segments(kinds.drop_last(), res) + (if res.available(kinds.last()) {
            seq![spec_segment(kinds.last(), res)]
        } else {
            Seq::<Seq<char>>::empty()
        })
    }
}

/// Each segment preceded by one separator: the leading separator before the
/// first segment and the single space between segments in one stroke.
pub open spec fn spec_cat(segs: Seq<Seq<char>>) -> Seq<char>
    decreases segs.len(),
{
    if segs.len() == 0 {
        Seq::<char>::empty()
    } else {
        spec_cat(segs.drop_last()) + seq![' '] + segs.last()
    }
}

/// The whole report line (without the trailing newline): a leading
/// separator, then the segments joined by single spaces. With nothing to
/// report the line is exactly the one separator.
pub open spec fn spec_report(kinds: Seq<MetricKind>, res: SampleResults) -> Seq<char> {
    if spec_segments(kinds, res).len() == 0 {
        seq![' ']
    } else {
        spec_cat(spec_segments(kinds, res))
    }
}

fn render_per_cpu(cores: &Vec<u64>) -> (r: String)
    ensures
        r@ == spec_per_cpu_segment(cores@),
{
    let mut s = String::new();
    let n = cores.len();
    let mut i: usize = 0;
    proof {
        assert(cores@.take(0) =~= Seq::<u64>::empty());
    }
    while i < n
        invariant
            n == cores@.len(),
            i <= n,
            s@ == spec_per_cpu_segment(cores@.take(i as int)),
        decreases n - i,
    {
        if i > 0 {
            s.append(" ");
        }
        let f = fixed1_string(cores[i]);
        s.append(f.as_str());
        s.append("%");
        proof {
            assert(cores@.take(i + 1).drop_last() =~= cores@.take(i as int));
            assert(cores@.take(i + 1).last() == cores@[i as int]);
            assert(s@ =~= spec_per_cpu_segment(cores@.take(i + 1)));
        }
        i = i + 1;
    }
    proof {
        assert(cores@.take(n as int) =~= cores@);
    }
    s
}

fn render_avg_cpu(hundredths: u64) -> (r: String)
    ensures
        r@ == spec_avg_cpu_segment(hundredths),
{
    let mut s = String::from_str("avgCPU: ");
    let f = fixed2_string(hundredths);
    s.append(f.as_str());
    s.append("%");
    proof {
        assert(s@ =~= spec_avg_cpu_segment(hundredths));
    }
    s
}

fn render_memory(m: &MemoryStats) -> (r: String)
    ensures
        r@ == spec_memory_segment(*m),
{
    let mut s = String::from_str("MEM: ");
    let used = gib_hundredths((m.used as u128) + (m.shared as u128));
    let a = fixed2_string(used);
    s.append(a.as_str());
    s.append("/");
    let total = gib_hundredths(m.total as u128);
    let b = fixed2_string(total);
    s.append(b.as_str());
    s.append(" GB");
    proof {
        assert(s@ =~= spec_memory_segment(*m));
    }
    s
}

fn render_swap(sw: &SwapStats) -> (r: String)
    ensures
        r@ == spec_swap_segment(*sw),
{
    let mut s = String::from_str("Swap: ");
    let a = fixed2_string(gib_hundredths(sw.used as u128));
    s.append(a.as_str());
    s.append("/");
    let b = fixed2_string(gib_hundredths(sw.total as u128));
    s.append(b.as_str());
    s.append(" GB");
    proof {
        assert(s@ =~= spec_swap_segment(*sw));
    }
    s
}

fn render_rate(label: &str, rate: &RatePair) -> (r: String)
    ensures
        r@ == label@ + spec_fixed2(spec_kib_hundredths(rate.upload as nat)) + " "@ + spec_fixed2(
            spec_kib_hundredths(rate.download as nat),
        ) + " kB/s"@,
{
    let mut s = String::from_str(label);
    let a = fixed2_string(kib_hundredths(rate.upload));
    s.append(a.as_str());
    s.append(" ");
    let b = fixed2_string(kib_hundredths(rate.download));
    s.append(b.as_str());
    s.append(" kB/s");
    proof {
        assert(s@ =~= label@ + spec_fixed2(spec_kib_hundredths(rate.upload as nat)) + " "@
            + spec_fixed2(spec_kib_hundredths(rate.download as nat)) + " kB/s"@);
    }
    s
}

/// The segment of one metric, or `None` exactly when its result is
/// unavailable.
fn render_segment(k: MetricKind, res: &SampleResults) -> (r: Option<String>)
    ensures
        match r {
            Some(s) => res.available(k) && s@ == spec_segment(k, *res),
            None => !res.available(k),
        },
{
    match k {
        MetricKind::PerCpuPercent => match &res.per_cpu {
            Some(v) => Some(render_per_cpu(v)),
            None => None,
        },
        MetricKind::AvgCpuPercent => match &res.avg_cpu {
            Some(h) => Some(render_avg_cpu(*h)),
            None => None,
        },
        MetricKind::VirtualMemory => match &res.memory {
            Some(m) => Some(render_memory(m)),
            None => None,
        },
        MetricKind::SwapMemory => match &res.swap {
            Some(sw) => Some(render_swap(sw)),
            None => None,
        },
        MetricKind::DiskIo => match &res.disk {
            Some(r) => Some(render_rate("IO: ", r)),
            None => None,
        },
        MetricKind::NetIo => match &res.net {
            Some(r) => Some(render_rate("NET: ", r)),
            None => None,
        },
    }
}

/// Render the report line for the given request order and results.
pub fn format_report(kinds: &Vec<MetricKind>, results: &SampleResults) -> (r: String)
    ensures
        r@ == spec_report(kinds@, *results),
{
    let mut out = String::new();
    let mut any = false;
    let n = kinds.len();
    let mut i: usize = 0;
    proof {
        assert(kinds@.take(0) =~= Seq::<MetricKind>::empty());
    }
    while i < n
        invariant
            n == kinds@.len(),
            i <= n,
            out@ == spec_cat(spec_segments(kinds@.take(i as int), *results)),
            any == (spec_segments(kinds@.take(i as int), *results).len() > 0),
        decreases n - i,
    {
        let k = kinds[i];
        proof {
            assert(kinds@.take(i + 1).drop_last() =~= kinds@.take(i as int));
            assert(kinds@.take(i + 1).last() == kinds@[i as int]);
        }
        let seg = render_segment(k, results);
        match seg {
            Some(s) => {
                out.append(" ");
                out.append(s.as_str());
                any = true;
                proof {
                    reveal_strlit(" ");
                    let prev = spec_segments(kinds@.take(i as int), *results);
                    let next = spec_segments(kinds@.take(i + 1), *results);
                    assert(next.drop_last() =~= prev);
                    assert(next.last() == spec_segment(k, *results));
                    assert(" "@ =~= seq![' ']);
                    assert(out@ =~= spec_cat(next));
                }
            },
            None => {
                proof {
                    assert(spec_segments(kinds@.take(i + 1), *results) =~= spec_segments(
                        kinds@.take(i as int),
                        *results,
                    ));
                }
            },
        }
        i = i + 1;
    }
    proof {
        assert(kinds@.take(n as int) =~= kinds@);
    }
    if any {
        out
    } else {
        let one = String::from_str(" ");
        proof {
            reveal_strlit(" ");
            assert(one@ =~= seq![' ']);
        }
        one
    }
}

/// Render the report for a request: selected kinds in canonical order.
pub fn report_line(req: &MetricRequest, results: &SampleResults) -> (r: String)
    ensures
        r@ == spec_report(req.spec_kinds(), *results),
{
    let kinds = req.kinds();
    format_report(&kinds, results)
}

/// Fault isolation: when one metric's read fails, exactly its segment
/// disappears — the segments rendered with that metric unavailable are the
/// segments of the same request with that kind removed, each computed from
/// the untouched results. The report line follows suit.
pub proof fn lemma_fault_isolation(kinds: Seq<MetricKind>, res: SampleResults, k: MetricKind)
    ensures
        spec_segments(kinds, res.spec_clear(k)) == spec_segments(
            kinds.filter(|x: MetricKind| x != k),
            res,
        ),
        spec_report(kinds, res.spec_clear(k)) == spec_report(
            kinds.filter(|x: MetricKind| x != k),
            res,
        ),
    decreases kinds.len(),
{
    reveal(Seq::<MetricKind>::filter);
    let pred = |x: MetricKind| x != k;
    let cleared = res.spec_clear(k);
    if kinds.len() == 0 {
        assert(kinds.filter(pred) =~= Seq::<MetricKind>::empty());
    } else {
        let pre = kinds.drop_last();
        let last = kinds.last();
        lemma_fault_isolation(pre, res, k);
        assert(kinds.filter(pred) == if pred(last) {
            pre.filter(pred).push(last)
        } else {
            pre.filter(pred)
        });
        if last == k {
            assert(!cleared.available(last));
            assert(spec_segments(kinds, cleared) =~= spec_segments(pre, cleared));
        } else {
            assert(cleared.available(last) == res.available(last));
            assert(spec_segment(last, cleared) == spec_segment(last, res));
            let f = pre.filter(pred);
            assert(f.push(last).drop_last() =~= f);
            assert(f.push(last).last() == last);
            if res.available(last) {
                assert(spec_segments(kinds, cleared) =~= spec_segments(pre, cleared).push(
                    spec_segment(last, res),
                ));
                assert(spec_segments(f.push(last), res) =~= spec_segments(f, res).push(
                    spec_segment(last, res),
                ));
            } else {
                assert(spec_segments(kinds, cleared) =~= spec_segments(pre, cleared));
                assert(spec_segments(f.push(last), res) =~= spec_segments(f, res));
            }
        }
    }
}

/// The segments are exactly the segments of the available kinds, one each,
/// in request order: nothing is reordered, invented or dropped beyond the
/// unavailable kinds.
pub proof fn lemma_segments_are_the_available_kinds(kinds: Seq<MetricKind>, res: SampleResults)
    ensures
        spec_segments(kinds, res) == kinds.filter(|x: MetricKind| res.available(x)).map_values(
            |x: MetricKind| spec_segment(x, res),
        ),
    decreases kinds.len(),
{
    reveal(Seq::<MetricKind>::filter);
    let pred = |x: MetricKind| res.available(x);
    let f = |x: MetricKind| spec_segment(x, res);
    if kinds.len() == 0 {
        assert(kinds.filter(pred) =~= Seq::<MetricKind>::empty());
        assert(kinds.filter(pred).map_values(f) =~= Seq::<Seq<char>>::empty());
    } else {
        let pre = kinds.drop_last();
        let last = kinds.last();
        lemma_segments_are_the_available_kinds(pre, res);
        if res.available(last) {
            assert(kinds.filter(pred) == pre.filter(pred).push(last));
            assert(kinds.filter(pred).map_values(f) =~= pre.filter(pred).map_values(f).push(
                f(last),
            ));
            assert(spec_segments(kinds, res) =~= spec_segments(pre, res).push(
                spec_segment(last, res),
            ));
        } else {
            assert(kinds.filter(pred) == pre.filter(pred));
            assert(spec_segments(kinds, res) =~= spec_segments(pre, res));
        }
    }
}

/// Canonical report order: for any request and any results, the kinds whose
/// segments appear — the selected and available ones — stand strictly in
/// canonical order, however the caller's flags were given, and the segment
/// list is exactly their segments in that order.
pub proof fn lemma_report_canonical_order(req: MetricRequest, res: SampleResults)
    ensures
        crate::request::strictly_ordered(
            req.spec_kinds().filter(|x: MetricKind| res.available(x)),
        ),
        spec_segments(req.spec_kinds(), res) == req.spec_kinds().filter(
            |x: MetricKind| res.available(x),
        ).map_values(|x: MetricKind| spec_segment(x, res)),
{
    crate::request::lemma_kinds_canonical_order(req);
    crate::request::lemma_filter_keeps_order(
        req.spec_kinds(),
        |x: MetricKind| res.available(x),
    );
    lemma_segments_are_the_available_kinds(req.spec_kinds(), res);
}

/// Rendering is a pure function of the request order and the results: two
/// renderings of the same pair are byte-identical.
pub proof fn lemma_format_deterministic(
    kinds: Seq<MetricKind>,
    res: SampleResults,
    r1: Seq<char>,
    r2: Seq<char>,
)
    requires
        r1 == spec_report(kinds, res),
        r2 == spec_report(kinds, res),
    ensures
        r1 == r2,
{
}

} // verus!
