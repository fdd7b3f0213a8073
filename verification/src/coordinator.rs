//! Orchestration of one invocation. The coordinator does no OS work itself:
//! it hands the embedding program a sampling plan — the exact ordered reads
//! and the single shared wait to perform — and afterwards turns the raw
//! reads into per-metric results, masking everything the request did not
//! select.

use vstd::prelude::*;
use crate::rate::{disk_rate, net_rate, spec_disk_rate, spec_net_rate};
use crate::request::{MetricKind, MetricRequest};
use crate::sample::{RawSamples, SampleResults};

verus! {

/// One step the embedding program performs for the coordinator. The wait is
/// the only suspension: exactly one second, shared by both rate metrics.
#[derive(Clone, Copy, PartialEq, Eq, Structural, Debug)]
pub enum Step {
    ReadPerCpu,
    ReadAvgCpu,
    ReadMemory,
    ReadSwap,
    FirstDiskSnapshot,
    FirstNetSnapshot,
    /// Block for the fixed one-second window.
    Wait,
    SecondDiskSnapshot,
    SecondNetSnapshot,
}

/// How many waits a plan contains.
pub open spec fn spec_wait_count(s: Seq<Step>) -> nat
    decreases s.len(),
{
    if s.len() == 0 {
        0
    } else {
        spec_wait_count(s.drop_last()) + (if s.last() is Wait {
            1nat
        } else {
            0nat
        })
    }
}

/// The plan for a request: every instantaneous read, then the first
/// snapshot of each selected rate metric, one shared wait, and the second
/// snapshots.
pub open spec fn spec_plan(req: MetricRequest) -> Seq<Step> {
    (if req.per_cpu {
        seq![Step::ReadPerCpu]
    } else {
        Seq::<Step>::empty()
    }) + (if req.avg_cpu {
        seq![Step::ReadAvgCpu]
    } else {
        Seq::<Step>::empty()
    }) + (if req.memory {
        seq![Step::ReadMemory]
    } else {
        Seq::<Step>::empty()
    }) + (if req.swap {
        seq![Step::ReadSwap]
    } else {
        Seq::<Step>::empty()
    }) + (if req.disk {
        seq![Step::FirstDiskSnapshot]
    } else {
        Seq::<Step>::empty()
    }) + (if req.net {
        seq![Step::FirstNetSnapshot]
    } else {
        Seq::<Step>::empty()
    }) + (if req.spec_wants_rates() {
        seq![Step::Wait]
    } else {
        Seq::<Step>::empty()
    }) + (if req.disk {
        seq![Step::SecondDiskSnapshot]
    } else {
        Seq::<Step>::empty()
    }) + (if req.net {
        seq![Step::SecondNetSnapshot]
    } else {
        Seq::<Step>::empty()
    })
}

/// The ordered steps to perform for `req`, with its single shared wait.
#[verifier::rlimit(100)]
pub fn sampling_plan(req: &MetricRequest) -> (r: Vec<Step>)
    ensures
        r@ == spec_plan(*req),
        spec_wait_count(r@) == if req.spec_wants_rates() {
            1nat
        } else {
            0nat
        },
{
    proof {
        lemma_single_shared_wait(*req);
    }
    let mut r: Vec<Step> = Vec::new();
    let ghost mut expect: Seq<Step> = if req.per_cpu {
        seq![Step::ReadPerCpu]
    } else {
        Seq::<Step>::empty()
    };
    if req.per_cpu {
        r.push(Step::ReadPerCpu);
    }
    proof {
        assert(r@ =~= expect);
    }
    if req.avg_cpu {
        r.push(Step::ReadAvgCpu);
    }
    proof {
        expect = expect + (if req.avg_cpu {
            seq![Step::ReadAvgCpu]
        } else {
            Seq::<Step>::empty()
        });
        assert(r@ =~= expect);
    }
    if req.memory {
        r.push(Step::ReadMemory);
    }
    proof {
        expect = expect + (if req.memory {
            seq![Step::ReadMemory]
        } else {
            Seq::<Step>::empty()
        });
        assert(r@ =~= expect);
    }
    if req.swap {
        r.push(Step::ReadSwap);
    }
    proof {
        expect = expect + (if req.swap {
            seq![Step::ReadSwap]
        } else {
            Seq::<Step>::empty()
        });
        assert(r@ =~= expect);
    }
    if req.disk {
        r.push(Step::FirstDiskSnapshot);
    }
    proof {
        expect = expect + (if req.disk {
            seq![Step::FirstDiskSnapshot]
        } else {
            Seq::<Step>::empty()
        });
        assert(r@ =~= expect);
    }
    if req.net {
        r.push(Step::FirstNetSnapshot);
    }
    proof {
        expect = expect + (if req.net {
            seq![Step::FirstNetSnapshot]
        } else {
            Seq::<Step>::empty()
        });
        assert(r@ =~= expect);
    }
    if req.disk || req.net {
        r.push(Step::Wait);
    }
    proof {
        expect = expect + (if req.spec_wants_rates() {
            seq![Step::Wait]
        } else {
            Seq::<Step>::empty()
        });
        assert(r@ =~= expect);
    }
    if req.disk {
        r.push(Step::SecondDiskSnapshot);
    }
    proof {
        expect = expect + (if req.disk {
            seq![Step::SecondDiskSnapshot]
        } else {
            Seq::<Step>::empty()
        });
        assert(r@ =~= expect);
    }
    if req.net {
        r.push(Step::SecondNetSnapshot);
    }
    proof {
        expect = expect + (if req.net {
            seq![Step::SecondNetSnapshot]
        } else {
            Seq::<Step>::empty()
        });
        assert(r@ =~= expect);
        assert(expect == spec_plan(*req));
    }
    r
}

proof fn lemma_wait_count_concat(a: Seq<Step>, b: Seq<Step>)
    ensures
        spec_wait_count(a + b) == spec_wait_count(a) + spec_wait_count(b),
    decreases b.len(),
{
    if b.len() == 0 {
        assert(a + b =~= a);
    } else {
        lemma_wait_count_concat(a, b.drop_last());
        assert((a + b).drop_last() =~= a + b.drop_last());
        assert((a + b).last() == b.last());
    }
}

/// One shared wait, not one per rate metric: the plan for any request holds
/// exactly one wait when disk or network throughput is selected — even when
/// both are — and none otherwise.
pub proof fn lemma_single_shared_wait(req: MetricRequest)
    ensures
        spec_wait_count(spec_plan(req)) == if req.spec_wants_rates() {
            1nat
        } else {
            0nat
        },
{
    let s0 = if req.per_cpu {
        seq![Step::ReadPerCpu]
    } else {
        Seq::<Step>::empty()
    };
    let s1 = if req.avg_cpu {
        seq![Step::ReadAvgCpu]
    } else {
        Seq::<Step>::empty()
    };
    let s2 = if req.memory {
        seq![Step::ReadMemory]
    } else {
        Seq::<Step>::empty()
    };
    let s3 = if req.swap {
        seq![Step::ReadSwap]
    } else {
        Seq::<Step>::empty()
    };
    let s4 = if req.disk {
        seq![Step::FirstDiskSnapshot]
    } else {
        Seq::<Step>::empty()
    };
    let s5 = if req.net {
        seq![Step::FirstNetSnapshot]
    } else {
        Seq::<Step>::empty()
    };
    let s6 = if req.spec_wants_rates() {
        seq![Step::Wait]
    } else {
        Seq::<Step>::empty()
    };
    let s7 = if req.disk {
        seq![Step::SecondDiskSnapshot]
    } else {
        Seq::<Step>::empty()
    };
    let s8 = if req.net {
        seq![Step::SecondNetSnapshot]
    } else {
        Seq::<Step>::empty()
    };
    lemma_wait_count_concat(s0, s1);
    lemma_wait_count_concat(s0 + s1, s2);
    lemma_wait_count_concat(s0 + s1 + s2, s3);
    lemma_wait_count_concat(s0 + s1 + s2 + s3, s4);
    lemma_wait_count_concat(s0 + s1 + s2 + s3 + s4, s5);
    lemma_wait_count_concat(s0 + s1 + s2 + s3 + s4 + s5, s6);
    lemma_wait_count_concat(s0 + s1 + s2 + s3 + s4 + s5 + s6, s7);
    lemma_wait_count_concat(s0 + s1 + s2 + s3 + s4 + s5 + s6 + s7, s8);
    assert(spec_plan(req) == s0 + s1 + s2 + s3 + s4 + s5 + s6 + s7 + s8);
    assert(spec_wait_count(s6) == if req.spec_wants_rates() {
        1nat
    } else {
        0nat
    }) by {
        reveal_with_fuel(spec_wait_count, 2);
        if req.spec_wants_rates() {
            assert(seq![Step::Wait].drop_last() =~= Seq::<Step>::empty());
        }
    }
    assert(spec_wait_count(s0) == 0 && spec_wait_count(s1) == 0 && spec_wait_count(s2) == 0
        && spec_wait_count(s3) == 0 && spec_wait_count(s4) == 0 && spec_wait_count(s5) == 0
        && spec_wait_count(s7) == 0 && spec_wait_count(s8) == 0) by {
        reveal_with_fuel(spec_wait_count, 2);
        assert(seq![Step::ReadPerCpu].drop_last() =~= Seq::<Step>::empty());
        assert(seq![Step::ReadAvgCpu].drop_last() =~= Seq::<Step>::empty());
        assert(seq![Step::ReadMemory].drop_last() =~= Seq::<Step>::empty());
        assert(seq![Step::ReadSwap].drop_last() =~= Seq::<Step>::empty());
        assert(seq![Step::FirstDiskSnapshot].drop_last() =~= Seq::<Step>::empty());
        assert(seq![Step::FirstNetSnapshot].drop_last() =~= Seq::<Step>::empty());
        assert(seq![Step::SecondDiskSnapshot].drop_last() =~= Seq::<Step>::empty());
        assert(seq![Step::SecondNetSnapshot].drop_last() =~= Seq::<Step>::empty());
    }
}

/// What `collect_results` must produce: requested instantaneous reads pass
/// through, requested rates are derived from their two snapshots, and
/// everything unrequested is absent.
pub open spec fn spec_collect(req: MetricRequest, raw: RawSamples) -> SampleResults {
    SampleResults {
        per_cpu: if req.per_cpu {
            raw.per_cpu
        } else {
            None
        },
        avg_cpu: if req.avg_cpu {
            raw.avg_cpu
        } else {
            None
        },
        memory: if req.memory {
            raw.memory
        } else {
            None
        },
        swap: if req.swap {
            raw.swap
        } else {
            None
        },
        disk: if req.disk {
            spec_disk_rate(raw.disk_first, raw.disk_second)
        } else {
            None
        },
        net: if req.net {
            spec_net_rate(raw.net_first, raw.net_second)
        } else {
            None
        },
    }
}

/// A failed collaborator read degrades exactly its own metric: collecting
/// with one metric's read failed gives the results of the intact reads with
/// that one metric made unavailable — every other metric's result is
/// untouched. Together with the formatter's fault isolation this carries a
/// read failure to the loss of precisely one report segment.
pub proof fn lemma_failed_read_degrades_one_metric(
    req: MetricRequest,
    raw: RawSamples,
    k: MetricKind,
)
    ensures
        spec_collect(req, raw.spec_fail_read(k)) == spec_collect(req, raw).spec_clear(k),
{
}

/// Turn the raw collaborator reads into per-metric results.
pub fn collect_results(req: &MetricRequest, raw: RawSamples) -> (r: SampleResults)
    ensures
        r == spec_collect(*req, raw),
{
    let disk = if req.disk {
        disk_rate(&raw.disk_first, &raw.disk_second)
    } else {
        None
    };
    let net = if req.net {
        net_rate(&raw.net_first, &raw.net_second)
    } else {
        None
    };
    SampleResults {
        per_cpu: if req.per_cpu {
            raw.per_cpu
        } else {
            None
        },
        avg_cpu: if req.avg_cpu {
            raw.avg_cpu
        } else {
            None
        },
        memory: if req.memory {
            raw.memory
        } else {
            None
        },
        swap: if req.swap {
            raw.swap
        } else {
            None
        },
        disk,
        net,
    }
}

} // verus!
