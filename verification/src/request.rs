//! Metric selection: which metrics the caller asked for, and the canonical
//! order in which their report segments appear.

use vstd::prelude::*;

verus! {

/// One selectable host metric.
#[derive(Clone, Copy, PartialEq, Eq, Structural, Debug)]
pub enum MetricKind {
    PerCpuPercent,
    AvgCpuPercent,
    VirtualMemory,
    SwapMemory,
    DiskIo,
    NetIo,
}

/// Position of a kind in the canonical report order.
pub open spec fn kind_index(k: MetricKind) -> int {
    match k {
        MetricKind::PerCpuPercent => 0,
        MetricKind::AvgCpuPercent => 1,
        MetricKind::VirtualMemory => 2,
        MetricKind::SwapMemory => 3,
        MetricKind::DiskIo => 4,
        MetricKind::NetIo => 5,
    }
}

/// The set of metrics one invocation asks for: one boolean per kind.
/// Selection is "requested or not", so no duplicates can arise, and the
/// report order is the canonical kind order, never the flag order.
#[derive(Clone, Copy, PartialEq, Eq, Structural, Debug)]
pub struct MetricRequest {
    pub per_cpu: bool,
    pub avg_cpu: bool,
    pub memory: bool,
    pub swap: bool,
    pub disk: bool,
    pub net: bool,
}

impl MetricRequest {
    /// Whether this request selects the given kind.
    pub open spec fn selected(self, k: MetricKind) -> bool {
        match k {
            MetricKind::PerCpuPercent => self.per_cpu,
            MetricKind::AvgCpuPercent => self.avg_cpu,
            MetricKind::VirtualMemory => self.memory,
            MetricKind::SwapMemory => self.swap,
            MetricKind::DiskIo => self.disk,
            MetricKind::NetIo => self.net,
        }
    }

    /// Whether any rate-based metric (disk or network throughput) is selected.
    pub open spec fn spec_wants_rates(self) -> bool {
        self.disk || self.net
    }

    /// The selected kinds, in canonical order.
    pub open spec fn spec_kinds(self) -> Seq<MetricKind> {
        (if self.per_cpu {
            seq![MetricKind::PerCpuPercent]
        } else {
            Seq::<MetricKind>::empty()
        }) + (if self.avg_cpu {
            seq![MetricKind::AvgCpuPercent]
        } else {
            Seq::<MetricKind>::empty()
        }) + (if self.memory {
            seq![MetricKind::VirtualMemory]
        } else {
            Seq::<MetricKind>::empty()
        }) + (if self.swap {
            seq![MetricKind::SwapMemory]
        } else {
            Seq::<MetricKind>::empty()
        }) + (if self.disk {
            seq![MetricKind::DiskIo]
        } else {
            Seq::<MetricKind>::empty()
        }) + (if self.net {
            seq![MetricKind::NetIo]
        } else {
            Seq::<MetricKind>::empty()
        })
    }

    pub fn new(
        per_cpu: bool,
        avg_cpu: bool,
        memory: bool,
        swap: bool,
        disk: bool,
        net: bool,
    ) -> (r: MetricRequest)
        ensures
            r == (MetricRequest { per_cpu, avg_cpu, memory, swap, disk, net }),
    {
        MetricRequest { per_cpu, avg_cpu, memory, swap, disk, net }
    }

    /// The selected kinds as a vector, in canonical order.
    pub fn kinds(&self) -> (r: Vec<MetricKind>)
        ensures
            r@ == self.spec_kinds(),
    {
        let mut r: Vec<MetricKind> = Vec::new();
        if self.per_cpu {
            r.push(MetricKind::PerCpuPercent);
        }
        if self.avg_cpu {
            r.push(MetricKind::AvgCpuPercent);
        }
        if self.memory {
            r.push(MetricKind::VirtualMemory);
        }
        if self.swap {
            r.push(MetricKind::SwapMemory);
        }
        if self.disk {
            r.push(MetricKind::DiskIo);
        }
        if self.net {
            r.push(MetricKind::NetIo);
        }
        proof {
            assert(r@ =~= self.spec_kinds());
        }
        r
    }
}

/// The kind indices of a sequence are strictly increasing.
pub open spec fn strictly_ordered(s: Seq<MetricKind>) -> bool {
    forall|i: int, j: int| 0 <= i < j < s.len() ==> kind_index(s[i]) < kind_index(s[j])
}

/// Every kind index in the sequence lies in `[lo, hi)`.
spec fn indices_in(s: Seq<MetricKind>, lo: int, hi: int) -> bool {
    forall|i: int| 0 <= i < s.len() ==> lo <= kind_index(#[trigger] s[i]) < hi
}

proof fn lemma_ordered_concat(a: Seq<MetricKind>, b: Seq<MetricKind>, lo: int, mid: int, hi: int)
    requires
        lo <= mid <= hi,
        strictly_ordered(a),
        strictly_ordered(b),
        indices_in(a, lo, mid),
        indices_in(b, mid, hi),
    ensures
        strictly_ordered(a + b),
        indices_in(a + b, lo, hi),
{
    let c = a + b;
    assert forall|i: int, j: int| 0 <= i < j < c.len() implies kind_index(c[i]) < kind_index(
        c[j],
    ) by {
        if j < a.len() {
            assert(c[i] == a[i] && c[j] == a[j]);
        } else if i >= a.len() {
            assert(c[i] == b[i - a.len()] && c[j] == b[j - a.len()]);
        } else {
            assert(c[i] == a[i] && c[j] == b[j - a.len()]);
        }
    }
    assert forall|i: int| 0 <= i < c.len() implies lo <= kind_index(#[trigger] c[i]) < hi by {
        if i < a.len() {
            assert(c[i] == a[i]);
        } else {
            assert(c[i] == b[i - a.len()]);
        }
    }
}

/// One conditional piece of the canonical selection sequence.
spec fn piece(flag: bool, k: MetricKind) -> Seq<MetricKind> {
    if flag {
        seq![k]
    } else {
        Seq::<MetricKind>::empty()
    }
}

proof fn lemma_filter_elements_come_from(s: Seq<MetricKind>, pred: spec_fn(MetricKind) -> bool)
    ensures
        forall|i: int|
            0 <= i < s.filter(pred).len() ==> s.contains(#[trigger] s.filter(pred)[i]),
    decreases s.len(),
{
    reveal(Seq::<MetricKind>::filter);
    if s.len() > 0 {
        let pre = s.drop_last();
        lemma_filter_elements_come_from(pre, pred);
        assert forall|i: int| 0 <= i < s.filter(pred).len() implies s.contains(
            #[trigger] s.filter(pred)[i],
        ) by {
            let f = s.filter(pred);
            if pred(s.last()) && i == f.len() - 1 {
                assert(s[s.len() - 1] == f[i]);
            } else {
                assert(f[i] == pre.filter(pred)[i]);
                assert(pre.contains(f[i]));
                let j = choose|j: int| 0 <= j < pre.len() && pre[j] == f[i];
                assert(s[j] == f[i]);
            }
        }
    }
}

/// A selection out of a canonically ordered sequence stays canonically
/// ordered: dropping kinds never reorders the rest.
pub proof fn lemma_filter_keeps_order(s: Seq<MetricKind>, pred: spec_fn(MetricKind) -> bool)
    requires
        strictly_ordered(s),
    ensures
        strictly_ordered(s.filter(pred)),
    decreases s.len(),
{
    reveal(Seq::<MetricKind>::filter);
    if s.len() > 0 {
        let pre = s.drop_last();
        assert(strictly_ordered(pre)) by {
            assert forall|i: int, j: int|
                0 <= i < j < pre.len() implies kind_index(pre[i]) < kind_index(pre[j]) by {
                assert(pre[i] == s[i] && pre[j] == s[j]);
            }
        }
        lemma_filter_keeps_order(pre, pred);
        lemma_filter_elements_come_from(pre, pred);
        if pred(s.last()) {
            let f = pre.filter(pred);
            let g = s.filter(pred);
            assert(g == f.push(s.last()));
            assert forall|i: int, j: int|
                0 <= i < j < g.len() implies kind_index(g[i]) < kind_index(g[j]) by {
                if j < f.len() {
                    assert(g[i] == f[i] && g[j] == f[j]);
                } else {
                    assert(g[j] == s.last());
                    assert(g[i] == f[i]);
                    assert(pre.contains(f[i]));
                    let l = choose|l: int| 0 <= l < pre.len() && pre[l] == f[i];
                    assert(s[l] == f[i]);
                    assert(kind_index(s[l]) < kind_index(s[s.len() - 1]));
                }
            }
        }
    }
}

/// The selected kinds come out strictly in canonical order — so the report
/// segments appear in canonical order no matter how the caller's flags were
/// given — and a kind appears exactly when it is selected, never twice.
#[verifier::rlimit(100)]
pub proof fn lemma_kinds_canonical_order(req: MetricRequest)
    ensures
        strictly_ordered(req.spec_kinds()),
        forall|k: MetricKind| req.spec_kinds().contains(k) <==> req.selected(k),
{
    let s = req.spec_kinds();
    let s0 = piece(req.per_cpu, MetricKind::PerCpuPercent);
    let s1 = piece(req.avg_cpu, MetricKind::AvgCpuPercent);
    let s2 = piece(req.memory, MetricKind::VirtualMemory);
    let s3 = piece(req.swap, MetricKind::SwapMemory);
    let s4 = piece(req.disk, MetricKind::DiskIo);
    let s5 = piece(req.net, MetricKind::NetIo);
    lemma_ordered_concat(s0, s1, 0, 1, 2);
    lemma_ordered_concat(s0 + s1, s2, 0, 2, 3);
    lemma_ordered_concat(s0 + s1 + s2, s3, 0, 3, 4);
    lemma_ordered_concat(s0 + s1 + s2 + s3, s4, 0, 4, 5);
    lemma_ordered_concat(s0 + s1 + s2 + s3 + s4, s5, 0, 5, 6);
    assert(s == s0 + s1 + s2 + s3 + s4 + s5);
    assert forall|i: int| 0 <= i < s.len() implies req.selected(#[trigger] s[i]) by {
        let n0 = s0.len() as int;
        let n1 = n0 + s1.len();
        let n2 = n1 + s2.len();
        let n3 = n2 + s3.len();
        let n4 = n3 + s4.len();
        if i < n0 {
            assert(s[i] == s0[i]);
        } else if i < n1 {
            assert(s[i] == s1[i - n0]);
        } else if i < n2 {
            assert(s[i] == s2[i - n1]);
        } else if i < n3 {
            assert(s[i] == s3[i - n2]);
        } else if i < n4 {
            assert(s[i] == s4[i - n3]);
        } else {
            assert(s[i] == s5[i - n4]);
        }
    }
    assert forall|k: MetricKind| s.contains(k) implies req.selected(k) by {
        let i = choose|i: int| 0 <= i < s.len() && s[i] == k;
        assert(req.selected(s[i]));
    }
    assert forall|k: MetricKind| req.selected(k) implies s.contains(k) by {
        match k {
            MetricKind::PerCpuPercent => assert(s[0] == k),
            MetricKind::AvgCpuPercent => {
                let i = if req.per_cpu {
                    1int
                } else {
                    0int
                };
                assert(s[i] == k);
            },
            MetricKind::VirtualMemory => {
                let i = (if req.per_cpu {
                    1int
                } else {
                    0int
                }) + (if req.avg_cpu {
                    1int
                } else {
                    0int
                });
                assert(s[i] == k);
            },
            MetricKind::SwapMemory => {
                let i = (if req.per_cpu {
                    1int
                } else {
                    0int
                }) + (if req.avg_cpu {
                    1int
                } else {
                    0int
                }) + (if req.memory {
                    1int
                } else {
                    0int
                });
                assert(s[i] == k);
            },
            MetricKind::DiskIo => {
                let i = (if req.per_cpu {
                    1int
                } else {
                    0int
                }) + (if req.avg_cpu {
                    1int
                } else {
                    0int
                }) + (if req.memory {
                    1int
                } else {
                    0int
                }) + (if req.swap {
                    1int
                } else {
                    0int
                });
                assert(s[i] == k);
            },
            MetricKind::NetIo => {
                assert(s[s.len() - 1] == k);
            },
        }
    }
}

} // verus!
