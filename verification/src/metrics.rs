//! The metric snapshot and the integer arithmetic behind it: utilization
//! percentages are rounded to the nearest integer and clamped to `[0, 100]`.
//!
//! Raw counter readings reach this module as integer hundredths of a percent;
//! memory figures arrive as total and free kilobyte counts.  A reading that
//! failed is handed in as `None` and degrades to a `0` value rather than an
//! error, so one bad probe never aborts a tick.

use vstd::prelude::*;

verus! {

/// Which metric families at least one configured label references.
#[derive(Clone, Copy, PartialEq, Eq, Structural, Debug)]
pub struct FamilyFlags {
    pub cpu: bool,
    pub gpu: bool,
    pub mem: bool,
}

/// The current-tick utilization readings, replaced wholesale once per tick.
///
/// A `None` field, or a GPU index at or past `gpus.len()`, is an absent key:
/// the template resolver substitutes `0` for absent CPU and memory keys and
/// falls through to custom-format lookup for absent GPU keys.
pub struct MetricSnapshot {
    pub cpu: Option<u8>,
    pub mem: Option<u8>,
    pub gpus: Vec<u8>,
}

/// The ghost image of a snapshot.
pub struct SnapshotView {
    pub cpu: Option<u8>,
    pub mem: Option<u8>,
    pub gpus: Seq<u8>,
}

impl View for MetricSnapshot {
    type V = SnapshotView;

    open spec fn view(&self) -> SnapshotView {
        SnapshotView { cpu: self.cpu, mem: self.mem, gpus: self.gpus@ }
    }
}

impl MetricSnapshot {
    /// A snapshot with every key absent, as before the first sample.
    pub fn new() -> (s: MetricSnapshot)
        ensures
            s@.cpu is None,
            s@.mem is None,
            s@.gpus.len() == 0,
    {
        MetricSnapshot { cpu: None, mem: None, gpus: Vec::new() }
    }

    /// The value stored for a GPU index, if the key is present.
    pub fn gpu(&self, idx: usize) -> (r: Option<u8>)
        ensures
            r == if idx < self@.gpus.len() {
                Some(self@.gpus[idx as int])
            } else {
                None::<u8>
            },
    {
        if idx < self.gpus.len() {
            Some(self.gpus[idx])
        } else {
            None
        }
    }
}

/// A percentage from hundredths of a percent: rounded to the nearest integer
/// (half away from zero) and clamped to 100.
pub open spec fn percent_of_hundredths(h: nat) -> nat {
    if (h + 50) / 100 >= 100 {
        100
    } else {
        (h + 50) / 100
    }
}

/// The memory utilization percentage `(1 - free/total) * 100`, rounded to the
/// nearest integer and clamped to `[0, 100]`.
pub open spec fn mem_percent_spec(total: nat, free: nat) -> nat {
    if total == 0 || free >= total {
        0
    } else {
        ((((total - free) * 200 + total) / (2 * total as int)) as nat)
    }
}

/// CPU (or any single-counter) percentage from a reading in hundredths.
pub fn percent_from_hundredths(h: u64) -> (r: u8)
    ensures
        r as nat == percent_of_hundredths(h as nat),
{
    if h >= 9950 {
        100
    } else {
        ((h + 50) / 100) as u8
    }
}

/// Memory percentage from total and free amounts (any common unit).
pub fn mem_percent(total: u64, free: u64) -> (r: u8)
    ensures
        r as nat == mem_percent_spec(total as nat, free as nat),
        r <= 100,
{
    if total == 0 || free >= total {
        return 0;
    }
    let t = total as u128;
    let f = free as u128;
    let used = t - f;
    let q = (used * 200 + t) / (2 * t);
    proof {
        let ti = total as int;
        let fi = free as int;
        assert((ti - fi) * 200 + ti < 101 * (2 * ti)) by (nonlinear_arith)
            requires
                0 < ti,
                0 <= fi < ti,
        ;
        assert(((ti - fi) * 200 + ti) / (2 * ti) < 101) by (nonlinear_arith)
            requires
                0 < ti,
                (ti - fi) * 200 + ti < 101 * (2 * ti),
                0 <= (ti - fi) * 200 + ti,
        ;
    }
    q as u8
}

/// The sum of the readings attributed to GPU `idx`.
pub open spec fn gpu_sum(readings: Seq<(usize, u64)>, idx: nat) -> nat
    decreases readings.len(),
{
    if readings.len() == 0 {
        0
    } else {
        gpu_sum(readings.drop_last(), idx) + if readings.last().0 == idx {
            readings.last().1 as nat
        } else {
            0
        }
    }
}

/// Per-GPU utilization: the readings of each GPU index summed, rounded and
/// clamped to `[0, 100]`.  Readings for indexes at or past `n_gpus` are
/// ignored.
pub fn gpu_percentages(n_gpus: usize, readings: &Vec<(usize, u64)>) -> (r: Vec<u8>)
    ensures
        r@.len() == n_gpus,
        forall|g: int|
            0 <= g < n_gpus ==> r@[g] as nat == percent_of_hundredths(
                #[trigger] gpu_sum(readings@, g as nat),
            ),
{
    let mut out: Vec<u8> = Vec::new();
    let mut g: usize = 0;
    while g < n_gpus
        invariant
            g <= n_gpus,
            out@.len() == g,
            forall|k: int|
                0 <= k < g ==> out@[k] as nat == percent_of_hundredths(
                    #[trigger] gpu_sum(readings@, k as nat),
                ),
        decreases n_gpus - g,
    {
        let mut acc: u64 = 0;
        let mut i: usize = 0;
        while i < readings.len()
            invariant
                i <= readings@.len(),
                acc as nat == if gpu_sum(readings@.subrange(0, i as int), g as nat) >= 10000 {
                    10000nat
                } else {
                    gpu_sum(readings@.subrange(0, i as int), g as nat)
                },
            decreases readings@.len() - i,
        {
            let ghost prefix = readings@.subrange(0, i as int);
            let (idx, v) = readings[i];
            if idx == g {
                if v >= 10000 {
                    acc = 10000;
                } else if acc + v >= 10000 {
                    acc = 10000;
                } else {
                    acc = acc + v;
                }
            }
            i += 1;
            proof {
                let next = readings@.subrange(0, i as int);
                assert(next.drop_last() =~= prefix);
                assert(next.last() == readings@[i - 1]);
            }
        }
        proof {
            assert(readings@.subrange(0, readings@.len() as int) =~= readings@);
        }
        if acc >= 9950 {
            out.push(100);
        } else {
            out.push(((acc + 50) / 100) as u8);
        }
        g += 1;
    }
    out
}

/// A fresh snapshot for one tick.  Only the families that some label
/// references are sampled at all; within a sampled family a failed reading
/// degrades to `0`.
pub fn build_snapshot(
    flags: FamilyFlags,
    cpu_reading: Option<u64>,
    mem_reading: Option<(u64, u64)>,
    n_gpus: usize,
    gpu_readings: &Vec<(usize, u64)>,
) -> (s: MetricSnapshot)
    ensures
        s@.cpu == if flags.cpu {
            Some(
                match cpu_reading {
                    Some(h) => (percent_of_hundredths(h as nat)) as u8,
                    None => 0u8,
                },
            )
        } else {
            None::<u8>
        },
        s@.mem == if flags.mem {
            Some(
                match mem_reading {
                    Some((t, f)) => (mem_percent_spec(t as nat, f as nat)) as u8,
                    None => 0u8,
                },
            )
        } else {
            None::<u8>
        },
        s@.gpus.len() == if flags.gpu {
            n_gpus as int
        } else {
            0
        },
        flags.gpu ==> forall|g: int|
            0 <= g < n_gpus ==> s@.gpus[g] as nat == percent_of_hundredths(
                #[trigger] gpu_sum(gpu_readings@, g as nat),
            ),
{
    let cpu = if flags.cpu {
        Some(
            match cpu_reading {
                Some(h) => percent_from_hundredths(h),
                None => 0,
            },
        )
    } else {
        None
    };
    let mem = if flags.mem {
        Some(
            match mem_reading {
                Some((t, f)) => mem_percent(t, f),
                None => 0,
            },
        )
    } else {
        None
    };
    let gpus = if flags.gpu {
        gpu_percentages(n_gpus, gpu_readings)
    } else {
        Vec::new()
    };
    MetricSnapshot { cpu, mem, gpus }
}

/// Clamped rounding never exceeds 100.
pub proof fn lemma_percent_bounded(h: nat)
    ensures
        percent_of_hundredths(h) <= 100,
{
}

} // verus!
