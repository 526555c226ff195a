//! Metrics collector: the latest per-port counter snapshot, keyed by
//! chassis port, replaced wholesale on every poll and copied on read.

use crate::hw::PortStats;
use vstd::prelude::*;

verus! {

/// The latest counter snapshot of one chassis port.
#[derive(Clone, Copy, Debug, PartialEq, Eq, Structural)]
pub struct Metrics {
    pub chassis_port: u32,
    pub packets_in: u64,
    pub packets_out: u64,
    pub octets_in: u64,
    pub octets_out: u64,
    pub packets_dropped_buffer_full: u64,
}

impl Metrics {
    /// The snapshot record for one chassis port's counters.
    pub fn from_stats(chassis_port: u32, stats: &PortStats) -> (r: Metrics)
        ensures
            r == (Metrics {
                chassis_port,
                packets_in: stats.packets_in,
                packets_out: stats.packets_out,
                octets_in: stats.octets_in,
                octets_out: stats.octets_out,
                packets_dropped_buffer_full: stats.packets_dropped_buffer_full,
            }),
    {
        Metrics {
            chassis_port,
            packets_in: stats.packets_in,
            packets_out: stats.packets_out,
            octets_in: stats.octets_in,
            octets_out: stats.octets_out,
            packets_dropped_buffer_full: stats.packets_dropped_buffer_full,
        }
    }
}

/// The snapshot stored for a chassis port, first match wins; the
/// collector keeps ports unique, so the first match is the only one.
pub open spec fn spec_metrics_lookup(m: Seq<Metrics>, chassis_port: u32) -> Option<Metrics>
    decreases m.len(),
{
    if m.len() == 0 {
        None
    } else if m[0].chassis_port == chassis_port {
        Some(m[0])
    } else {
        spec_metrics_lookup(m.skip(1), chassis_port)
    }
}

proof fn lemma_metrics_lookup_prefix(m: Seq<Metrics>, chassis_port: u32, i: int)
    requires
        0 <= i <= m.len(),
        forall|j: int| 0 <= j < i ==> (#[trigger] m[j]).chassis_port != chassis_port,
    ensures
        spec_metrics_lookup(m, chassis_port) == spec_metrics_lookup(m.skip(i), chassis_port),
    decreases i,
{
    if i > 0 {
        lemma_metrics_lookup_prefix(m.skip(1), chassis_port, i - 1);
        assert(m.skip(1).skip(i - 1) =~= m.skip(i));
        assert(forall|j: int|
            0 <= j < i - 1 ==> (#[trigger] m.skip(1)[j]).chassis_port == m[j + 1].chassis_port
                && m[j + 1].chassis_port != chassis_port);
        assert(m.skip(0) =~= m);
    } else {
        assert(m.skip(0) =~= m);
    }
}

/// The collector: poll interval and the latest snapshot per port.
pub struct MetricsCollector {
    pub poll_interval_in_seconds: u16,
    pub recent_metrics: Vec<Metrics>,
}

impl MetricsCollector {
    /// Ports appear at most once in the snapshot list.
    pub open spec fn wf(self) -> bool {
        forall|i: int, j: int|
            0 <= i < j < self.recent_metrics@.len() ==> (#[trigger] self.recent_metrics@[i]).chassis_port
                != (#[trigger] self.recent_metrics@[j]).chassis_port
    }

    /// A collector with no snapshots and the poll interval unset.
    pub fn init() -> (r: MetricsCollector)
        ensures
            r.wf(),
            r.recent_metrics@ == Seq::<Metrics>::empty(),
            r.poll_interval_in_seconds == 65535,
    {
        MetricsCollector { poll_interval_in_seconds: 65535, recent_metrics: Vec::new() }
    }

    /// Sets the poll interval; the caller runs the periodic scrape at this
    /// cadence.
    pub fn run(&mut self, poll_interval_in_seconds: u16)
        requires
            old(self).wf(),
        ensures
            final(self).wf(),
            final(self).poll_interval_in_seconds == poll_interval_in_seconds,
            final(self).recent_metrics == old(self).recent_metrics,
    {
        self.poll_interval_in_seconds = poll_interval_in_seconds;
    }

    /// Replaces (or adds) the snapshot of one chassis port, leaving every
    /// other port's snapshot as it was.
    pub fn record_metrics(&mut self, m: Metrics)
        requires
            old(self).wf(),
        ensures
            final(self).wf(),
            spec_metrics_lookup(final(self).recent_metrics@, m.chassis_port) == Some(m),
            forall|k: u32|
                k != m.chassis_port ==> spec_metrics_lookup(final(self).recent_metrics@, k)
                    == spec_metrics_lookup(old(self).recent_metrics@, k),
            final(self).poll_interval_in_seconds == old(self).poll_interval_in_seconds,
    {
        let n = self.recent_metrics.len();
        let mut i: usize = 0;
        while i < n
            invariant
                old(self).wf(),
                n == self.recent_metrics@.len(),
                self.recent_metrics == old(self).recent_metrics,
                self.poll_interval_in_seconds == old(self).poll_interval_in_seconds,
                0 <= i <= n,
                forall|j: int|
                    0 <= j < i ==> (#[trigger] self.recent_metrics@[j]).chassis_port
                        != m.chassis_port,
            decreases n - i,
        {
            if self.recent_metrics[i].chassis_port == m.chassis_port {
                let ghost before = self.recent_metrics@;
                self.recent_metrics.set(i, m);
                proof {
                    let after = self.recent_metrics@;
                    assert(after =~= before.update(i as int, m));
                    assert(after[i as int] == m);
                    assert(forall|j: int|
                        0 <= j < before.len() && j != i ==> #[trigger] after[j] == before[j]);
                    assert(after[i as int].chassis_port == before[i as int].chassis_port);
                    assert forall|a: int, b: int|
                        0 <= a < b < after.len() implies (#[trigger] after[a]).chassis_port
                        != (#[trigger] after[b]).chassis_port by {
                        assert(after[a].chassis_port == before[a].chassis_port || a == i);
                        assert(after[b].chassis_port == before[b].chassis_port || b == i);
                        assert(before == old(self).recent_metrics@);
                        assert((#[trigger] old(self).recent_metrics@[a]).chassis_port
                            != (#[trigger] old(self).recent_metrics@[b]).chassis_port);
                    }
                    lemma_metrics_lookup_prefix(after, m.chassis_port, i as int);
                    assert(after.skip(i as int)[0] == m);
                    assert(spec_metrics_lookup(after.skip(i as int), m.chassis_port) == Some(m));
                    assert forall|k: u32|
                        k != m.chassis_port implies spec_metrics_lookup(after, k)
                        == spec_metrics_lookup(before, k) by {
                        lemma_lookup_update_other(before, after, i as int, k);
                    }
                }
                return;
            }
            i = i + 1;
        }
        let ghost before = self.recent_metrics@;
        self.recent_metrics.push(m);
        proof {
            let after = self.recent_metrics@;
            assert(after =~= before.push(m));
            assert(forall|j: int| 0 <= j < before.len() ==> #[trigger] after[j] == before[j]);
            assert(after[n as int] == m);
            assert forall|a: int, b: int|
                0 <= a < b < after.len() implies (#[trigger] after[a]).chassis_port
                != (#[trigger] after[b]).chassis_port by {
                if b < n {
                    assert(before == old(self).recent_metrics@);
                    assert((#[trigger] old(self).recent_metrics@[a]).chassis_port
                        != (#[trigger] old(self).recent_metrics@[b]).chassis_port);
                } else {
                    assert(after[b] == m);
                    assert(after[a] == before[a]);
                    assert(before[a].chassis_port != m.chassis_port);
                }
            }
            lemma_metrics_lookup_prefix(after, m.chassis_port, n as int);
            assert(after.skip(n as int) =~= seq![m]);
            assert(after.skip(n as int)[0] == m);
            assert(spec_metrics_lookup(after.skip(n as int), m.chassis_port) == Some(m));
            assert forall|k: u32|
                k != m.chassis_port implies spec_metrics_lookup(after, k) == spec_metrics_lookup(
                before,
                k,
            ) by {
                lemma_lookup_append_other(before, m, k);
                assert(after == before.push(m));
            }
        }
    }

    /// Records one snapshot per reading, in order; when a port appears more
    /// than once, the last reading wins.
    pub fn collect_port_stats(&mut self, readings: &Vec<Metrics>)
        requires
            old(self).wf(),
        ensures
            final(self).wf(),
            forall|j: int|
                0 <= j < readings@.len() && (forall|j2: int|
                    j < j2 < readings@.len() ==> (#[trigger] readings@[j2]).chassis_port
                        != readings@[j].chassis_port) ==> spec_metrics_lookup(
                    final(self).recent_metrics@,
                    (#[trigger] readings@[j]).chassis_port,
                ) == Some(readings@[j]),
            forall|k: u32|
                (forall|j: int|
                    0 <= j < readings@.len() ==> (#[trigger] readings@[j]).chassis_port != k)
                    ==> spec_metrics_lookup(final(self).recent_metrics@, k)
                    == spec_metrics_lookup(old(self).recent_metrics@, k),
            final(self).poll_interval_in_seconds == old(self).poll_interval_in_seconds,
    {
        let n = readings.len();
        let mut i: usize = 0;
        while i < n
            invariant
                n == readings@.len(),
                0 <= i <= n,
                self.wf(),
                self.poll_interval_in_seconds == old(self).poll_interval_in_seconds,
                forall|j: int|
                    0 <= j < i && (forall|j2: int|
                        j < j2 < i ==> (#[trigger] readings@[j2]).chassis_port
                            != readings@[j].chassis_port) ==> spec_metrics_lookup(
                        self.recent_metrics@,
                        (#[trigger] readings@[j]).chassis_port,
                    ) == Some(readings@[j]),
                forall|k: u32|
                    (forall|j: int| 0 <= j < i ==> (#[trigger] readings@[j]).chassis_port != k)
                        ==> spec_metrics_lookup(self.recent_metrics@, k) == spec_metrics_lookup(
                        old(self).recent_metrics@,
                        k,
                    ),
            decreases n - i,
        {
            self.record_metrics(readings[i]);
            i = i + 1;
        }
    }

    /// A copy of the snapshots.
    pub fn get_port_stats(&self) -> (r: Vec<Metrics>)
        ensures
            r@ == self.recent_metrics@,
    {
        let mut out: Vec<Metrics> = Vec::new();
        let n = self.recent_metrics.len();
        let mut i: usize = 0;
        while i < n
            invariant
                n == self.recent_metrics@.len(),
                0 <= i <= n,
                out@ == self.recent_metrics@.take(i as int),
            decreases n - i,
        {
            out.push(self.recent_metrics[i]);
            proof {
                assert(out@ =~= self.recent_metrics@.take(i + 1));
            }
            i = i + 1;
        }
        proof {
            assert(self.recent_metrics@.take(n as int) =~= self.recent_metrics@);
        }
        out
    }
}

proof fn lemma_lookup_update_other(before: Seq<Metrics>, after: Seq<Metrics>, i: int, k: u32)
    requires
        0 <= i < before.len(),
        after.len() == before.len(),
        forall|j: int| 0 <= j < before.len() && j != i ==> #[trigger] after[j] == before[j],
        after[i].chassis_port == before[i].chassis_port,
        k != before[i].chassis_port,
    ensures
        spec_metrics_lookup(after, k) == spec_metrics_lookup(before, k),
    decreases before.len(),
{
    assert(after[0].chassis_port == before[0].chassis_port);
    if before[0].chassis_port == k {
        assert(i != 0);
        assert(after[0] == before[0]);
        assert(spec_metrics_lookup(before, k) == Some(before[0]));
        assert(spec_metrics_lookup(after, k) == Some(after[0]));
    } else {
        assert(spec_metrics_lookup(before, k) == spec_metrics_lookup(before.skip(1), k));
        assert(spec_metrics_lookup(after, k) == spec_metrics_lookup(after.skip(1), k));
        if i == 0 {
            assert(after.skip(1) =~= before.skip(1));
        } else {
            assert(forall|j: int|
                0 <= j < before.skip(1).len() && j != i - 1 ==> #[trigger] after.skip(1)[j]
                    == before.skip(1)[j]);
            assert(after.skip(1)[i - 1] == after[i]);
            assert(before.skip(1)[i - 1] == before[i]);
            lemma_lookup_update_other(before.skip(1), after.skip(1), i - 1, k);
        }
    }
}

proof fn lemma_lookup_append_other(before: Seq<Metrics>, m: Metrics, k: u32)
    requires
        k != m.chassis_port,
    ensures
        spec_metrics_lookup(before.push(m), k) == spec_metrics_lookup(before, k),
    decreases before.len(),
{
    let whole = before.push(m);
    if before.len() == 0 {
        assert(whole[0] == m);
        assert(spec_metrics_lookup(whole, k) == spec_metrics_lookup(whole.skip(1), k));
        assert(whole.skip(1) =~= Seq::<Metrics>::empty());
        assert(spec_metrics_lookup(whole.skip(1), k) is None);
        assert(spec_metrics_lookup(before, k) is None);
    } else {
        assert(whole[0] == before[0]);
        if before[0].chassis_port == k {
            assert(spec_metrics_lookup(whole, k) == Some(whole[0]));
            assert(spec_metrics_lookup(before, k) == Some(before[0]));
        } else {
            assert(spec_metrics_lookup(whole, k) == spec_metrics_lookup(whole.skip(1), k));
            assert(spec_metrics_lookup(before, k) == spec_metrics_lookup(before.skip(1), k));
            assert(whole.skip(1) =~= before.skip(1).push(m));
            lemma_lookup_append_other(before.skip(1), m, k);
        }
    }
}

} // verus!
