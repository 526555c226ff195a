//! Flow learner: consumes the digest records the data plane pushes,
//! deduplicated there by a pair of bloom filters, keeps a bounded set of
//! learned flows, and counts every arrival — including the ones dropped
//! once the cap is reached.
//!
//! Dropping learned flows always yields the bloom-filter writes that clear
//! the flows' two filter slots in the data plane, so the same flows can be
//! learned again.

use crate::features::FeatureEntry;
use crate::features::FeatureTable;
use crate::hw::HWManager;
use crate::ip::format_ipv4;
use crate::ip::spec_ipv4_string;
use vstd::prelude::*;

verus! {

/// A learned flow. The address strings are the dotted-decimal forms of the
/// address values; `hash1` and `hash2` are the flow's two bloom-filter and
/// counter indices.
#[derive(Debug, PartialEq, Eq)]
pub struct Flow {
    pub src_addr: String,
    pub src_addr_int: u32,
    pub src_port: u16,
    pub dst_addr: String,
    pub dst_addr_int: u32,
    pub dst_port: u16,
    pub ipv4_protocol: u8,
    pub hash1: u16,
    pub hash2: u16,
}

impl Clone for Flow {
    fn clone(&self) -> (r: Flow)
        ensures
            r == *self,
    {
        Flow {
            src_addr: self.src_addr.clone(),
            src_addr_int: self.src_addr_int,
            src_port: self.src_port,
            dst_addr: self.dst_addr.clone(),
            dst_addr_int: self.dst_addr_int,
            dst_port: self.dst_port,
            ipv4_protocol: self.ipv4_protocol,
            hash1: self.hash1,
            hash2: self.hash2,
        }
    }
}

/// Two flows are the same flow when their 7-tuples — addresses, ports,
/// protocol and the two hashes — agree.
pub open spec fn spec_same_flow(a: Flow, b: Flow) -> bool {
    &&& a.src_addr_int == b.src_addr_int
    &&& a.src_port == b.src_port
    &&& a.dst_addr_int == b.dst_addr_int
    &&& a.dst_port == b.dst_port
    &&& a.ipv4_protocol == b.ipv4_protocol
    &&& a.hash1 == b.hash1
    &&& a.hash2 == b.hash2
}

/// A well-formed flow: the address strings render the address values, and
/// the source port is nonzero (all-zero digests are never learned).
pub open spec fn spec_flow_wf(f: Flow) -> bool {
    &&& f.src_addr@ == spec_ipv4_string(f.src_addr_int)
    &&& f.dst_addr@ == spec_ipv4_string(f.dst_addr_int)
    &&& f.src_port != 0
}

impl Flow {
    /// Whether this and `other` are the same flow by 7-tuple.
    pub fn same_flow(&self, other: &Flow) -> (r: bool)
        ensures
            r == spec_same_flow(*self, *other),
    {
        self.src_addr_int == other.src_addr_int && self.src_port == other.src_port
            && self.dst_addr_int == other.dst_addr_int && self.dst_port == other.dst_port
            && self.ipv4_protocol == other.ipv4_protocol && self.hash1 == other.hash1
            && self.hash2 == other.hash2
    }
}

/// One record of a digest batch, as the data plane reports it.
#[derive(Clone, Copy, Debug, PartialEq, Eq, Structural)]
pub struct DigestEntry {
    pub src_addr: u32,
    pub src_port: u16,
    pub dst_addr: u32,
    pub dst_port: u16,
    pub ipv4_protocol: u8,
    pub hash1: u16,
    pub hash2: u16,
}

/// Whether `f` is the flow built from digest record `e`.
pub open spec fn spec_digest_matches(f: Flow, e: DigestEntry) -> bool {
    &&& f.src_addr_int == e.src_addr
    &&& f.src_addr@ == spec_ipv4_string(e.src_addr)
    &&& f.src_port == e.src_port
    &&& f.dst_addr_int == e.dst_addr
    &&& f.dst_addr@ == spec_ipv4_string(e.dst_addr)
    &&& f.dst_port == e.dst_port
    &&& f.ipv4_protocol == e.ipv4_protocol
    &&& f.hash1 == e.hash1
    &&& f.hash2 == e.hash2
}

impl Flow {
    /// The flow for one digest record, address strings rendered.
    pub fn from_digest(e: &DigestEntry) -> (f: Flow)
        requires
            e.src_port != 0,
        ensures
            spec_digest_matches(f, *e),
            spec_flow_wf(f),
    {
        Flow {
            src_addr: format_ipv4(e.src_addr),
            src_addr_int: e.src_addr,
            src_port: e.src_port,
            dst_addr: format_ipv4(e.dst_addr),
            dst_addr_int: e.dst_addr,
            dst_port: e.dst_port,
            ipv4_protocol: e.ipv4_protocol,
            hash1: e.hash1,
            hash2: e.hash2,
        }
    }
}

/// One pair of bloom-filter writes clearing a flow's two slots: write 0 to
/// filter 1 at `hash1` and to filter 2 at `hash2`.
#[derive(Clone, Copy, Debug, PartialEq, Eq, Structural)]
pub struct BloomFilterReset {
    pub hash1: u16,
    pub hash2: u16,
}

/// The bloom-filter writes clearing every flow of the sequence.
pub open spec fn spec_flow_resets(flows: Seq<Flow>) -> Seq<BloomFilterReset> {
    flows.map_values(|f: Flow| BloomFilterReset { hash1: f.hash1, hash2: f.hash2 })
}

/// The digest records with a nonzero source port, in order.
pub open spec fn spec_nonzero_entries(entries: Seq<DigestEntry>) -> Seq<DigestEntry>
    decreases entries.len(),
{
    if entries.len() == 0 {
        Seq::empty()
    } else {
        let rest = spec_nonzero_entries(entries.drop_last());
        if entries.last().src_port != 0 {
            rest.push(entries.last())
        } else {
            rest
        }
    }
}

/// How many arrivals a learner at `current` arrivals with cap `max` still
/// accepts out of `incoming` further arrivals.
pub open spec fn spec_accepted(current: int, max: int, incoming: int) -> int {
    if current >= max {
        0
    } else if incoming <= max - current {
        incoming
    } else {
        max - current
    }
}

/// A window of flow learning started on a port: the feature entry that was
/// installed, and how long to let it run before expiring it.
#[derive(Clone, Copy, Debug, PartialEq, Eq, Structural)]
pub struct FlowWindow {
    pub dev_port_ingress: u16,
    pub time_window_in_seconds: u32,
    pub feature_entry: FeatureEntry,
}

/// What expiring or stopping flow learning asks of the device: the feature
/// entries to delete and the bloom-filter slots to clear.
#[derive(Debug)]
pub struct FlowLearningStop {
    pub deleted_feature_handles: Vec<u32>,
    pub bloom_resets: Vec<BloomFilterReset>,
}

/// The flow learner.
pub struct FlowsManager {
    pub flowmanager_running: bool,
    pub max_number_of_flows: u16,
    pub current_number_of_flows: u16,
    pub learned_flows: Vec<Flow>,
}

impl FlowsManager {
    /// The learner's invariant: the set is within its cap, the arrival
    /// counter dominates the set size, and every kept flow is well-formed.
    pub open spec fn wf(self) -> bool {
        &&& self.learned_flows@.len() <= self.max_number_of_flows
        &&& self.current_number_of_flows >= self.learned_flows@.len()
        &&& forall|i: int|
            0 <= i < self.learned_flows@.len() ==> spec_flow_wf(#[trigger] self.learned_flows@[i])
    }

    /// A learner that is not running, with the default cap.
    pub fn init() -> (r: FlowsManager)
        ensures
            r.wf(),
            !r.flowmanager_running,
            r.max_number_of_flows == 100,
            r.current_number_of_flows == 0,
            r.learned_flows@ == Seq::<Flow>::empty(),
    {
        FlowsManager {
            flowmanager_running: false,
            max_number_of_flows: 100,
            current_number_of_flows: 0,
            learned_flows: Vec::new(),
        }
    }

    /// Starts a learning window on a port: sets the learner running with a
    /// fresh empty set and the given cap, enables the flows feature on the
    /// port, and hands back the window for the caller to expire after the
    /// given time. While a window is active this is a no-op: the second
    /// call changes nothing and starts nothing.
    pub fn set_flow_learning_for_time_window(
        &mut self,
        hw: &mut HWManager,
        features: &mut FeatureTable,
        chassis_port_ingress: u32,
        max_number_of_flows: u32,
        time_window_in_seconds: u32,
    ) -> (r: Option<FlowWindow>)
        requires
            old(self).wf(),
            old(features).next_entry_handle < 0xffff_ffffu32,
        ensures
            final(self).wf(),
            old(self).flowmanager_running ==> r is None && *final(self) == *old(self)
                && *final(features) == *old(features) && *final(hw) == *old(hw),
            !old(self).flowmanager_running ==> {
                let entry = FeatureEntry {
                    handle: old(features).next_entry_handle,
                    ingress_dev_port: old(hw).spec_dev_port_of(chassis_port_ingress) as u16,
                    hhd: false,
                    flows: true,
                };
                &&& r == Some(
                    FlowWindow {
                        dev_port_ingress: old(hw).spec_dev_port_of(chassis_port_ingress) as u16,
                        time_window_in_seconds,
                        feature_entry: entry,
                    },
                )
                &&& final(self).flowmanager_running
                &&& final(self).max_number_of_flows == max_number_of_flows as u16
                &&& final(self).current_number_of_flows == old(self).current_number_of_flows
                &&& final(self).learned_flows@ == Seq::<Flow>::empty()
                &&& final(features).entries@ == old(features).entries@.push(entry)
                &&& final(features).next_entry_handle == old(features).next_entry_handle + 1
                &&& final(hw).chassis_to_dev_port_map == old(hw).chassis_to_dev_port_map
                &&& final(hw).configured_ports == old(hw).configured_ports
            },
    {
        if self.flowmanager_running {
            return None;
        }
        self.flowmanager_running = true;
        self.learned_flows = Vec::new();
        self.max_number_of_flows = #[verifier::truncate] (max_number_of_flows as u16);
        let dev_port_ingress = hw.convert_chassis_port_to_dev_port(chassis_port_ingress);
        let dev_port = #[verifier::truncate] (dev_port_ingress as u16);
        let entry = features.add_entry(dev_port, false, true);
        Some(FlowWindow { dev_port_ingress: dev_port, time_window_in_seconds, feature_entry: entry })
    }

    /// Starts open-ended flow learning on a port: sets the learner running
    /// with a fresh set and the given cap unless it already runs, and
    /// enables the flows feature on the port either way.
    pub fn start_flow_learning(
        &mut self,
        hw: &mut HWManager,
        features: &mut FeatureTable,
        chassis_port_ingress: u32,
        max_number_of_flows: u16,
    ) -> (e: FeatureEntry)
        requires
            old(self).wf(),
            old(features).next_entry_handle < 0xffff_ffffu32,
        ensures
            final(self).wf(),
            e == (FeatureEntry {
                handle: old(features).next_entry_handle,
                ingress_dev_port: old(hw).spec_dev_port_of(chassis_port_ingress) as u16,
                hhd: false,
                flows: true,
            }),
            final(features).entries@ == old(features).entries@.push(e),
            final(features).next_entry_handle == old(features).next_entry_handle + 1,
            final(hw).chassis_to_dev_port_map == old(hw).chassis_to_dev_port_map,
            final(hw).configured_ports == old(hw).configured_ports,
            final(self).flowmanager_running,
            old(self).flowmanager_running ==> *final(self) == *old(self),
            !old(self).flowmanager_running ==> final(self).max_number_of_flows
                == max_number_of_flows && final(self).learned_flows@ == Seq::<Flow>::empty()
                && final(self).current_number_of_flows == old(self).current_number_of_flows,
    {
        if !self.flowmanager_running {
            self.flowmanager_running = true;
            self.learned_flows = Vec::new();
            self.max_number_of_flows = max_number_of_flows;
        }
        let dev_port_ingress = hw.convert_chassis_port_to_dev_port(chassis_port_ingress);
        let dev_port = #[verifier::truncate] (dev_port_ingress as u16);
        features.add_entry(dev_port, false, true)
    }

    /// Stops flow learning: clears the feature table, clears every learned
    /// flow's bloom-filter slots, discards the learned set, zeroes the
    /// arrival counter and stops the learner. The expiry of a window does
    /// exactly this.
    pub fn stop_flow_learning(&mut self, features: &mut FeatureTable) -> (r: FlowLearningStop)
        requires
            old(self).wf(),
        ensures
            final(self).wf(),
            r.deleted_feature_handles@ == old(features).entries@.map_values(
                |e: FeatureEntry| e.handle,
            ),
            final(features).entries@ == Seq::<FeatureEntry>::empty(),
            final(features).next_entry_handle == old(features).next_entry_handle,
            r.bloom_resets@ == spec_flow_resets(old(self).learned_flows@),
            !final(self).flowmanager_running,
            final(self).current_number_of_flows == 0,
            final(self).learned_flows@ == Seq::<Flow>::empty(),
            final(self).max_number_of_flows == old(self).max_number_of_flows,
    {
        let deleted_feature_handles = self.reset_flows_table(features);
        let bloom_resets = self.reset_learned_flows();
        self.flowmanager_running = false;
        FlowLearningStop { deleted_feature_handles, bloom_resets }
    }

    /// A copy of the learned set, in learning order.
    pub fn get_learned_flows(&self) -> (r: Vec<Flow>)
        ensures
            r@ == self.learned_flows@,
    {
        let mut out: Vec<Flow> = Vec::new();
        let n = self.learned_flows.len();
        let mut i: usize = 0;
        while i < n
            invariant
                n == self.learned_flows@.len(),
                0 <= i <= n,
                out@ == self.learned_flows@.take(i as int),
            decreases n - i,
        {
            out.push(self.learned_flows[i].clone());
            proof {
                assert(out@ =~= self.learned_flows@.take(i + 1));
            }
            i = i + 1;
        }
        proof {
            assert(self.learned_flows@.take(n as int) =~= self.learned_flows@);
        }
        out
    }

    /// Takes the learned set: returns the flows and the bloom-filter writes
    /// clearing each of them, leaves the set empty and the arrival counter
    /// at zero. The cap and the running state stay.
    pub fn get_learned_flows_and_reset(&mut self) -> (r: (Vec<Flow>, Vec<BloomFilterReset>))
        requires
            old(self).wf(),
        ensures
            final(self).wf(),
            r.0@ == old(self).learned_flows@,
            r.1@ == spec_flow_resets(old(self).learned_flows@),
            final(self).learned_flows@ == Seq::<Flow>::empty(),
            final(self).current_number_of_flows == 0,
            final(self).max_number_of_flows == old(self).max_number_of_flows,
            final(self).flowmanager_running == old(self).flowmanager_running,
    {
        let flows = self.get_learned_flows();
        let resets = self.reset_learned_flows();
        (flows, resets)
    }

    /// The arrival counter: every arrival seen this window, dropped ones
    /// included.
    pub fn get_current_number_of_flows(&self) -> (r: u16)
        ensures
            r == self.current_number_of_flows,
    {
        self.current_number_of_flows
    }

    /// Clears every learned flow's bloom-filter slots, discards the set and
    /// zeroes the arrival counter.
    pub fn reset_learned_flows(&mut self) -> (resets: Vec<BloomFilterReset>)
        requires
            old(self).wf(),
        ensures
            final(self).wf(),
            resets@ == spec_flow_resets(old(self).learned_flows@),
            final(self).learned_flows@ == Seq::<Flow>::empty(),
            final(self).current_number_of_flows == 0,
            final(self).max_number_of_flows == old(self).max_number_of_flows,
            final(self).flowmanager_running == old(self).flowmanager_running,
    {
        let mut resets: Vec<BloomFilterReset> = Vec::new();
        let n = self.learned_flows.len();
        let mut i: usize = 0;
        while i < n
            invariant
                n == self.learned_flows@.len(),
                0 <= i <= n,
                resets@ == spec_flow_resets(self.learned_flows@.take(i as int)),
            decreases n - i,
        {
            let f = &self.learned_flows[i];
            resets.push(BloomFilterReset { hash1: f.hash1, hash2: f.hash2 });
            proof {
                assert(resets@ =~= spec_flow_resets(self.learned_flows@.take(i + 1)));
            }
            i = i + 1;
        }
        proof {
            assert(self.learned_flows@.take(n as int) =~= self.learned_flows@);
        }
        self.learned_flows = Vec::new();
        self.current_number_of_flows = 0;
        resets
    }

    /// Counts one arrival; keeps the flow only while the arrival counter is
    /// within the cap.
    pub fn add_learned_flow(&mut self, flow: Flow)
        requires
            old(self).wf(),
            spec_flow_wf(flow),
            old(self).current_number_of_flows < 65535,
        ensures
            final(self).wf(),
            final(self).current_number_of_flows == old(self).current_number_of_flows + 1,
            old(self).current_number_of_flows + 1 <= old(self).max_number_of_flows
                ==> final(self).learned_flows@ == old(self).learned_flows@.push(flow),
            old(self).current_number_of_flows + 1 > old(self).max_number_of_flows
                ==> final(self).learned_flows == old(self).learned_flows,
            final(self).max_number_of_flows == old(self).max_number_of_flows,
            final(self).flowmanager_running == old(self).flowmanager_running,
    {
        self.current_number_of_flows = self.current_number_of_flows + 1;
        if self.current_number_of_flows <= self.max_number_of_flows {
            self.learned_flows.push(flow);
        }
    }

    /// Consumes one digest batch: every record with a nonzero source port
    /// counts as an arrival and is kept while the arrival counter is within
    /// the cap; all-zero records are dropped unseen. So the learner keeps
    /// exactly the first accepted records, in digest order.
    pub fn ingest_digest(&mut self, batch: &Vec<DigestEntry>)
        requires
            old(self).wf(),
            old(self).current_number_of_flows + batch@.len() <= 65535,
        ensures
            final(self).wf(),
            final(self).current_number_of_flows == old(self).current_number_of_flows
                + spec_nonzero_entries(batch@).len(),
            final(self).learned_flows@.len() == old(self).learned_flows@.len() + spec_accepted(
                old(self).current_number_of_flows as int,
                old(self).max_number_of_flows as int,
                spec_nonzero_entries(batch@).len() as int,
            ),
            forall|i: int|
                0 <= i < old(self).learned_flows@.len()
                    ==> final(self).learned_flows@[i] == old(self).learned_flows@[i],
            forall|k: int|
                old(self).learned_flows@.len() <= k < final(self).learned_flows@.len()
                    ==> spec_digest_matches(
                    #[trigger] final(self).learned_flows@[k],
                    spec_nonzero_entries(batch@)[k - old(self).learned_flows@.len()],
                ),
            final(self).max_number_of_flows == old(self).max_number_of_flows,
            final(self).flowmanager_running == old(self).flowmanager_running,
    {
        let ghost c0 = old(self).current_number_of_flows as int;
        let ghost max0 = old(self).max_number_of_flows as int;
        let ghost len0 = old(self).learned_flows@.len() as int;
        let n = batch.len();
        let mut i: usize = 0;
        while i < n
            invariant
                n == batch@.len(),
                0 <= i <= n,
                self.wf(),
                c0 == old(self).current_number_of_flows as int,
                max0 == old(self).max_number_of_flows as int,
                len0 == old(self).learned_flows@.len() as int,
                self.max_number_of_flows == old(self).max_number_of_flows,
                self.flowmanager_running == old(self).flowmanager_running,
                self.current_number_of_flows as int == c0 + spec_nonzero_entries(
                    batch@.take(i as int),
                ).len(),
                c0 + batch@.len() <= 65535,
                self.learned_flows@.len() == len0 + spec_accepted(
                    c0,
                    max0,
                    spec_nonzero_entries(batch@.take(i as int)).len() as int,
                ),
                forall|j: int| 0 <= j < len0 ==> self.learned_flows@[j] == old(self).learned_flows@[j],
                forall|k: int|
                    len0 <= k < self.learned_flows@.len() ==> spec_digest_matches(
                        #[trigger] self.learned_flows@[k],
                        spec_nonzero_entries(batch@.take(i as int))[k - len0],
                    ),
            decreases n - i,
        {
            let e = batch[i];
            proof {
                assert(batch@.take(i + 1).drop_last() =~= batch@.take(i as int));
                assert(batch@.take(i + 1).last() == e);
                assert(spec_nonzero_entries(batch@.take(i as int)).len() <= batch@.take(
                    i as int,
                ).len()) by {
                    lemma_nonzero_entries_len(batch@.take(i as int));
                }
            }
            if e.src_port != 0 {
                let flow = Flow::from_digest(&e);
                let ghost nz_before = spec_nonzero_entries(batch@.take(i as int));
                self.add_learned_flow(flow);
                proof {
                    assert(spec_nonzero_entries(batch@.take(i + 1)) == nz_before.push(e));
                    assert(spec_nonzero_entries(batch@.take(i + 1))[nz_before.len() as int] == e);
                    assert(forall|k: int|
                        0 <= k < nz_before.len() ==> spec_nonzero_entries(batch@.take(i + 1))[k]
                            == nz_before[k]);
                }
            } else {
                proof {
                    assert(spec_nonzero_entries(batch@.take(i + 1)) == spec_nonzero_entries(
                        batch@.take(i as int),
                    ));
                }
            }
            i = i + 1;
        }
        proof {
            assert(batch@.take(n as int) =~= batch@);
        }
    }

    /// Clears the feature table, stopping what the data plane extracts for
    /// flow learning; every feature entry goes, whichever feature it
    /// enabled.
    pub fn reset_flows_table(&mut self, features: &mut FeatureTable) -> (deleted: Vec<u32>)
        ensures
            *final(self) == *old(self),
            final(features).entries@ == Seq::<FeatureEntry>::empty(),
            deleted@ == old(features).entries@.map_values(|e: FeatureEntry| e.handle),
            final(features).next_entry_handle == old(features).next_entry_handle,
    {
        features.delete_all()
    }
}

/// The bloom-filter writes produced when flows are dropped cover every
/// flow: one write pair per flow, at exactly the flow's two hash indices.
pub proof fn lemma_flow_resets_cover(flows: Seq<Flow>)
    ensures
        spec_flow_resets(flows).len() == flows.len(),
        forall|i: int|
            0 <= i < flows.len() ==> (#[trigger] spec_flow_resets(flows)[i]).hash1 == flows[i].hash1
                && spec_flow_resets(flows)[i].hash2 == flows[i].hash2,
{
}

/// The nonzero records of a batch are no more numerous than the batch.
pub proof fn lemma_nonzero_entries_len(entries: Seq<DigestEntry>)
    ensures
        spec_nonzero_entries(entries).len() <= entries.len(),
    decreases entries.len(),
{
    if entries.len() > 0 {
        lemma_nonzero_entries_len(entries.drop_last());
    }
}

} // verus!
