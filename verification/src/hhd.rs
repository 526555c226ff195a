//! Heavy-hitter detection: a periodic picker reads each learned flow's two
//! hash counters, scores the flow with the smaller of the two packet
//! counts, elects the highest score, and drives a high-priority divert
//! for the elected flow.

use crate::features::FeatureEntry;
use crate::features::FeatureTable;
use crate::flows::BloomFilterReset;
use crate::flows::Flow;
use crate::flows::FlowLearningStop;
use crate::flows::FlowsManager;
use crate::flows::spec_flow_resets;
use crate::flows::spec_same_flow;
use crate::hw::HWManager;
use crate::ip::lemma_ipv4_of;
use crate::ip::spec_dec;
use crate::ip::spec_mask;
use crate::l2::DivertEntry;
use crate::l2::DivertRemoval;
use crate::l2::DivertType;
use crate::l2::L2Manager;
use crate::l2::spec_auto_count;
use crate::l2::spec_auto_unique;
use crate::l2::spec_divert_entry;
use crate::l2::spec_pair_handles;
use crate::l2::spec_divert_type_name;
use crate::l2::spec_remove_pair;
use crate::l2::lemma_auto_install_after_selective_reset;
use crate::label::spec_label_divert_line;
use crate::label::spec_label_reset_ingress_egress_line;
use crate::label::LabelingManager;
use vstd::prelude::*;

verus! {

use vstd::pervasive::unreached;

/// One pair of counter writes zeroing a flow's two packet counters, at
/// `hash1` in the first counter array and `hash2` in the second.
#[derive(Clone, Copy, Debug, PartialEq, Eq, Structural)]
pub struct CounterReset {
    pub hash1: u16,
    pub hash2: u16,
}

/// The counter writes zeroing every flow of the sequence.
pub open spec fn spec_counter_resets(flows: Seq<Flow>) -> Seq<CounterReset> {
    flows.map_values(|f: Flow| CounterReset { hash1: f.hash1, hash2: f.hash2 })
}

/// The two hardware-synced packet counts read for one flow.
#[derive(Clone, Copy, Debug, PartialEq, Eq, Structural)]
pub struct CounterPair {
    pub packets_hash1: u64,
    pub packets_hash2: u64,
}

/// A flow's score: the smaller of its two packet counts, which suppresses
/// hash collisions in the count-min style.
pub open spec fn spec_score(c: CounterPair) -> u64 {
    if c.packets_hash1 <= c.packets_hash2 {
        c.packets_hash1
    } else {
        c.packets_hash2
    }
}

pub open spec fn spec_scores(counts: Seq<CounterPair>) -> Seq<u64> {
    counts.map_values(|c: CounterPair| spec_score(c))
}

/// The election: the running maximum and the index that set it. A score
/// must strictly beat the running maximum to take the election, so the
/// first of equals wins and a zero score is never elected.
pub open spec fn spec_elect(scores: Seq<u64>) -> (u64, Option<int>)
    decreases scores.len(),
{
    if scores.len() == 0 {
        (0u64, None::<int>)
    } else {
        let prev = spec_elect(scores.drop_last());
        if scores.last() > prev.0 {
            (scores.last(), Some(scores.len() - 1))
        } else {
            prev
        }
    }
}

/// What the election returns: the elected index carries the maximal score,
/// strictly beats everything before it, and is positive; no election means
/// every score is zero.
pub proof fn lemma_elect_properties(scores: Seq<u64>)
    ensures
        match spec_elect(scores).1 {
            Some(i) => {
                &&& 0 <= i < scores.len()
                &&& scores[i] == spec_elect(scores).0
                &&& scores[i] > 0
                &&& forall|j: int| 0 <= j < i ==> scores[j] < scores[i]
                &&& forall|j: int| 0 <= j < scores.len() ==> scores[j] <= scores[i]
            },
            None => {
                &&& spec_elect(scores).0 == 0
                &&& forall|j: int| 0 <= j < scores.len() ==> scores[j] == 0
            },
        },
    decreases scores.len(),
{
    if scores.len() > 0 {
        lemma_elect_properties(scores.drop_last());
        assert(forall|j: int| 0 <= j < scores.len() - 1 ==> scores[j] == scores.drop_last()[j]);
    }
}

/// The heavy-hitter controller's state.
pub struct HHDManager {
    pub max_number_of_flows: u16,
    pub analysis_window_in_seconds: u16,
    pub last_heavy_flow: Option<Flow>,
    pub divert_on: bool,
    pub divert_type: DivertType,
    pub divert_ingress_port: u32,
    pub divert_egress_port: u32,
}

/// What a table reset asks of the device, and what it removed.
#[derive(Debug)]
pub struct HhdTableReset {
    pub deleted_feature_handles: Vec<u32>,
    pub divert_removal: Option<DivertRemoval>,
}

/// Everything a full controller reset asks of the device.
#[derive(Debug)]
pub struct HhdReset {
    pub table: HhdTableReset,
    pub counter_resets: Vec<CounterReset>,
    pub flow_stop: FlowLearningStop,
}

impl HHDManager {
    /// A controller with diversion off and no elected flow. The divert
    /// ports start at a placeholder value no real port uses.
    pub fn init(max_number_of_flows: u16, analysis_window_in_seconds: u16) -> (r: HHDManager)
        ensures
            r.max_number_of_flows == max_number_of_flows,
            r.analysis_window_in_seconds == analysis_window_in_seconds,
            r.last_heavy_flow is None,
            !r.divert_on,
            r.divert_type == DivertType::IPSrc,
            r.divert_ingress_port == 999,
            r.divert_egress_port == 999,
    {
        HHDManager {
            max_number_of_flows,
            analysis_window_in_seconds,
            last_heavy_flow: None,
            divert_on: false,
            divert_type: DivertType::IPSrc,
            divert_ingress_port: 999,
            divert_egress_port: 999,
        }
    }

    /// Enables heavy-hitter detection on a port: starts flow learning with
    /// the controller's cap and adds the detection feature entry for the
    /// port. Returns the flow-learning entry and the detection entry.
    pub fn set_hhd(
        &self,
        flows: &mut FlowsManager,
        hw: &mut HWManager,
        features: &mut FeatureTable,
        chassis_port_ingress: u32,
    ) -> (entries: (FeatureEntry, FeatureEntry))
        requires
            old(flows).wf(),
            old(features).next_entry_handle < 0xffff_fffeu32,
        ensures
            final(flows).wf(),
            entries.0 == (FeatureEntry {
                handle: old(features).next_entry_handle,
                ingress_dev_port: old(hw).spec_dev_port_of(chassis_port_ingress) as u16,
                hhd: false,
                flows: true,
            }),
            entries.1 == (FeatureEntry {
                handle: (old(features).next_entry_handle + 1) as u32,
                ingress_dev_port: old(hw).spec_dev_port_of(chassis_port_ingress) as u16,
                hhd: true,
                flows: false,
            }),
            final(features).entries@ == old(features).entries@.push(entries.0).push(entries.1),
            final(features).next_entry_handle == old(features).next_entry_handle + 2,
            final(hw).chassis_to_dev_port_map == old(hw).chassis_to_dev_port_map,
            final(hw).configured_ports == old(hw).configured_ports,
            final(flows).flowmanager_running,
            old(flows).flowmanager_running ==> *final(flows) == *old(flows),
            !old(flows).flowmanager_running ==> final(flows).max_number_of_flows
                == self.max_number_of_flows && final(flows).learned_flows@ == Seq::<Flow>::empty()
                && final(flows).current_number_of_flows == old(flows).current_number_of_flows,
    {
        let first = flows.start_flow_learning(
            hw,
            features,
            chassis_port_ingress,
            self.max_number_of_flows,
        );
        let dev_port_ingress = hw.convert_chassis_port_to_dev_port(chassis_port_ingress);
        let dev_port = #[verifier::truncate] (dev_port_ingress as u16);
        let second = features.add_entry(dev_port, true, false);
        (first, second)
    }

    /// Turns automatic diversion on, steering the elected flow from one
    /// port to the other.
    pub fn run_hhd_divert(
        &mut self,
        divert_ingress: u32,
        divert_egress: u32,
        divert_type: DivertType,
    )
        ensures
            final(self).divert_on,
            final(self).divert_type == divert_type,
            final(self).divert_ingress_port == divert_ingress,
            final(self).divert_egress_port == divert_egress,
            final(self).max_number_of_flows == old(self).max_number_of_flows,
            final(self).analysis_window_in_seconds == old(self).analysis_window_in_seconds,
            final(self).last_heavy_flow == old(self).last_heavy_flow,
    {
        self.divert_on = true;
        self.divert_type = divert_type;
        self.divert_ingress_port = divert_ingress;
        self.divert_egress_port = divert_egress;
    }

    /// The counter writes zeroing every currently learned flow's counters;
    /// forgets the elected flow.
    pub fn reset_counters(&mut self, flows: &FlowsManager) -> (r: Vec<CounterReset>)
        ensures
            r@ == spec_counter_resets(flows.learned_flows@),
            final(self).last_heavy_flow is None,
            final(self).max_number_of_flows == old(self).max_number_of_flows,
            final(self).analysis_window_in_seconds == old(self).analysis_window_in_seconds,
            final(self).divert_on == old(self).divert_on,
            final(self).divert_type == old(self).divert_type,
            final(self).divert_ingress_port == old(self).divert_ingress_port,
            final(self).divert_egress_port == old(self).divert_egress_port,
    {
        let mut resets: Vec<CounterReset> = Vec::new();
        let n = flows.learned_flows.len();
        let mut i: usize = 0;
        while i < n
            invariant
                n == flows.learned_flows@.len(),
                0 <= i <= n,
                resets@ == spec_counter_resets(flows.learned_flows@.take(i as int)),
            decreases n - i,
        {
            let f = &flows.learned_flows[i];
            resets.push(CounterReset { hash1: f.hash1, hash2: f.hash2 });
            proof {
                assert(resets@ =~= spec_counter_resets(flows.learned_flows@.take(i + 1)));
            }
            i = i + 1;
        }
        proof {
            assert(flows.learned_flows@.take(n as int) =~= flows.learned_flows@);
        }
        self.last_heavy_flow = None;
        resets
    }

    /// Clears the feature table; when diversion is on, turns it off and
    /// removes the automatic divert rules on the controller's pair.
    pub fn reset_hhd_table(
        &mut self,
        hw: &mut HWManager,
        l2: &mut L2Manager,
        labeling: &LabelingManager,
        features: &mut FeatureTable,
    ) -> (r: HhdTableReset)
        ensures
            final(features).entries@ == Seq::<FeatureEntry>::empty(),
            r.deleted_feature_handles@ == old(features).entries@.map_values(
                |e: FeatureEntry| e.handle,
            ),
            final(features).next_entry_handle == old(features).next_entry_handle,
            !final(self).divert_on,
            final(self).max_number_of_flows == old(self).max_number_of_flows,
            final(self).analysis_window_in_seconds == old(self).analysis_window_in_seconds,
            final(self).last_heavy_flow == old(self).last_heavy_flow,
            final(self).divert_type == old(self).divert_type,
            final(self).divert_ingress_port == old(self).divert_ingress_port,
            final(self).divert_egress_port == old(self).divert_egress_port,
            !old(self).divert_on ==> *final(l2) == *old(l2) && *final(hw) == *old(hw)
                && r.divert_removal is None,
            old(self).divert_on ==> {
                let di = old(hw).spec_dev_port_of(old(self).divert_ingress_port) as u16;
                let de = old(hw).spec_dev_port_of(old(self).divert_egress_port) as u16;
                &&& final(l2).divert_entries@ == spec_remove_pair(
                    old(l2).divert_entries@,
                    di,
                    de,
                )
                &&& final(l2).forward_entries == old(l2).forward_entries
                &&& final(l2).next_entry_handle == old(l2).next_entry_handle
                &&& r.divert_removal is Some
                &&& r.divert_removal.unwrap().deleted_handles@ == spec_pair_handles(
                    old(l2).divert_entries@,
                    di,
                    de,
                )
                &&& final(hw).chassis_to_dev_port_map == old(hw).chassis_to_dev_port_map
                &&& final(hw).configured_ports == old(hw).configured_ports
            },
            spec_auto_unique(old(l2).divert_entries@) ==> spec_auto_unique(
                final(l2).divert_entries@,
            ),
    {
        let deleted_feature_handles = features.delete_all();
        let divert_removal = if self.divert_on {
            self.divert_on = false;
            let removal = l2.reset_divert_for_ingress_egress_port(
                hw,
                labeling,
                self.divert_ingress_port,
                self.divert_egress_port,
            );
            proof {
                if spec_auto_unique(old(l2).divert_entries@) {
                    crate::l2::lemma_remove_pair_preserves_auto_unique(
                        old(l2).divert_entries@,
                        old(hw).spec_dev_port_of(old(self).divert_ingress_port) as u16,
                        old(hw).spec_dev_port_of(old(self).divert_egress_port) as u16,
                    );
                }
            }
            Some(removal)
        } else {
            None
        };
        HhdTableReset { deleted_feature_handles, divert_removal }
    }

    /// Full controller reset: clears the feature table and any automatic
    /// divert, zeroes the counters of every flow learned at this point,
    /// forgets the elected flow, and stops flow learning — clearing the
    /// learned flows' bloom-filter slots and discarding the set.
    pub fn reset_hhd(
        &mut self,
        flows: &mut FlowsManager,
        hw: &mut HWManager,
        l2: &mut L2Manager,
        labeling: &LabelingManager,
        features: &mut FeatureTable,
    ) -> (r: HhdReset)
        requires
            old(flows).wf(),
        ensures
            final(flows).wf(),
            final(features).entries@ == Seq::<FeatureEntry>::empty(),
            r.counter_resets@ == spec_counter_resets(old(flows).learned_flows@),
            r.flow_stop.bloom_resets@ == spec_flow_resets(old(flows).learned_flows@),
            final(self).last_heavy_flow is None,
            !final(self).divert_on,
            !final(flows).flowmanager_running,
            final(flows).learned_flows@ == Seq::<Flow>::empty(),
            final(flows).current_number_of_flows == 0,
            !old(self).divert_on ==> *final(l2) == *old(l2),
            old(self).divert_on ==> final(l2).divert_entries@ == spec_remove_pair(
                old(l2).divert_entries@,
                old(hw).spec_dev_port_of(old(self).divert_ingress_port) as u16,
                old(hw).spec_dev_port_of(old(self).divert_egress_port) as u16,
            ) && final(l2).forward_entries == old(l2).forward_entries,
            spec_auto_unique(old(l2).divert_entries@) ==> spec_auto_unique(
                final(l2).divert_entries@,
            ),
    {
        let table = self.reset_hhd_table(hw, l2, labeling, features);
        let counter_resets = self.reset_counters(flows);
        let flow_stop = flows.stop_flow_learning(features);
        HhdReset { table, counter_resets, flow_stop }
    }
}

/// What one picker tick asks of the device: the divert handles it removed,
/// the divert entry it installed, the labels for both, and the drained
/// flows with their bloom-filter and counter resets.
#[derive(Debug)]
pub struct PickOutcome {
    pub removed_divert_handles: Vec<u32>,
    pub installed_divert: Option<DivertEntry>,
    pub reset_label: Option<String>,
    pub divert_label: Option<String>,
    pub drained_flows: Vec<Flow>,
    pub bloom_resets: Vec<BloomFilterReset>,
    pub counter_resets: Vec<CounterReset>,
}

/// The address a divert for this flow matches on.
pub open spec fn spec_divert_addr(divert_type: DivertType, f: Flow) -> u32 {
    match divert_type {
        DivertType::IPSrc => f.src_addr_int,
        DivertType::IPDest => f.dst_addr_int,
    }
}

/// The address string a divert for this flow is labeled with.
pub open spec fn spec_divert_addr_string(divert_type: DivertType, f: Flow) -> Seq<char> {
    match divert_type {
        DivertType::IPSrc => f.src_addr@,
        DivertType::IPDest => f.dst_addr@,
    }
}

/// One picker tick.
///
/// With diversion off, nothing happens. Otherwise `counts[i]` holds the two
/// packet counts read for the i-th learned flow; the flow with the highest
/// score — the smaller of its two counts — is elected, first of equals
/// winning and all-zero scores electing nobody. A newly elected flow (by
/// 7-tuple, against the previous election) replaces the automatic divert:
/// the rules on the controller's pair are removed and one high-priority
/// rule matching the elected flow's address with a full mask is installed.
/// Whatever the election, the learned set is drained, with the bloom-filter
/// and counter writes that clear every drained flow.
///
/// A divert table with at most one automatic rule per port pair keeps that
/// property across every tick.
pub fn pick_hhd(
    hhd: &mut HHDManager,
    flows: &mut FlowsManager,
    l2: &mut L2Manager,
    hw: &mut HWManager,
    labeling: &LabelingManager,
    counts: &Vec<CounterPair>,
) -> (r: PickOutcome)
    requires
        old(flows).wf(),
        old(hhd).divert_on ==> counts@.len() == old(flows).learned_flows@.len(),
        old(l2).next_entry_handle < 0xffff_ffffu32,
    ensures
        final(flows).wf(),
        final(hhd).max_number_of_flows == old(hhd).max_number_of_flows,
        final(hhd).analysis_window_in_seconds == old(hhd).analysis_window_in_seconds,
        final(hhd).divert_on == old(hhd).divert_on,
        final(hhd).divert_type == old(hhd).divert_type,
        final(hhd).divert_ingress_port == old(hhd).divert_ingress_port,
        final(hhd).divert_egress_port == old(hhd).divert_egress_port,
        spec_auto_unique(old(l2).divert_entries@) ==> spec_auto_unique(final(l2).divert_entries@),
        !old(hhd).divert_on ==> *final(hhd) == *old(hhd) && *final(flows) == *old(flows)
            && *final(l2) == *old(l2) && *final(hw) == *old(hw) && r.installed_divert is None
            && r.removed_divert_handles@ == Seq::<u32>::empty() && r.reset_label is None
            && r.divert_label is None && r.drained_flows@ == Seq::<Flow>::empty()
            && r.bloom_resets@ == Seq::<BloomFilterReset>::empty() && r.counter_resets@ == Seq::<
            CounterReset,
        >::empty(),
        old(hhd).divert_on ==> {
            let elected = spec_elect(spec_scores(counts@)).1;
            &&& r.drained_flows@ == old(flows).learned_flows@
            &&& r.bloom_resets@ == spec_flow_resets(old(flows).learned_flows@)
            &&& r.counter_resets@ == spec_counter_resets(old(flows).learned_flows@)
            &&& final(flows).learned_flows@ == Seq::<Flow>::empty()
            &&& final(flows).current_number_of_flows == 0
            &&& final(flows).max_number_of_flows == old(flows).max_number_of_flows
            &&& final(flows).flowmanager_running == old(flows).flowmanager_running
            &&& final(hw).chassis_to_dev_port_map == old(hw).chassis_to_dev_port_map
            &&& final(hw).configured_ports == old(hw).configured_ports
            &&& final(l2).forward_entries == old(l2).forward_entries
            &&& (elected is None ==> *final(l2) == *old(l2) && final(hhd).last_heavy_flow == old(
                hhd,
            ).last_heavy_flow && r.installed_divert is None && r.removed_divert_handles@ == Seq::<
                u32,
            >::empty() && r.reset_label is None && r.divert_label is None)
            &&& (elected is Some ==> {
                let f = old(flows).learned_flows@[elected.unwrap()];
                &&& 0 <= elected.unwrap() < old(flows).learned_flows@.len()
                &&& final(hhd).last_heavy_flow == Some(f)
                &&& ((old(hhd).last_heavy_flow is Some && spec_same_flow(
                    old(hhd).last_heavy_flow.unwrap(),
                    f,
                )) ==> *final(l2) == *old(l2) && r.installed_divert is None
                    && r.removed_divert_handles@ == Seq::<u32>::empty() && r.reset_label is None
                    && r.divert_label is None)
                &&& ((old(hhd).last_heavy_flow is None || !spec_same_flow(
                    old(hhd).last_heavy_flow.unwrap(),
                    f,
                )) ==> {
                    let di = old(hw).spec_dev_port_of(old(hhd).divert_ingress_port) as u16;
                    let de = old(hw).spec_dev_port_of(old(hhd).divert_egress_port) as u16;
                    let entry = spec_divert_entry(
                        old(l2).next_entry_handle,
                        old(hhd).divert_type,
                        di,
                        de,
                        spec_divert_addr(old(hhd).divert_type, f),
                        spec_mask(32),
                        true,
                    );
                    &&& final(l2).divert_entries@ == spec_remove_pair(
                        old(l2).divert_entries@,
                        di,
                        de,
                    ).push(entry)
                    &&& r.removed_divert_handles@ == spec_pair_handles(
                        old(l2).divert_entries@,
                        di,
                        de,
                    )
                    &&& r.installed_divert == Some(entry)
                    &&& final(l2).next_entry_handle == old(l2).next_entry_handle + 1
                    &&& (spec_auto_unique(old(l2).divert_entries@) ==> spec_auto_count(
                        final(l2).divert_entries@,
                        di,
                        de,
                    ) <= 1)
                    &&& (labeling.labeling_on ==> r.reset_label is Some
                        && r.reset_label.unwrap()@ == spec_label_reset_ingress_egress_line(
                        old(hhd).divert_ingress_port,
                        old(hhd).divert_egress_port,
                    ) && r.divert_label is Some && r.divert_label.unwrap()@
                        == spec_label_divert_line(
                        spec_divert_type_name(old(hhd).divert_type),
                        old(hhd).divert_ingress_port,
                        old(hhd).divert_egress_port,
                        spec_divert_addr_string(old(hhd).divert_type, f) + "/"@ + spec_dec(
                            32 as nat,
                        ),
                    ))
                    &&& (!labeling.labeling_on ==> r.reset_label is None
                        && r.divert_label is None)
                })
            })
        },
{
    if !hhd.divert_on {
        return PickOutcome {
            removed_divert_handles: Vec::new(),
            installed_divert: None,
            reset_label: None,
            divert_label: None,
            drained_flows: Vec::new(),
            bloom_resets: Vec::new(),
            counter_resets: Vec::new(),
        };
    }
    let learned = flows.get_learned_flows();
    let ghost scores = spec_scores(counts@);
    let n = learned.len();
    let mut largest: u64 = 0;
    let mut largest_idx: Option<usize> = None;
    let mut i: usize = 0;
    while i < n
        invariant
            n == learned@.len(),
            counts@.len() == n,
            scores == spec_scores(counts@),
            0 <= i <= n,
            largest == spec_elect(scores.take(i as int)).0,
            match largest_idx {
                Some(ix) => ix < i && spec_elect(scores.take(i as int)).1 == Some(ix as int),
                None => spec_elect(scores.take(i as int)).1 is None,
            },
        decreases n - i,
    {
        let c = counts[i];
        let score = if c.packets_hash1 <= c.packets_hash2 {
            c.packets_hash1
        } else {
            c.packets_hash2
        };
        proof {
            assert(scores.take(i + 1).drop_last() =~= scores.take(i as int));
            assert(scores.take(i + 1).last() == spec_score(c));
        }
        if score > largest {
            largest = score;
            largest_idx = Some(i);
        }
        i = i + 1;
    }
    proof {
        assert(scores.take(n as int) =~= scores);
    }
    let mut removed_divert_handles: Vec<u32> = Vec::new();
    let mut installed_divert: Option<DivertEntry> = None;
    let mut reset_label: Option<String> = None;
    let mut divert_label: Option<String> = None;
    if let Some(ix) = largest_idx {
        let need_install = match &hhd.last_heavy_flow {
            None => true,
            Some(last) => !last.same_flow(&learned[ix]),
        };
        if need_install {
            let removal = l2.reset_divert_for_ingress_egress_port(
                hw,
                labeling,
                hhd.divert_ingress_port,
                hhd.divert_egress_port,
            );
            removed_divert_handles = removal.deleted_handles;
            reset_label = removal.label;
            let address = match hhd.divert_type {
                DivertType::IPSrc => learned[ix].src_addr.clone(),
                DivertType::IPDest => learned[ix].dst_addr.clone(),
            };
            proof {
                lemma_ipv4_of(address@);
            }
            let install = match l2.set_divert(
                hw,
                labeling,
                hhd.divert_type,
                hhd.divert_ingress_port,
                hhd.divert_egress_port,
                &address,
                32,
                true,
            ) {
                Ok(install) => install,
                Err(_) => unreached(),
            };
            installed_divert = Some(install.entry);
            divert_label = install.label;
            proof {
                if spec_auto_unique(old(l2).divert_entries@) {
                    lemma_auto_install_after_selective_reset(
                        old(l2).divert_entries@,
                        old(hw).spec_dev_port_of(old(hhd).divert_ingress_port) as u16,
                        old(hw).spec_dev_port_of(old(hhd).divert_egress_port) as u16,
                        install.entry,
                    );
                }
            }
        }
        hhd.last_heavy_flow = Some(learned[ix].clone());
    }
    let (drained_flows, bloom_resets) = flows.get_learned_flows_and_reset();
    let mut counter_resets: Vec<CounterReset> = Vec::new();
    let m = drained_flows.len();
    let mut k: usize = 0;
    while k < m
        invariant
            m == drained_flows@.len(),
            0 <= k <= m,
            counter_resets@ == spec_counter_resets(drained_flows@.take(k as int)),
        decreases m - k,
    {
        let f = &drained_flows[k];
        counter_resets.push(CounterReset { hash1: f.hash1, hash2: f.hash2 });
        proof {
            assert(counter_resets@ =~= spec_counter_resets(drained_flows@.take(k + 1)));
        }
        k = k + 1;
    }
    proof {
        assert(drained_flows@.take(m as int) =~= drained_flows@);
    }
    PickOutcome {
        removed_divert_handles,
        installed_divert,
        reset_label,
        divert_label,
        drained_flows,
        bloom_resets,
        counter_resets,
    }
}

} // verus!
