use taep_controller::features::FeatureTable;
use taep_controller::flows::DigestEntry;
use taep_controller::flows::FlowsManager;
use taep_controller::hhd::pick_hhd;
use taep_controller::hhd::CounterPair;
use taep_controller::hhd::HHDManager;
use taep_controller::hw::HWManager;
use taep_controller::l2::DivertType;
use taep_controller::l2::L2Manager;
use taep_controller::l2::DIVERT_PRIORITY_AUTO;
use taep_controller::label::LabelingManager;

fn digest(src_addr: u32, src_port: u16, hash1: u16, hash2: u16) -> DigestEntry {
    DigestEntry {
        src_addr,
        src_port,
        dst_addr: 0x0a00_00fe,
        dst_port: 443,
        ipv4_protocol: 6,
        hash1,
        hash2,
    }
}

struct Rig {
    hhd: HHDManager,
    flows: FlowsManager,
    l2: L2Manager,
    hw: HWManager,
    labeling: LabelingManager,
    features: FeatureTable,
}

fn rig() -> Rig {
    let mut hw = HWManager::init();
    hw.add_port_translation(10, 110);
    hw.add_port_translation(11, 111);
    Rig {
        hhd: HHDManager::init(4, 1),
        flows: FlowsManager::init(),
        l2: L2Manager::init(),
        hw,
        labeling: LabelingManager::init(),
        features: FeatureTable::init(),
    }
}

fn learn_four(r: &mut Rig) {
    r.flows.ingest_digest(&vec![
        digest(0x0a00_0001, 5001, 1, 2),
        digest(0x0a00_0002, 5002, 3, 4),
        digest(0x0a00_0003, 5003, 5, 6),
        digest(0x0a00_0004, 5004, 7, 8),
    ]);
}

// counters giving flow 2 (address 10.0.0.3) the highest min-count
fn counts_third_wins() -> Vec<CounterPair> {
    vec![
        CounterPair { packets_hash1: 10, packets_hash2: 20 },
        CounterPair { packets_hash1: 50, packets_hash2: 5 },
        CounterPair { packets_hash1: 100, packets_hash2: 150 },
        CounterPair { packets_hash1: 30, packets_hash2: 30 },
    ]
}

// counters giving flow 3 (address 10.0.0.4) the highest min-count
fn counts_fourth_wins() -> Vec<CounterPair> {
    vec![
        CounterPair { packets_hash1: 10, packets_hash2: 20 },
        CounterPair { packets_hash1: 50, packets_hash2: 5 },
        CounterPair { packets_hash1: 100, packets_hash2: 150 },
        CounterPair { packets_hash1: 400, packets_hash2: 350 },
    ]
}

#[test]
fn pick_without_divert_does_nothing() {
    let mut r = rig();
    r.flows.start_flow_learning(&mut r.hw, &mut r.features, 10, 4);
    learn_four(&mut r);
    let outcome = pick_hhd(&mut r.hhd, &mut r.flows, &mut r.l2, &mut r.hw, &r.labeling, &Vec::new());
    assert!(outcome.installed_divert.is_none());
    assert!(outcome.drained_flows.is_empty());
    assert_eq!(r.flows.get_learned_flows().len(), 4);
    assert!(r.hhd.last_heavy_flow.is_none());
}

#[test]
fn first_tick_elects_and_installs() {
    let mut r = rig();
    r.flows.start_flow_learning(&mut r.hw, &mut r.features, 10, 4);
    learn_four(&mut r);
    r.hhd.run_hhd_divert(10, 11, DivertType::IPSrc);
    let outcome = pick_hhd(
        &mut r.hhd,
        &mut r.flows,
        &mut r.l2,
        &mut r.hw,
        &r.labeling,
        &counts_third_wins(),
    );
    let entry = outcome.installed_divert.expect("a divert should be installed");
    assert_eq!(entry.ingress_dev_port, 110);
    assert_eq!(entry.egress_dev_port, 111);
    assert_eq!(entry.ipv4_src_addr, 0x0a00_0003);
    assert_eq!(entry.ipv4_src_addr_mask, 0xffff_ffff);
    assert_eq!(entry.priority, DIVERT_PRIORITY_AUTO);
    assert!(outcome.removed_divert_handles.is_empty());
    let last = r.hhd.last_heavy_flow.as_ref().unwrap();
    assert_eq!(last.src_addr, "10.0.0.3");
    // the learner is drained, with counters and bloom slots cleared
    assert_eq!(outcome.drained_flows.len(), 4);
    assert_eq!(outcome.counter_resets.len(), 4);
    assert_eq!(outcome.counter_resets[2].hash1, 5);
    assert_eq!(outcome.counter_resets[2].hash2, 6);
    assert_eq!(outcome.bloom_resets.len(), 4);
    assert!(r.flows.get_learned_flows().is_empty());
    assert_eq!(r.flows.get_current_number_of_flows(), 0);
    assert_eq!(r.l2.divert_entries.len(), 1);
}

#[test]
fn same_winner_is_not_reinstalled() {
    let mut r = rig();
    r.flows.start_flow_learning(&mut r.hw, &mut r.features, 10, 4);
    learn_four(&mut r);
    r.hhd.run_hhd_divert(10, 11, DivertType::IPSrc);
    pick_hhd(&mut r.hhd, &mut r.flows, &mut r.l2, &mut r.hw, &r.labeling, &counts_third_wins());
    // next window: the same flows are learned again and the layout repeats
    learn_four(&mut r);
    let outcome = pick_hhd(
        &mut r.hhd,
        &mut r.flows,
        &mut r.l2,
        &mut r.hw,
        &r.labeling,
        &counts_third_wins(),
    );
    assert!(outcome.installed_divert.is_none());
    assert!(outcome.removed_divert_handles.is_empty());
    assert_eq!(r.hhd.last_heavy_flow.as_ref().unwrap().src_addr, "10.0.0.3");
    assert_eq!(r.l2.divert_entries.len(), 1);
}

#[test]
fn new_winner_replaces_the_auto_divert() {
    let mut r = rig();
    r.flows.start_flow_learning(&mut r.hw, &mut r.features, 10, 4);
    learn_four(&mut r);
    r.hhd.run_hhd_divert(10, 11, DivertType::IPSrc);
    let first = pick_hhd(
        &mut r.hhd,
        &mut r.flows,
        &mut r.l2,
        &mut r.hw,
        &r.labeling,
        &counts_third_wins(),
    );
    let first_handle = first.installed_divert.unwrap().handle;
    learn_four(&mut r);
    let outcome = pick_hhd(
        &mut r.hhd,
        &mut r.flows,
        &mut r.l2,
        &mut r.hw,
        &r.labeling,
        &counts_fourth_wins(),
    );
    // the old auto rule goes, the new winner's rule comes in
    assert_eq!(outcome.removed_divert_handles, vec![first_handle]);
    let entry = outcome.installed_divert.unwrap();
    assert_eq!(entry.ipv4_src_addr, 0x0a00_0004);
    assert_eq!(r.hhd.last_heavy_flow.as_ref().unwrap().src_addr, "10.0.0.4");
    // at most one auto rule on the pair survives the tick
    let autos = r
        .l2
        .divert_entries
        .iter()
        .filter(|e| e.priority == DIVERT_PRIORITY_AUTO && e.ingress_dev_port == 110
            && e.egress_dev_port == 111)
        .count();
    assert_eq!(autos, 1);
    assert_eq!(r.l2.divert_entries.len(), 1);
}

#[test]
fn all_zero_scores_elect_nobody() {
    let mut r = rig();
    r.flows.start_flow_learning(&mut r.hw, &mut r.features, 10, 4);
    learn_four(&mut r);
    r.hhd.run_hhd_divert(10, 11, DivertType::IPSrc);
    let zeros = vec![CounterPair { packets_hash1: 0, packets_hash2: 0 }; 4];
    let outcome = pick_hhd(&mut r.hhd, &mut r.flows, &mut r.l2, &mut r.hw, &r.labeling, &zeros);
    assert!(outcome.installed_divert.is_none());
    assert!(r.hhd.last_heavy_flow.is_none());
    // the learner is still drained for the next window
    assert_eq!(outcome.drained_flows.len(), 4);
    assert!(r.flows.get_learned_flows().is_empty());
}

#[test]
fn ties_go_to_the_first_flow() {
    let mut r = rig();
    r.flows.start_flow_learning(&mut r.hw, &mut r.features, 10, 4);
    learn_four(&mut r);
    r.hhd.run_hhd_divert(10, 11, DivertType::IPDest);
    let tied = vec![CounterPair { packets_hash1: 60, packets_hash2: 70 }; 4];
    let outcome = pick_hhd(&mut r.hhd, &mut r.flows, &mut r.l2, &mut r.hw, &r.labeling, &tied);
    let entry = outcome.installed_divert.unwrap();
    // destination diversion matches on the destination side
    assert_eq!(entry.ipv4_dst_addr, 0x0a00_00fe);
    assert_eq!(entry.ipv4_src_addr, 0);
    assert_eq!(r.hhd.last_heavy_flow.as_ref().unwrap().src_addr, "10.0.0.1");
}

#[test]
fn set_hhd_enables_both_features() {
    let mut r = rig();
    let (flows_entry, hhd_entry) = r.hhd.set_hhd(&mut r.flows, &mut r.hw, &mut r.features, 10);
    assert!(flows_entry.flows && !flows_entry.hhd);
    assert!(hhd_entry.hhd && !hhd_entry.flows);
    assert_eq!(flows_entry.ingress_dev_port, 110);
    assert_eq!(hhd_entry.ingress_dev_port, 110);
    assert!(r.flows.flowmanager_running);
    assert_eq!(r.flows.max_number_of_flows, 4);
    assert_eq!(r.features.entries.len(), 2);
}

#[test]
fn reset_hhd_clears_everything() {
    let mut r = rig();
    r.hhd.set_hhd(&mut r.flows, &mut r.hw, &mut r.features, 10);
    learn_four(&mut r);
    r.hhd.run_hhd_divert(10, 11, DivertType::IPSrc);
    pick_hhd(&mut r.hhd, &mut r.flows, &mut r.l2, &mut r.hw, &r.labeling, &counts_third_wins());
    learn_four(&mut r);
    let reset = r.hhd.reset_hhd(&mut r.flows, &mut r.hw, &mut r.l2, &r.labeling, &mut r.features);
    // counters were zeroed for the flows learned at reset time
    assert_eq!(reset.counter_resets.len(), 4);
    assert_eq!(reset.flow_stop.bloom_resets.len(), 4);
    assert!(r.features.entries.is_empty());
    assert!(r.l2.divert_entries.is_empty());
    assert!(!r.hhd.divert_on);
    assert!(r.hhd.last_heavy_flow.is_none());
    assert!(!r.flows.flowmanager_running);
    assert!(r.flows.get_learned_flows().is_empty());
}

#[test]
fn reset_hhd_without_divert_leaves_the_table() {
    let mut r = rig();
    let reset = r.hhd.reset_hhd(&mut r.flows, &mut r.hw, &mut r.l2, &r.labeling, &mut r.features);
    assert!(reset.table.divert_removal.is_none());
    assert!(reset.counter_resets.is_empty());
}
