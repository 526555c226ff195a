use taep_controller::features::FeatureTable;
use taep_controller::flows::DigestEntry;
use taep_controller::flows::Flow;
use taep_controller::flows::FlowsManager;
use taep_controller::hw::HWManager;

fn digest(src_port: u16, hash1: u16, hash2: u16) -> DigestEntry {
    DigestEntry {
        src_addr: 0x0a00_0001,
        src_port,
        dst_addr: 0x0a00_0002,
        dst_port: 80,
        ipv4_protocol: 6,
        hash1,
        hash2,
    }
}

#[test]
fn flow_from_digest_renders_addresses() {
    let f = Flow::from_digest(&digest(1234, 7, 9));
    assert_eq!(f.src_addr, "10.0.0.1");
    assert_eq!(f.src_addr_int, 0x0a00_0001);
    assert_eq!(f.dst_addr, "10.0.0.2");
    assert_eq!(f.dst_addr_int, 0x0a00_0002);
    assert_eq!(f.src_port, 1234);
    assert_eq!(f.dst_port, 80);
    assert_eq!(f.ipv4_protocol, 6);
    assert_eq!(f.hash1, 7);
    assert_eq!(f.hash2, 9);
}

#[test]
fn same_flow_compares_the_seven_tuple() {
    let a = Flow::from_digest(&digest(1234, 7, 9));
    let b = Flow::from_digest(&digest(1234, 7, 9));
    let c = Flow::from_digest(&digest(1235, 7, 9));
    assert!(a.same_flow(&b));
    assert!(!a.same_flow(&c));
}

#[test]
fn window_learns_to_the_cap_and_counts_every_arrival() {
    let mut fm = FlowsManager::init();
    let mut hw = HWManager::init();
    hw.add_port_translation(1, 5);
    let mut features = FeatureTable::init();
    let window = fm
        .set_flow_learning_for_time_window(&mut hw, &mut features, 1, 3, 1)
        .expect("window should start");
    assert_eq!(window.dev_port_ingress, 5);
    assert_eq!(window.time_window_in_seconds, 1);
    assert!(window.feature_entry.flows);
    assert!(!window.feature_entry.hhd);
    assert_eq!(features.entries.len(), 1);

    let batch = vec![
        digest(1001, 1, 2),
        digest(1002, 3, 4),
        digest(0, 90, 91),
        digest(1003, 5, 6),
        digest(1004, 7, 8),
        digest(1005, 9, 10),
    ];
    fm.ingest_digest(&batch);
    // five nonzero arrivals counted, the zero-port record dropped unseen
    assert_eq!(fm.get_current_number_of_flows(), 5);
    let learned = fm.get_learned_flows();
    assert_eq!(learned.len(), 3);
    assert_eq!(learned[0].src_port, 1001);
    assert_eq!(learned[1].src_port, 1002);
    assert_eq!(learned[2].src_port, 1003);
    // the arrival counter dominates the set size
    assert!(fm.get_current_number_of_flows() as usize >= learned.len());
}

#[test]
fn second_window_during_an_active_one_is_a_no_op() {
    let mut fm = FlowsManager::init();
    let mut hw = HWManager::init();
    hw.add_port_translation(1, 5);
    let mut features = FeatureTable::init();
    assert!(fm.set_flow_learning_for_time_window(&mut hw, &mut features, 1, 3, 1).is_some());
    fm.ingest_digest(&vec![digest(1001, 1, 2)]);
    // second call within the active window: nothing happens
    let again = fm.set_flow_learning_for_time_window(&mut hw, &mut features, 1, 50, 60);
    assert!(again.is_none());
    assert_eq!(fm.max_number_of_flows, 3);
    assert_eq!(fm.get_current_number_of_flows(), 1);
    assert_eq!(fm.get_learned_flows().len(), 1);
    assert_eq!(features.entries.len(), 1);
}

#[test]
fn stop_clears_blooms_features_and_the_set() {
    let mut fm = FlowsManager::init();
    let mut hw = HWManager::init();
    hw.add_port_translation(1, 5);
    let mut features = FeatureTable::init();
    let window = fm.set_flow_learning_for_time_window(&mut hw, &mut features, 1, 4, 1).unwrap();
    fm.ingest_digest(&vec![digest(1001, 11, 21), digest(1002, 12, 22)]);
    let stop = fm.stop_flow_learning(&mut features);
    // every learned flow's two bloom slots are written before the set goes
    assert_eq!(stop.bloom_resets.len(), 2);
    assert_eq!(stop.bloom_resets[0].hash1, 11);
    assert_eq!(stop.bloom_resets[0].hash2, 21);
    assert_eq!(stop.bloom_resets[1].hash1, 12);
    assert_eq!(stop.bloom_resets[1].hash2, 22);
    assert_eq!(stop.deleted_feature_handles, vec![window.feature_entry.handle]);
    assert!(features.entries.is_empty());
    assert!(!fm.flowmanager_running);
    assert_eq!(fm.get_current_number_of_flows(), 0);
    assert!(fm.get_learned_flows().is_empty());
}

#[test]
fn take_and_reset_returns_the_set_with_its_resets() {
    let mut fm = FlowsManager::init();
    let mut hw = HWManager::init();
    let mut features = FeatureTable::init();
    fm.set_flow_learning_for_time_window(&mut hw, &mut features, 1, 4, 1).unwrap();
    fm.ingest_digest(&vec![digest(1001, 11, 21), digest(1002, 12, 22)]);
    let (taken, resets) = fm.get_learned_flows_and_reset();
    assert_eq!(taken.len(), 2);
    assert_eq!(resets.len(), 2);
    assert_eq!(resets[1].hash1, 12);
    assert_eq!(resets[1].hash2, 22);
    assert_eq!(fm.get_current_number_of_flows(), 0);
    assert!(fm.get_learned_flows().is_empty());
    // the learner keeps running and keeps its cap
    assert!(fm.flowmanager_running);
    assert_eq!(fm.max_number_of_flows, 4);
}

#[test]
fn arrivals_beyond_the_cap_are_counted_but_dropped() {
    let mut fm = FlowsManager::init();
    let mut hw = HWManager::init();
    let mut features = FeatureTable::init();
    fm.set_flow_learning_for_time_window(&mut hw, &mut features, 1, 1, 1).unwrap();
    fm.add_learned_flow(Flow::from_digest(&digest(1001, 1, 2)));
    fm.add_learned_flow(Flow::from_digest(&digest(1002, 3, 4)));
    assert_eq!(fm.get_current_number_of_flows(), 2);
    assert_eq!(fm.get_learned_flows().len(), 1);
    assert_eq!(fm.get_learned_flows()[0].src_port, 1001);
}

#[test]
fn open_ended_learning_keeps_running_state() {
    let mut fm = FlowsManager::init();
    let mut hw = HWManager::init();
    hw.add_port_translation(1, 5);
    let mut features = FeatureTable::init();
    let entry = fm.start_flow_learning(&mut hw, &mut features, 1, 7);
    assert!(entry.flows);
    assert!(!entry.hhd);
    assert_eq!(entry.ingress_dev_port, 5);
    assert!(fm.flowmanager_running);
    assert_eq!(fm.max_number_of_flows, 7);
    // starting again while running keeps the cap but still enables the port
    let entry2 = fm.start_flow_learning(&mut hw, &mut features, 1, 50);
    assert_eq!(fm.max_number_of_flows, 7);
    assert_eq!(features.entries.len(), 2);
    assert_ne!(entry.handle, entry2.handle);
}
