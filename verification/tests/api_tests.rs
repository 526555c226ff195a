use taep_controller::api::apply_patch_divert;
use taep_controller::api::apply_set_divert;
use taep_controller::api::apply_set_hhd_divert;
use taep_controller::api::APIManager;
use taep_controller::api::Divert;
use taep_controller::api::Flows;
use taep_controller::api::Hhd;
use taep_controller::api::HhdDivert;
use taep_controller::bf::BFManager;
use taep_controller::features::FeatureTable;
use taep_controller::flows::FlowsManager;
use taep_controller::hhd::HHDManager;
use taep_controller::hw::HWManager;
use taep_controller::l2::DivertType;
use taep_controller::l2::L2Manager;
use taep_controller::l2::DIVERT_PRIORITY_OPERATOR;
use taep_controller::label::LabelingManager;

fn registry() -> HWManager {
    let mut hw = HWManager::init();
    hw.add_port_translation(1, 11);
    hw.add_port_translation(2, 12);
    hw.add_port_translation(10, 110);
    hw.add_port_translation(11, 111);
    hw
}

#[test]
fn api_manager_records_its_port() {
    let mut api = APIManager::init();
    assert_eq!(api.listening_port, 0);
    api.run(8100);
    assert_eq!(api.listening_port, 8100);
}

#[test]
fn bf_manager_records_the_daemon() {
    let mut bf = BFManager::init();
    assert!(!bf.is_running);
    bf.run("switch.conf".to_string(), "/opt/switch".to_string());
    assert!(bf.is_running);
    assert_eq!(bf.bf_config_file, "switch.conf");
    assert_eq!(bf.bf_bin_path, "/opt/switch");
}

#[test]
fn set_divert_route_installs_an_operator_rule() {
    let mut l2 = L2Manager::init();
    let mut hw = registry();
    let labeling = LabelingManager::init();
    let body = Divert {
        port_ingress: 1,
        port_egress: 2,
        ip_address: "10.0.0.1".to_string(),
        ip_prefix_length: 32,
    };
    let install = apply_set_divert(&mut l2, &mut hw, &labeling, DivertType::IPDest, &body).unwrap();
    assert_eq!(install.entry.ipv4_dst_addr, 0x0a00_0001);
    assert_eq!(install.entry.priority, DIVERT_PRIORITY_OPERATOR);
    assert_eq!(l2.divert_entries.len(), 1);
}

#[test]
fn patch_route_replaces_the_rule_on_the_pair() {
    let mut l2 = L2Manager::init();
    let mut hw = registry();
    let labeling = LabelingManager::init();
    let first = Divert {
        port_ingress: 1,
        port_egress: 2,
        ip_address: "10.0.0.1".to_string(),
        ip_prefix_length: 32,
    };
    let installed = apply_set_divert(&mut l2, &mut hw, &labeling, DivertType::IPDest, &first).unwrap();
    let second = Divert {
        port_ingress: 1,
        port_egress: 2,
        ip_address: "10.0.0.2".to_string(),
        ip_prefix_length: 32,
    };
    let (removal, install) =
        apply_patch_divert(&mut l2, &mut hw, &labeling, DivertType::IPDest, &second);
    assert_eq!(removal.deleted_handles, vec![installed.entry.handle]);
    let entry = install.unwrap().entry;
    assert_eq!(entry.ipv4_dst_addr, 0x0a00_0002);
    assert_eq!(l2.divert_entries.len(), 1);
    assert_eq!(l2.divert_entries[0].ipv4_dst_addr, 0x0a00_0002);
}

#[test]
fn patch_route_still_removes_when_the_body_is_bad() {
    let mut l2 = L2Manager::init();
    let mut hw = registry();
    let labeling = LabelingManager::init();
    let good = Divert {
        port_ingress: 1,
        port_egress: 2,
        ip_address: "10.0.0.1".to_string(),
        ip_prefix_length: 32,
    };
    apply_set_divert(&mut l2, &mut hw, &labeling, DivertType::IPDest, &good).unwrap();
    let bad = Divert {
        port_ingress: 1,
        port_egress: 2,
        ip_address: "10.0.0.1".to_string(),
        ip_prefix_length: 0,
    };
    let (removal, install) = apply_patch_divert(&mut l2, &mut hw, &labeling, DivertType::IPDest, &bad);
    assert_eq!(removal.deleted_handles.len(), 1);
    assert!(install.is_err());
    assert!(l2.divert_entries.is_empty());
}

#[test]
fn hhd_divert_route_enables_ports_and_diversion() {
    let mut hhd = HHDManager::init(100, 30);
    let mut flows = FlowsManager::init();
    let mut hw = registry();
    let mut features = FeatureTable::init();
    let body = HhdDivert {
        port_ingress: 1,
        port_ingress_divert: 2,
        divert_ingress: 10,
        divert_egress: 11,
    };
    let entries = apply_set_hhd_divert(&mut hhd, &mut flows, &mut hw, &mut features, &body, DivertType::IPSrc);
    assert_eq!(entries.len(), 4);
    assert_eq!(features.entries.len(), 4);
    assert!(entries[0].flows && !entries[0].hhd);
    assert!(entries[1].hhd && !entries[1].flows);
    assert_eq!(entries[0].ingress_dev_port, 11);
    assert_eq!(entries[2].ingress_dev_port, 12);
    assert!(flows.flowmanager_running);
    assert!(hhd.divert_on);
    assert_eq!(hhd.divert_ingress_port, 10);
    assert_eq!(hhd.divert_egress_port, 11);
    assert_eq!(hhd.divert_type, DivertType::IPSrc);
}

#[test]
fn request_bodies_round_trip_their_fields() {
    let flows = Flows { port_ingress: 1, max_number_of_flows: 3, time_window_in_seconds: 1 };
    assert_eq!(flows.max_number_of_flows, 3);
    let hhd = Hhd { port_ingress: 9 };
    assert_eq!(hhd.port_ingress, 9);
}
