use taep_controller::label::LabelingManager;

#[test]
fn labels_are_silent_until_enabled() {
    let manager = LabelingManager::init();
    assert!(manager.label_reset().is_none());
    assert!(manager.label_reset_ingress_egress(1, 2).is_none());
    assert!(manager.label_divert("IPSrc".to_string(), 1, 2, "10.0.0.1/32".to_string()).is_none());
}

#[test]
fn reset_label_is_fixed() {
    let mut manager = LabelingManager::init();
    manager.run(true);
    assert_eq!(
        manager.label_reset().unwrap(),
        "label,type=reset,ingress=999,egress=999 data=\"reset\""
    );
}

#[test]
fn pair_reset_label_carries_the_ports() {
    let mut manager = LabelingManager::init();
    manager.run(true);
    assert_eq!(
        manager.label_reset_ingress_egress(17, 430).unwrap(),
        "label,type=reset,ingress=17,egress=430 data=\"reset\""
    );
}

#[test]
fn divert_label_carries_type_and_address() {
    let mut manager = LabelingManager::init();
    manager.run(true);
    assert_eq!(
        manager.label_divert("IPDest".to_string(), 3, 4, "10.9.8.7/24".to_string()).unwrap(),
        "label,type=divert,ingress=3,egress=4,divert-type=IPDest data=\"10.9.8.7/24\""
    );
}

#[test]
fn labeling_can_be_turned_off_again() {
    let mut manager = LabelingManager::init();
    manager.run(true);
    manager.run(false);
    assert!(manager.label_reset().is_none());
}
