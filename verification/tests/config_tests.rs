use taep_controller::config::analysis_window_from_config;
use taep_controller::config::api_port_from_config;
use taep_controller::config::bf_bin_path_from_config;
use taep_controller::config::bf_config_file_from_config;
use taep_controller::config::labeling_from_config;
use taep_controller::config::max_flows_from_config;
use taep_controller::config::port_from_config;

#[test]
fn port_defaults_follow_the_speed() {
    // FEC defaults off only for 100G ports
    let hundred = port_from_config(1, 100, None, None);
    assert!(!hundred.FECDisabled);
    let forty = port_from_config(2, 40, None, None);
    assert!(forty.FECDisabled);
    let ten = port_from_config(3, 10, None, None);
    assert!(ten.FECDisabled);
    // auto-negotiation defaults to enabled
    assert!(!hundred.AutoNegDisabled);
}

#[test]
fn port_explicit_values_win() {
    let p = port_from_config(4, 100, Some(true), Some(true));
    assert!(p.AutoNegDisabled);
    assert!(p.FECDisabled);
    assert_eq!(p.Number, 4);
    assert_eq!(p.Speed, 100);
}

#[test]
fn scalar_defaults() {
    assert_eq!(api_port_from_config(None), 8100);
    assert_eq!(api_port_from_config(Some(9000)), 9000);
    assert_eq!(analysis_window_from_config(None), 30);
    assert_eq!(analysis_window_from_config(Some(5)), 5);
    assert_eq!(max_flows_from_config(None), 100);
    assert_eq!(max_flows_from_config(Some(7)), 7);
    assert!(!labeling_from_config(None));
    assert!(labeling_from_config(Some(true)));
}

#[test]
fn path_defaults() {
    assert_eq!(bf_config_file_from_config(None), "/root/taep_controller/p4/l2_switching.conf");
    assert_eq!(bf_config_file_from_config(Some("x.conf".to_string())), "x.conf");
    assert_eq!(bf_bin_path_from_config(None), "/root/bf-sde/install");
    assert_eq!(bf_bin_path_from_config(Some("/opt/sde".to_string())), "/opt/sde");
}
