//! Configuration defaults: the values the control plane runs with when the
//! operator's configuration leaves a key out. Reading the configuration
//! file stays outside the library; it hands in what it found, and these
//! functions settle the defaults.

use crate::hw::Port;
use vstd::prelude::*;

verus! {

use vstd::string::StringExecFns;

/// A port definition: auto-negotiation defaults to enabled, and FEC
/// defaults to enabled exactly for 100G ports.
pub fn port_from_config(
    number: u32,
    speed: u16,
    autoneg_disabled: Option<bool>,
    fec_disabled: Option<bool>,
) -> (p: Port)
    ensures
        p.Number == number,
        p.Speed == speed,
        p.AutoNegDisabled == match autoneg_disabled {
            Some(b) => b,
            None => false,
        },
        p.FECDisabled == match fec_disabled {
            Some(b) => b,
            None => speed != 100,
        },
{
    Port {
        Number: number,
        Speed: speed,
        AutoNegDisabled: match autoneg_disabled {
            Some(b) => b,
            None => false,
        },
        FECDisabled: match fec_disabled {
            Some(b) => b,
            None => speed != 100,
        },
    }
}

/// The admin port: 8100 unless configured.
pub fn api_port_from_config(value: Option<i64>) -> (r: u16)
    ensures
        r == match value {
            Some(v) => v as u16,
            None => 8100u16,
        },
{
    match value {
        Some(v) => #[verifier::truncate] (v as u16),
        None => 8100,
    }
}

/// The picker period in seconds: 30 unless configured.
pub fn analysis_window_from_config(value: Option<i64>) -> (r: u16)
    ensures
        r == match value {
            Some(v) => v as u16,
            None => 30u16,
        },
{
    match value {
        Some(v) => #[verifier::truncate] (v as u16),
        None => 30,
    }
}

/// The learned-flow cap: 100 unless configured.
pub fn max_flows_from_config(value: Option<i64>) -> (r: u16)
    ensures
        r == match value {
            Some(v) => v as u16,
            None => 100u16,
        },
{
    match value {
        Some(v) => #[verifier::truncate] (v as u16),
        None => 100,
    }
}

/// Telemetry labeling: off unless configured.
pub fn labeling_from_config(value: Option<bool>) -> (r: bool)
    ensures
        r == match value {
            Some(b) => b,
            None => false,
        },
{
    match value {
        Some(b) => b,
        None => false,
    }
}

/// The switch daemon's configuration file, with its packaged default.
pub fn bf_config_file_from_config(value: Option<String>) -> (r: String)
    ensures
        match value {
            Some(s) => r == s,
            None => r@ == "/root/taep_controller/p4/l2_switching.conf"@,
        },
{
    match value {
        Some(s) => s,
        None => String::from_str("/root/taep_controller/p4/l2_switching.conf"),
    }
}

/// The switch daemon's install directory, with its packaged default.
pub fn bf_bin_path_from_config(value: Option<String>) -> (r: String)
    ensures
        match value {
            Some(s) => r == s,
            None => r@ == "/root/bf-sde/install"@,
        },
{
    match value {
        Some(s) => s,
        None => String::from_str("/root/bf-sde/install"),
    }
}

} // verus!
