//! Port registry: configured ports, chassis/device port translations, and
//! the device settings chosen for each configured port.
//!
//! The switch hardware owns the mapping of chassis ports to device ports;
//! callers record the translations they obtain from it, and the registry
//! caches the reverse direction exactly as translations are used.

use vstd::prelude::*;

verus! {

/// A port definition from the operator configuration.
#[allow(non_snake_case)]
#[derive(Clone, Copy, Debug)]
pub struct Port {
    pub Number: u32,
    pub Speed: u16,
    pub AutoNegDisabled: bool,
    pub FECDisabled: bool,
}

/// One snapshot of the five per-port RMON counters.
#[derive(Clone, Copy, Debug)]
pub struct PortStats {
    pub packets_in: u64,
    pub packets_out: u64,
    pub octets_in: u64,
    pub octets_out: u64,
    pub packets_dropped_buffer_full: u64,
}

/// Port speed classes the device accepts.
#[derive(Clone, Copy, Debug, PartialEq, Eq, Structural)]
pub enum PortSpeedClass {
    Speed10G,
    Speed40G,
    Speed100G,
}

/// Forward error correction mode chosen for a port.
#[derive(Clone, Copy, Debug, PartialEq, Eq, Structural)]
pub enum FecMode {
    Disabled,
    ReedSolomon,
}

/// Auto-negotiation policy chosen for a port.
#[derive(Clone, Copy, Debug, PartialEq, Eq, Structural)]
pub enum AutonegPolicy {
    Enabled,
    Disabled,
}

/// The device settings to apply to one port: add the port with the speed
/// and FEC mode, set the auto-negotiation policy, then enable it.
#[derive(Clone, Copy, Debug, PartialEq, Eq, Structural)]
pub struct PortConfig {
    pub dev_port: u32,
    pub speed: PortSpeedClass,
    pub fec: FecMode,
    pub autoneg: AutonegPolicy,
}

/// The settings for a port definition: speeds 10 and 40 select their own
/// class, anything else falls back to 100G; FEC, when on, is Reed-Solomon.
pub open spec fn spec_port_config(p: Port) -> PortConfig {
    PortConfig {
        dev_port: p.Number,
        speed: if p.Speed == 10 {
            PortSpeedClass::Speed10G
        } else if p.Speed == 40 {
            PortSpeedClass::Speed40G
        } else {
            PortSpeedClass::Speed100G
        },
        fec: if p.FECDisabled {
            FecMode::Disabled
        } else {
            FecMode::ReedSolomon
        },
        autoneg: if p.AutoNegDisabled {
            AutonegPolicy::Disabled
        } else {
            AutonegPolicy::Enabled
        },
    }
}

/// First match in an association list, newest entries first.
pub open spec fn spec_assoc_find(m: Seq<(u32, u32)>, key: u32) -> Option<u32>
    decreases m.len(),
{
    if m.len() == 0 {
        None
    } else if m[0].0 == key {
        Some(m[0].1)
    } else {
        spec_assoc_find(m.skip(1), key)
    }
}

proof fn lemma_assoc_prefix(m: Seq<(u32, u32)>, key: u32, i: int)
    requires
        0 <= i <= m.len(),
        forall|j: int| 0 <= j < i ==> (#[trigger] m[j]).0 != key,
    ensures
        spec_assoc_find(m, key) == spec_assoc_find(m.skip(i), key),
    decreases i,
{
    if i > 0 {
        lemma_assoc_prefix(m.skip(1), key, i - 1);
        assert(m.skip(1).skip(i - 1) =~= m.skip(i));
        assert(forall|j: int|
            0 <= j < i - 1 ==> (#[trigger] m.skip(1)[j]).0 == m[j + 1].0 && m[j + 1].0 != key);
        assert(m.skip(0) =~= m);
    } else {
        assert(m.skip(0) =~= m);
    }
}

fn assoc_find(m: &Vec<(u32, u32)>, key: u32) -> (r: Option<u32>)
    ensures
        r == spec_assoc_find(m@, key),
{
    let n = m.len();
    let mut i: usize = 0;
    while i < n
        invariant
            n == m@.len(),
            0 <= i <= n,
            forall|j: int| 0 <= j < i ==> (#[trigger] m@[j]).0 != key,
        decreases n - i,
    {
        let (k, v) = m[i];
        if k == key {
            proof {
                lemma_assoc_prefix(m@, key, i as int);
                assert(m@.skip(i as int)[0] == m@[i as int]);
            }
            return Some(v);
        }
        i = i + 1;
    }
    proof {
        lemma_assoc_prefix(m@, key, n as int);
        assert(m@.skip(n as int) =~= Seq::<(u32, u32)>::empty());
    }
    None
}

fn assoc_insert(m: &mut Vec<(u32, u32)>, key: u32, value: u32)
    ensures
        spec_assoc_find(final(m)@, key) == Some(value),
        forall|k: u32|
            k != key ==> spec_assoc_find(final(m)@, k) == spec_assoc_find(old(m)@, k),
{
    m.insert(0, (key, value));
    proof {
        assert(final(m)@.skip(1) =~= old(m)@);
        assert forall|k: u32|
            k != key implies spec_assoc_find(final(m)@, k) == spec_assoc_find(old(m)@, k) by {
            assert(final(m)@[0] == (key, value));
        }
    }
}

/// The port registry.
pub struct HWManager {
    pub configured_ports: Vec<u32>,
    pub dev_to_chassis_port_map: Vec<(u32, u32)>,
    pub chassis_to_dev_port_map: Vec<(u32, u32)>,
}

impl HWManager {
    /// Device port recorded for a chassis port; 0 when none is known.
    pub open spec fn spec_dev_port_of(self, chassis_port: u32) -> u32 {
        match spec_assoc_find(self.chassis_to_dev_port_map@, chassis_port) {
            Some(dev) => dev,
            None => 0,
        }
    }

    /// Chassis port cached for a device port; 0 when none is cached.
    pub open spec fn spec_chassis_port_of(self, dev_port: u32) -> u32 {
        match spec_assoc_find(self.dev_to_chassis_port_map@, dev_port) {
            Some(chassis) => chassis,
            None => 0,
        }
    }

    /// An empty registry: no ports configured, no translations known.
    pub fn init() -> (hw: HWManager)
        ensures
            hw.configured_ports@ == Seq::<u32>::empty(),
            hw.dev_to_chassis_port_map@ == Seq::<(u32, u32)>::empty(),
            hw.chassis_to_dev_port_map@ == Seq::<(u32, u32)>::empty(),
    {
        HWManager {
            configured_ports: Vec::new(),
            dev_to_chassis_port_map: Vec::new(),
            chassis_to_dev_port_map: Vec::new(),
        }
    }

    /// Records a chassis-to-device translation obtained from the switch.
    pub fn add_port_translation(&mut self, chassis_port: u32, dev_port: u32)
        ensures
            final(self).spec_dev_port_of(chassis_port) == dev_port,
            forall|k: u32|
                k != chassis_port ==> final(self).spec_dev_port_of(k) == old(
                    self,
                ).spec_dev_port_of(k),
            final(self).configured_ports == old(self).configured_ports,
            final(self).dev_to_chassis_port_map == old(self).dev_to_chassis_port_map,
    {
        assoc_insert(&mut self.chassis_to_dev_port_map, chassis_port, dev_port);
    }

    /// Translates a chassis port to its device port (0 when the translation
    /// is unknown) and caches the reverse direction, as every use of a
    /// translation does.
    pub fn convert_chassis_port_to_dev_port(&mut self, chassis_port: u32) -> (dev_port: u32)
        ensures
            dev_port == old(self).spec_dev_port_of(chassis_port),
            final(self).spec_chassis_port_of(dev_port) == chassis_port,
            forall|k: u32|
                k != dev_port ==> final(self).spec_chassis_port_of(k) == old(
                    self,
                ).spec_chassis_port_of(k),
            final(self).configured_ports == old(self).configured_ports,
            final(self).chassis_to_dev_port_map == old(self).chassis_to_dev_port_map,
    {
        let dev_port = match assoc_find(&self.chassis_to_dev_port_map, chassis_port) {
            Some(dev) => dev,
            None => 0,
        };
        assoc_insert(&mut self.dev_to_chassis_port_map, dev_port, chassis_port);
        dev_port
    }

    /// The chassis port cached for a device port; 0 when none is cached.
    pub fn convert_dev_port_to_chassis_port(&self, dev_port: u32) -> (chassis_port: u32)
        ensures
            chassis_port == self.spec_chassis_port_of(dev_port),
    {
        match assoc_find(&self.dev_to_chassis_port_map, dev_port) {
            Some(chassis) => chassis,
            None => 0,
        }
    }

    /// Records the configured device ports and returns the settings to apply
    /// to each, in the order given.
    pub fn configure_ports(&mut self, dev_port_definitions: &Vec<Port>) -> (plans: Vec<PortConfig>)
        ensures
            final(self).configured_ports@ == dev_port_definitions@.map_values(
                |p: Port| p.Number,
            ),
            plans@ == dev_port_definitions@.map_values(|p: Port| spec_port_config(p)),
            final(self).dev_to_chassis_port_map == old(self).dev_to_chassis_port_map,
            final(self).chassis_to_dev_port_map == old(self).chassis_to_dev_port_map,
    {
        let mut dev_ports: Vec<u32> = Vec::new();
        let mut plans: Vec<PortConfig> = Vec::new();
        let n = dev_port_definitions.len();
        let mut i: usize = 0;
        while i < n
            invariant
                n == dev_port_definitions@.len(),
                0 <= i <= n,
                dev_ports@ == dev_port_definitions@.take(i as int).map_values(
                    |p: Port| p.Number,
                ),
                plans@ == dev_port_definitions@.take(i as int).map_values(
                    |p: Port| spec_port_config(p),
                ),
            decreases n - i,
        {
            let p = dev_port_definitions[i];
            dev_ports.push(p.Number);
            let speed = if p.Speed == 10 {
                PortSpeedClass::Speed10G
            } else if p.Speed == 40 {
                PortSpeedClass::Speed40G
            } else {
                PortSpeedClass::Speed100G
            };
            let fec = if p.FECDisabled {
                FecMode::Disabled
            } else {
                FecMode::ReedSolomon
            };
            let autoneg = if p.AutoNegDisabled {
                AutonegPolicy::Disabled
            } else {
                AutonegPolicy::Enabled
            };
            plans.push(PortConfig { dev_port: p.Number, speed, fec, autoneg });
            proof {
                assert(dev_port_definitions@.take(i + 1).drop_last() =~= dev_port_definitions@.take(
                    i as int,
                ));
                assert(dev_port_definitions@.take(i + 1).last() == dev_port_definitions@[i as int]);
                assert(dev_ports@ =~= dev_port_definitions@.take(i + 1).map_values(
                    |p: Port| p.Number,
                ));
                assert(plans@ =~= dev_port_definitions@.take(i + 1).map_values(
                    |p: Port| spec_port_config(p),
                ));
            }
            i = i + 1;
        }
        proof {
            assert(dev_port_definitions@.take(n as int) =~= dev_port_definitions@);
        }
        self.configured_ports = dev_ports;
        plans
    }

    /// The configured device ports, in configuration order.
    pub fn get_configured_dev_ports(&self) -> (r: Vec<u32>)
        ensures
            r@ == self.configured_ports@,
    {
        let mut out: Vec<u32> = Vec::new();
        let n = self.configured_ports.len();
        let mut i: usize = 0;
        while i < n
            invariant
                n == self.configured_ports@.len(),
                0 <= i <= n,
                out@ == self.configured_ports@.take(i as int),
            decreases n - i,
        {
            out.push(self.configured_ports[i]);
            proof {
                assert(out@ =~= self.configured_ports@.take(i + 1));
            }
            i = i + 1;
        }
        proof {
            assert(self.configured_ports@.take(n as int) =~= self.configured_ports@);
        }
        out
    }
}

} // verus!
