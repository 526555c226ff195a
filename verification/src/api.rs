//! Admin surface: the request bodies of the JSON control API and the
//! manager operations each route performs. Routing, JSON and sockets stay
//! outside the library; handlers decode a body, call the function for
//! their route, and report success.

use crate::features::FeatureEntry;
use crate::features::FeatureTable;
use crate::flows::FlowsManager;
use crate::hhd::HHDManager;
use crate::hw::HWManager;
use crate::l2::DivertError;
use crate::l2::DivertInstall;
use crate::l2::DivertRemoval;
use crate::l2::DivertType;
use crate::l2::L2Manager;
use crate::l2::spec_divert_entry;
use crate::l2::spec_pair_handles;
use crate::l2::spec_remove_pair;
use crate::label::LabelingManager;
use crate::ip::spec_ipv4_of;
use crate::ip::spec_mask;
use vstd::prelude::*;

verus! {

/// Body of the divert install and patch routes.
#[derive(Clone, Debug, PartialEq, Eq)]
pub struct Divert {
    pub port_ingress: u32,
    pub port_egress: u32,
    pub ip_address: String,
    pub ip_prefix_length: u16,
}

/// Body of the flow-learning route.
#[derive(Clone, Copy, Debug, PartialEq, Eq, Structural)]
pub struct Flows {
    pub port_ingress: u32,
    pub max_number_of_flows: u32,
    pub time_window_in_seconds: u32,
}

/// Body of the heavy-hitter enable route.
#[derive(Clone, Copy, Debug, PartialEq, Eq, Structural)]
pub struct Hhd {
    pub port_ingress: u32,
}

/// Body of the heavy-hitter divert routes.
#[derive(Clone, Copy, Debug, PartialEq, Eq, Structural)]
pub struct HhdDivert {
    pub port_ingress: u32,
    pub port_ingress_divert: u32,
    pub divert_ingress: u32,
    pub divert_egress: u32,
}

/// The admin surface's own state: the port it listens on.
pub struct APIManager {
    pub listening_port: u16,
}

impl APIManager {
    /// A surface that is not listening yet.
    pub fn init() -> (r: APIManager)
        ensures
            r.listening_port == 0,
    {
        APIManager { listening_port: 0 }
    }

    /// Records the listening port; the caller serves the routes on it.
    pub fn run(&mut self, listening_port: u16)
        ensures
            final(self).listening_port == listening_port,
    {
        self.listening_port = listening_port;
    }
}

/// The divert install routes: one operator-priority divert rule from the
/// body's ports and address.
pub fn apply_set_divert(
    l2: &mut L2Manager,
    hw: &mut HWManager,
    labeling: &LabelingManager,
    divert_type: DivertType,
    divert: &Divert,
) -> (r: Result<DivertInstall, DivertError>)
    requires
        old(l2).next_entry_handle < 0xffff_ffffu32,
    ensures
        r is Ok <==> (1 <= divert.ip_prefix_length <= 32 && spec_ipv4_of(divert.ip_address@)
            is Some),
        r is Err ==> *final(l2) == *old(l2) && *final(hw) == *old(hw),
        r is Ok ==> final(l2).divert_entries@ == old(l2).divert_entries@.push(
            spec_divert_entry(
                old(l2).next_entry_handle,
                divert_type,
                old(hw).spec_dev_port_of(divert.port_ingress) as u16,
                old(hw).spec_dev_port_of(divert.port_egress) as u16,
                spec_ipv4_of(divert.ip_address@).unwrap(),
                spec_mask(divert.ip_prefix_length as u32),
                false,
            ),
        ) && r.unwrap().entry == spec_divert_entry(
            old(l2).next_entry_handle,
            divert_type,
            old(hw).spec_dev_port_of(divert.port_ingress) as u16,
            old(hw).spec_dev_port_of(divert.port_egress) as u16,
            spec_ipv4_of(divert.ip_address@).unwrap(),
            spec_mask(divert.ip_prefix_length as u32),
            false,
        ) && final(l2).forward_entries == old(l2).forward_entries && final(l2).next_entry_handle
            == old(l2).next_entry_handle + 1,
{
    l2.set_divert(
        hw,
        labeling,
        divert_type,
        divert.port_ingress,
        divert.port_egress,
        &divert.ip_address,
        divert.ip_prefix_length,
        false,
    )
}

/// The divert patch routes: remove the rules on the body's port pair, then
/// install the body's rule — so patching replaces whatever the pair held.
pub fn apply_patch_divert(
    l2: &mut L2Manager,
    hw: &mut HWManager,
    labeling: &LabelingManager,
    divert_type: DivertType,
    divert: &Divert,
) -> (r: (DivertRemoval, Result<DivertInstall, DivertError>))
    requires
        old(l2).next_entry_handle < 0xffff_ffffu32,
    ensures
        r.0.deleted_handles@ == spec_pair_handles(
            old(l2).divert_entries@,
            old(hw).spec_dev_port_of(divert.port_ingress) as u16,
            old(hw).spec_dev_port_of(divert.port_egress) as u16,
        ),
        r.1 is Ok <==> (1 <= divert.ip_prefix_length <= 32 && spec_ipv4_of(divert.ip_address@)
            is Some),
        r.1 is Err ==> final(l2).divert_entries@ == spec_remove_pair(
            old(l2).divert_entries@,
            old(hw).spec_dev_port_of(divert.port_ingress) as u16,
            old(hw).spec_dev_port_of(divert.port_egress) as u16,
        ),
        r.1 is Ok ==> final(l2).divert_entries@ == spec_remove_pair(
            old(l2).divert_entries@,
            old(hw).spec_dev_port_of(divert.port_ingress) as u16,
            old(hw).spec_dev_port_of(divert.port_egress) as u16,
        ).push(
            spec_divert_entry(
                old(l2).next_entry_handle,
                divert_type,
                old(hw).spec_dev_port_of(divert.port_ingress) as u16,
                old(hw).spec_dev_port_of(divert.port_egress) as u16,
                spec_ipv4_of(divert.ip_address@).unwrap(),
                spec_mask(divert.ip_prefix_length as u32),
                false,
            ),
        ),
        final(l2).forward_entries == old(l2).forward_entries,
        final(hw).chassis_to_dev_port_map == old(hw).chassis_to_dev_port_map,
        final(hw).configured_ports == old(hw).configured_ports,
{
    let removal = l2.reset_divert_for_ingress_egress_port(
        hw,
        labeling,
        divert.port_ingress,
        divert.port_egress,
    );
    let install = l2.set_divert(
        hw,
        labeling,
        divert_type,
        divert.port_ingress,
        divert.port_egress,
        &divert.ip_address,
        divert.ip_prefix_length,
        false,
    );
    (removal, install)
}

/// The heavy-hitter divert routes: enable detection on both named ports,
/// then turn automatic diversion on for the body's divert pair.
pub fn apply_set_hhd_divert(
    hhd: &mut HHDManager,
    flows: &mut FlowsManager,
    hw: &mut HWManager,
    features: &mut FeatureTable,
    body: &HhdDivert,
    divert_type: DivertType,
) -> (entries: Vec<FeatureEntry>)
    requires
        old(flows).wf(),
        old(features).next_entry_handle < 0xffff_fffcu32,
    ensures
        final(flows).wf(),
        entries@.len() == 4,
        final(features).entries@ == old(features).entries@ + entries@,
        final(flows).flowmanager_running,
        final(hhd).divert_on,
        final(hhd).divert_type == divert_type,
        final(hhd).divert_ingress_port == body.divert_ingress,
        final(hhd).divert_egress_port == body.divert_egress,
        final(hhd).max_number_of_flows == old(hhd).max_number_of_flows,
        final(hhd).last_heavy_flow == old(hhd).last_heavy_flow,
        final(hw).chassis_to_dev_port_map == old(hw).chassis_to_dev_port_map,
        final(hw).configured_ports == old(hw).configured_ports,
{
    let ghost entries0 = old(features).entries@;
    let first = hhd.set_hhd(flows, hw, features, body.port_ingress);
    let second = hhd.set_hhd(flows, hw, features, body.port_ingress_divert);
    hhd.run_hhd_divert(body.divert_ingress, body.divert_egress, divert_type);
    let mut entries: Vec<FeatureEntry> = Vec::new();
    entries.push(first.0);
    entries.push(first.1);
    entries.push(second.0);
    entries.push(second.1);
    proof {
        assert(final(features).entries@ =~= entries0 + entries@);
    }
    entries
}

} // verus!
