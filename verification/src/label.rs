//! Best-effort telemetry labels: line-protocol strings describing divert
//! events. When labeling is off every call yields nothing; callers post the
//! returned line and swallow send failures.

use crate::ip::{push_dec_u32, spec_dec};
use vstd::prelude::*;

verus! {

use vstd::string::StringExecFns;

/// The line recording a full divert reset.
pub open spec fn spec_label_reset_line() -> Seq<char> {
    "label,type=reset,ingress=999,egress=999 data=\"reset\""@
}

/// The line recording a divert reset for one ingress/egress pair.
pub open spec fn spec_label_reset_ingress_egress_line(ingress: u32, egress: u32) -> Seq<char> {
    "label,type=reset,ingress="@ + spec_dec(ingress as nat) + ",egress="@ + spec_dec(egress as nat)
        + " data=\"reset\""@
}

/// The line recording a divert install.
pub open spec fn spec_label_divert_line(
    divert_type: Seq<char>,
    ingress: u32,
    egress: u32,
    address: Seq<char>,
) -> Seq<char> {
    "label,type=divert,ingress="@ + spec_dec(ingress as nat) + ",egress="@ + spec_dec(
        egress as nat,
    ) + ",divert-type="@ + divert_type + " data=\""@ + address + "\""@
}

/// Switch for the telemetry labels.
pub struct LabelingManager {
    pub labeling_on: bool,
}

impl LabelingManager {
    /// A manager with labeling off.
    pub fn init() -> (r: LabelingManager)
        ensures
            !r.labeling_on,
    {
        LabelingManager { labeling_on: false }
    }

    /// Turns labeling on or off.
    pub fn run(&mut self, labeling_on: bool)
        ensures
            final(self).labeling_on == labeling_on,
    {
        self.labeling_on = labeling_on;
    }

    /// The label for a full divert reset, when labeling is on.
    pub fn label_reset(&self) -> (r: Option<String>)
        ensures
            self.labeling_on ==> r is Some && r.unwrap()@ == spec_label_reset_line(),
            !self.labeling_on ==> r is None,
    {
        if self.labeling_on {
            Some(String::from_str("label,type=reset,ingress=999,egress=999 data=\"reset\""))
        } else {
            None
        }
    }

    /// The label for a divert reset on one ingress/egress pair, when
    /// labeling is on.
    pub fn label_reset_ingress_egress(&self, ingress: u32, egress: u32) -> (r: Option<String>)
        ensures
            self.labeling_on ==> r is Some && r.unwrap()@ == spec_label_reset_ingress_egress_line(
                ingress,
                egress,
            ),
            !self.labeling_on ==> r is None,
    {
        if self.labeling_on {
            let mut line = String::from_str("label,type=reset,ingress=");
            push_dec_u32(&mut line, ingress);
            line.append(",egress=");
            push_dec_u32(&mut line, egress);
            line.append(" data=\"reset\"");
            proof {
                assert(line@ =~= spec_label_reset_ingress_egress_line(ingress, egress));
            }
            Some(line)
        } else {
            None
        }
    }

    /// The label for a divert install, when labeling is on.
    pub fn label_divert(
        &self,
        divert_type: String,
        ingress: u32,
        egress: u32,
        address: String,
    ) -> (r: Option<String>)
        ensures
            self.labeling_on ==> r is Some && r.unwrap()@ == spec_label_divert_line(
                divert_type@,
                ingress,
                egress,
                address@,
            ),
            !self.labeling_on ==> r is None,
    {
        if self.labeling_on {
            let mut line = String::from_str("label,type=divert,ingress=");
            push_dec_u32(&mut line, ingress);
            line.append(",egress=");
            push_dec_u32(&mut line, egress);
            line.append(",divert-type=");
            line.append(divert_type.as_str());
            line.append(" data=\"");
            line.append(address.as_str());
            line.append("\"");
            proof {
                assert(line@ =~= spec_label_divert_line(divert_type@, ingress, egress, address@));
            }
            Some(line)
        } else {
            None
        }
    }
}

} // verus!
