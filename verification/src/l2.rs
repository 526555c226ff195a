//! L2 manager: static forwarding and the divert table.
//!
//! The manager mirrors the two match-action tables it owns. Every mutation
//! returns the device operations to apply — the entries to install or the
//! handles to delete — together with the telemetry label for the event.

use crate::hw::HWManager;
use crate::ip::convert_prefix_to_mask;
use crate::ip::parse_ipv4;
use crate::ip::push_dec_u32;
use crate::ip::lemma_ipv4_of;
use crate::ip::spec_dec;
use crate::ip::spec_ipv4_of;
use crate::ip::spec_mask;
use crate::label::LabelingManager;
use crate::label::spec_label_divert_line;
use crate::label::spec_label_reset_ingress_egress_line;
use crate::label::spec_label_reset_line;
use vstd::prelude::*;

verus! {

use vstd::string::StringExecFns;

/// Which IPv4 field a divert rule matches on.
#[derive(Clone, Copy, Debug, PartialEq, Eq, Structural)]
pub enum DivertType {
    IPSrc,
    IPDest,
}

/// A static forwarding connection from the operator configuration.
#[allow(non_snake_case)]
#[derive(Clone, Debug)]
pub struct Connection {
    pub From: u32,
    pub To: u32,
    pub Type: String,
}

/// Priority of operator-installed divert rules (lower numbers win in the
/// ternary table, so this is the weaker class).
pub const DIVERT_PRIORITY_OPERATOR: u32 = 10;

/// Priority of automatically installed divert rules.
pub const DIVERT_PRIORITY_AUTO: u32 = 1;

/// One entry of the forwarding table, keyed on the ingress device port.
#[derive(Clone, Copy, Debug, PartialEq, Eq, Structural)]
pub struct ForwardEntry {
    pub handle: u32,
    pub ingress_dev_port: u16,
    pub egress_dev_port: u16,
}

/// One entry of the divert table: the full ternary match spec, the
/// priority, and the egress action.
#[derive(Clone, Copy, Debug, PartialEq, Eq, Structural)]
pub struct DivertEntry {
    pub handle: u32,
    pub ingress_dev_port: u16,
    pub ipv4_src_addr: u32,
    pub ipv4_src_addr_mask: u32,
    pub ipv4_dst_addr: u32,
    pub ipv4_dst_addr_mask: u32,
    pub priority: u32,
    pub egress_dev_port: u16,
}

/// Why a divert install was rejected.
#[derive(Clone, Copy, Debug, PartialEq, Eq, Structural)]
pub enum DivertError {
    InvalidPrefixLength,
    InvalidIpAddress,
}

/// A divert install: the table entry to add, and the telemetry label.
#[derive(Debug)]
pub struct DivertInstall {
    pub entry: DivertEntry,
    pub label: Option<String>,
}

/// A divert removal: the handles to delete, and the telemetry label.
#[derive(Debug)]
pub struct DivertRemoval {
    pub deleted_handles: Vec<u32>,
    pub label: Option<String>,
}

/// The divert entry installed for the given match fields: the ingress port
/// is always matched; the IPv4 side selected by the divert type carries the
/// address and mask, the other side is zeroed.
pub open spec fn spec_divert_entry(
    handle: u32,
    divert_type: DivertType,
    ingress_dev_port: u16,
    egress_dev_port: u16,
    ip_address: u32,
    mask: u32,
    high_priority: bool,
) -> DivertEntry {
    DivertEntry {
        handle,
        ingress_dev_port,
        ipv4_src_addr: if divert_type == DivertType::IPSrc {
            ip_address
        } else {
            0
        },
        ipv4_src_addr_mask: if divert_type == DivertType::IPSrc {
            mask
        } else {
            0
        },
        ipv4_dst_addr: if divert_type == DivertType::IPDest {
            ip_address
        } else {
            0
        },
        ipv4_dst_addr_mask: if divert_type == DivertType::IPDest {
            mask
        } else {
            0
        },
        priority: if high_priority {
            DIVERT_PRIORITY_AUTO
        } else {
            DIVERT_PRIORITY_OPERATOR
        },
        egress_dev_port,
    }
}

/// Whether an entry matches on this ingress port and steers to this egress
/// port. Selective removal compares nothing else.
pub open spec fn spec_pair_matches(e: DivertEntry, ingress: u16, egress: u16) -> bool {
    e.ingress_dev_port == ingress && e.egress_dev_port == egress
}

pub open spec fn spec_is_auto(e: DivertEntry) -> bool {
    e.priority == DIVERT_PRIORITY_AUTO
}

/// The divert table after removing every entry on the pair, order kept.
pub open spec fn spec_remove_pair(
    entries: Seq<DivertEntry>,
    ingress: u16,
    egress: u16,
) -> Seq<DivertEntry>
    decreases entries.len(),
{
    if entries.len() == 0 {
        Seq::empty()
    } else {
        let rest = spec_remove_pair(entries.drop_last(), ingress, egress);
        if spec_pair_matches(entries.last(), ingress, egress) {
            rest
        } else {
            rest.push(entries.last())
        }
    }
}

/// The handles of the entries on the pair, in table order.
pub open spec fn spec_pair_handles(
    entries: Seq<DivertEntry>,
    ingress: u16,
    egress: u16,
) -> Seq<u32>
    decreases entries.len(),
{
    if entries.len() == 0 {
        Seq::empty()
    } else {
        let rest = spec_pair_handles(entries.drop_last(), ingress, egress);
        if spec_pair_matches(entries.last(), ingress, egress) {
            rest.push(entries.last().handle)
        } else {
            rest
        }
    }
}

/// How many automatic rules the table holds for this ingress/egress pair.
pub open spec fn spec_auto_count(entries: Seq<DivertEntry>, ingress: u16, egress: u16) -> int
    decreases entries.len(),
{
    if entries.len() == 0 {
        0
    } else {
        spec_auto_count(entries.drop_last(), ingress, egress) + if spec_is_auto(entries.last())
            && spec_pair_matches(entries.last(), ingress, egress) {
            1int
        } else {
            0int
        }
    }
}

/// At most one automatic rule per ingress/egress pair.
pub open spec fn spec_auto_unique(entries: Seq<DivertEntry>) -> bool {
    forall|ingress: u16, egress: u16| #[trigger] spec_auto_count(entries, ingress, egress) <= 1
}

pub proof fn lemma_auto_count_push(
    entries: Seq<DivertEntry>,
    e: DivertEntry,
    ingress: u16,
    egress: u16,
)
    ensures
        spec_auto_count(entries.push(e), ingress, egress) == spec_auto_count(
            entries,
            ingress,
            egress,
        ) + if spec_is_auto(e) && spec_pair_matches(e, ingress, egress) {
            1int
        } else {
            0int
        },
{
    assert(entries.push(e).drop_last() =~= entries);
    assert(entries.push(e).last() == e);
}

/// Selective removal zeroes the count on its own pair and leaves every
/// other pair's count alone.
pub proof fn lemma_auto_count_remove_pair(
    entries: Seq<DivertEntry>,
    ingress: u16,
    egress: u16,
    i2: u16,
    e2: u16,
)
    ensures
        spec_auto_count(spec_remove_pair(entries, ingress, egress), i2, e2) == if i2 == ingress
            && e2 == egress {
            0int
        } else {
            spec_auto_count(entries, i2, e2)
        },
    decreases entries.len(),
{
    if entries.len() > 0 {
        lemma_auto_count_remove_pair(entries.drop_last(), ingress, egress, i2, e2);
        let rest = spec_remove_pair(entries.drop_last(), ingress, egress);
        if spec_pair_matches(entries.last(), ingress, egress) {
        } else {
            lemma_auto_count_push(rest, entries.last(), i2, e2);
        }
    }
}

/// Installing a rule of operator priority cannot break auto-rule
/// uniqueness.
pub proof fn lemma_operator_install_preserves_auto_unique(
    entries: Seq<DivertEntry>,
    e: DivertEntry,
)
    requires
        spec_auto_unique(entries),
        !spec_is_auto(e),
    ensures
        spec_auto_unique(entries.push(e)),
{
    assert forall|i2: u16, e2: u16| #[trigger] spec_auto_count(entries.push(e), i2, e2) <= 1 by {
        lemma_auto_count_push(entries, e, i2, e2);
    }
}

/// Removing entries cannot break auto-rule uniqueness.
pub proof fn lemma_remove_pair_preserves_auto_unique(
    entries: Seq<DivertEntry>,
    ingress: u16,
    egress: u16,
)
    requires
        spec_auto_unique(entries),
    ensures
        spec_auto_unique(spec_remove_pair(entries, ingress, egress)),
{
    assert forall|i2: u16, e2: u16| #[trigger] spec_auto_count(
        spec_remove_pair(entries, ingress, egress),
        i2,
        e2,
    ) <= 1 by {
        lemma_auto_count_remove_pair(entries, ingress, egress, i2, e2);
    }
}

/// Removing every rule on a pair and then installing one rule on that pair
/// keeps at most one automatic rule per pair — however the new rule is
/// classed, and whatever the table held on that pair before.
pub proof fn lemma_auto_install_after_selective_reset(
    entries: Seq<DivertEntry>,
    ingress: u16,
    egress: u16,
    e: DivertEntry,
)
    requires
        spec_auto_unique(entries),
        spec_pair_matches(e, ingress, egress),
    ensures
        spec_auto_unique(spec_remove_pair(entries, ingress, egress).push(e)),
        spec_auto_count(spec_remove_pair(entries, ingress, egress).push(e), ingress, egress) <= 1,
{
    let removed = spec_remove_pair(entries, ingress, egress);
    assert forall|i2: u16, e2: u16| #[trigger] spec_auto_count(removed.push(e), i2, e2) <= 1 by {
        lemma_auto_count_remove_pair(entries, ingress, egress, i2, e2);
        lemma_auto_count_push(removed, e, i2, e2);
    }
}

/// Selective removal by pair removes exactly the rules on that pair: no
/// remaining entry is on the pair, and every entry on another pair stays.
pub proof fn lemma_selective_reset_removes_pair(
    entries: Seq<DivertEntry>,
    ingress: u16,
    egress: u16,
)
    ensures
        forall|i: int|
            0 <= i < spec_remove_pair(entries, ingress, egress).len() ==> !spec_pair_matches(
                #[trigger] spec_remove_pair(entries, ingress, egress)[i],
                ingress,
                egress,
            ),
        forall|i: int|
            0 <= i < entries.len() && !spec_pair_matches(#[trigger] entries[i], ingress, egress)
                ==> spec_remove_pair(entries, ingress, egress).contains(entries[i]),
    decreases entries.len(),
{
    if entries.len() > 0 {
        lemma_selective_reset_removes_pair(entries.drop_last(), ingress, egress);
        let prev = entries.drop_last();
        let rest = spec_remove_pair(prev, ingress, egress);
        assert(forall|i: int| 0 <= i < prev.len() ==> #[trigger] prev[i] == entries[i]);
        assert forall|i: int|
            0 <= i < entries.len() && !spec_pair_matches(
                #[trigger] entries[i],
                ingress,
                egress,
            ) implies spec_remove_pair(entries, ingress, egress).contains(entries[i]) by {
            if spec_pair_matches(entries.last(), ingress, egress) {
                assert(i < entries.len() - 1);
                assert(rest.contains(prev[i]));
            } else {
                assert(spec_remove_pair(entries, ingress, egress) == rest.push(entries.last()));
                if i < entries.len() - 1 {
                    assert(rest.contains(prev[i]));
                    let w = choose|w: int| 0 <= w < rest.len() && rest[w] == prev[i];
                    assert(rest.push(entries.last())[w] == prev[i]);
                } else {
                    assert(rest.push(entries.last()).last() == entries[i]);
                }
            }
        }
    }
}

/// The name of a divert type in telemetry labels.
pub open spec fn spec_divert_type_name(divert_type: DivertType) -> Seq<char> {
    match divert_type {
        DivertType::IPSrc => "IPSrc"@,
        DivertType::IPDest => "IPDest"@,
    }
}

fn divert_type_name(divert_type: DivertType) -> (r: String)
    ensures
        r@ == spec_divert_type_name(divert_type),
{
    match divert_type {
        DivertType::IPSrc => String::from_str("IPSrc"),
        DivertType::IPDest => String::from_str("IPDest"),
    }
}

/// The L2 manager: its mirror of the forwarding and divert tables, and the
/// next free entry handle.
pub struct L2Manager {
    pub forward_entries: Vec<ForwardEntry>,
    pub divert_entries: Vec<DivertEntry>,
    pub next_entry_handle: u32,
}

impl L2Manager {
    /// A manager with both tables empty.
    pub fn init() -> (r: L2Manager)
        ensures
            r.forward_entries@ == Seq::<ForwardEntry>::empty(),
            r.divert_entries@ == Seq::<DivertEntry>::empty(),
            r.next_entry_handle == 1,
    {
        L2Manager { forward_entries: Vec::new(), divert_entries: Vec::new(), next_entry_handle: 1 }
    }

    /// Installs one forwarding entry steering `dev_port_1` to `dev_port_2`.
    pub fn configure_from_port_to_port_forwarding(
        &mut self,
        dev_port_1: u32,
        dev_port_2: u32,
    ) -> (entry: ForwardEntry)
        requires
            old(self).next_entry_handle < 0xffff_ffffu32,
        ensures
            entry == (ForwardEntry {
                handle: old(self).next_entry_handle,
                ingress_dev_port: dev_port_1 as u16,
                egress_dev_port: dev_port_2 as u16,
            }),
            final(self).forward_entries@ == old(self).forward_entries@.push(entry),
            final(self).divert_entries == old(self).divert_entries,
            final(self).next_entry_handle == old(self).next_entry_handle + 1,
    {
        let entry = ForwardEntry {
            handle: self.next_entry_handle,
            ingress_dev_port: #[verifier::truncate] (dev_port_1 as u16),
            egress_dev_port: #[verifier::truncate] (dev_port_2 as u16),
        };
        self.next_entry_handle = self.next_entry_handle + 1;
        self.forward_entries.push(entry);
        entry
    }

    /// Installs forwarding entries in both directions between the two ports.
    pub fn configure_port_to_port_forwarding(
        &mut self,
        dev_port_1: u32,
        dev_port_2: u32,
    ) -> (entries: (ForwardEntry, ForwardEntry))
        requires
            old(self).next_entry_handle < 0xffff_fffeu32,
        ensures
            entries.0 == (ForwardEntry {
                handle: old(self).next_entry_handle,
                ingress_dev_port: dev_port_1 as u16,
                egress_dev_port: dev_port_2 as u16,
            }),
            entries.1 == (ForwardEntry {
                handle: (old(self).next_entry_handle + 1) as u32,
                ingress_dev_port: dev_port_2 as u16,
                egress_dev_port: dev_port_1 as u16,
            }),
            final(self).forward_entries@ == old(self).forward_entries@.push(entries.0).push(
                entries.1,
            ),
            final(self).divert_entries == old(self).divert_entries,
            final(self).next_entry_handle == old(self).next_entry_handle + 2,
    {
        let first = self.configure_from_port_to_port_forwarding(dev_port_1, dev_port_2);
        let second = self.configure_from_port_to_port_forwarding(dev_port_2, dev_port_1);
        (first, second)
    }

    /// Installs a divert rule.
    ///
    /// The chassis ports are translated to device ports, the address is
    /// parsed from dotted-decimal form, and the prefix length is turned
    /// into a mask; prefix lengths outside [1, 32] and strings that are
    /// not canonical dotted-decimal addresses are rejected, and nothing
    /// changes. On success the new entry is appended to the divert table
    /// and a telemetry label is produced when labeling is on.
    pub fn set_divert(
        &mut self,
        hw: &mut HWManager,
        labeling: &LabelingManager,
        divert_type: DivertType,
        chassis_port_ingress: u32,
        chassis_port_egress: u32,
        ip_address: &String,
        ip_prefix_length: u16,
        high_priority: bool,
    ) -> (r: Result<DivertInstall, DivertError>)
        requires
            old(self).next_entry_handle < 0xffff_ffffu32,
        ensures
            r is Ok <==> (1 <= ip_prefix_length <= 32 && spec_ipv4_of(ip_address@) is Some),
            (ip_prefix_length < 1 || ip_prefix_length > 32) ==> r == Err::<
                DivertInstall,
                DivertError,
            >(DivertError::InvalidPrefixLength) && *final(self) == *old(self) && *final(hw) == *old(hw),
            (1 <= ip_prefix_length <= 32 && spec_ipv4_of(ip_address@) is None) ==> r == Err::<
                DivertInstall,
                DivertError,
            >(DivertError::InvalidIpAddress) && *final(self) == *old(self) && *final(hw) == *old(hw),
            r is Ok ==> {
                let entry = spec_divert_entry(
                    old(self).next_entry_handle,
                    divert_type,
                    old(hw).spec_dev_port_of(chassis_port_ingress) as u16,
                    old(hw).spec_dev_port_of(chassis_port_egress) as u16,
                    spec_ipv4_of(ip_address@).unwrap(),
                    spec_mask(ip_prefix_length as u32),
                    high_priority,
                );
                &&& r.unwrap().entry == entry
                &&& final(self).divert_entries@ == old(self).divert_entries@.push(entry)
                &&& final(self).forward_entries == old(self).forward_entries
                &&& final(self).next_entry_handle == old(self).next_entry_handle + 1
                &&& final(hw).chassis_to_dev_port_map == old(hw).chassis_to_dev_port_map
                &&& final(hw).configured_ports == old(hw).configured_ports
                &&& (labeling.labeling_on ==> r.unwrap().label is Some && r.unwrap().label.unwrap()@
                    == spec_label_divert_line(
                    spec_divert_type_name(divert_type),
                    chassis_port_ingress,
                    chassis_port_egress,
                    ip_address@ + "/"@ + spec_dec(ip_prefix_length as nat),
                ))
                &&& (!labeling.labeling_on ==> r.unwrap().label is None)
                &&& (!high_priority && spec_auto_unique(old(self).divert_entries@)
                    ==> spec_auto_unique(final(self).divert_entries@))
            },
    {
        if ip_prefix_length < 1 || ip_prefix_length > 32 {
            return Err(DivertError::InvalidPrefixLength);
        }
        let ip_address_as_int = match parse_ipv4(ip_address.as_str()) {
            Some(v) => v,
            None => {
                proof {
                    lemma_ipv4_of(ip_address@);
                }
                return Err(DivertError::InvalidIpAddress);
            },
        };
        proof {
            lemma_ipv4_of(ip_address@);
        }
        let dev_port_ingress = hw.convert_chassis_port_to_dev_port(chassis_port_ingress);
        let dev_port_egress = hw.convert_chassis_port_to_dev_port(chassis_port_egress);
        let mask = convert_prefix_to_mask(ip_prefix_length as u32);
        let ingress = #[verifier::truncate] (dev_port_ingress as u16);
        let egress = #[verifier::truncate] (dev_port_egress as u16);
        let (src_addr, src_mask, dst_addr, dst_mask) = match divert_type {
            DivertType::IPSrc => (ip_address_as_int, mask, 0u32, 0u32),
            DivertType::IPDest => (0u32, 0u32, ip_address_as_int, mask),
        };
        let entry = DivertEntry {
            handle: self.next_entry_handle,
            ingress_dev_port: ingress,
            ipv4_src_addr: src_addr,
            ipv4_src_addr_mask: src_mask,
            ipv4_dst_addr: dst_addr,
            ipv4_dst_addr_mask: dst_mask,
            priority: if high_priority {
                DIVERT_PRIORITY_AUTO
            } else {
                DIVERT_PRIORITY_OPERATOR
            },
            egress_dev_port: egress,
        };
        self.next_entry_handle = self.next_entry_handle + 1;
        self.divert_entries.push(entry);
        let mut address = ip_address.clone();
        address.append("/");
        push_dec_u32(&mut address, ip_prefix_length as u32);
        proof {
            reveal_strlit("/");
            assert(address@ =~= ip_address@ + "/"@ + spec_dec(ip_prefix_length as nat));
        }
        let label = labeling.label_divert(
            divert_type_name(divert_type),
            chassis_port_ingress,
            chassis_port_egress,
            address,
        );
        proof {
            if !high_priority && spec_auto_unique(old(self).divert_entries@) {
                lemma_operator_install_preserves_auto_unique(old(self).divert_entries@, entry);
            }
        }
        Ok(DivertInstall { entry, label })
    }

    /// Empties the divert table, returning every handle to delete, in table
    /// order, and the reset label.
    pub fn reset_divert_table(&mut self, labeling: &LabelingManager) -> (r: DivertRemoval)
        ensures
            final(self).divert_entries@ == Seq::<DivertEntry>::empty(),
            r.deleted_handles@ == old(self).divert_entries@.map_values(|e: DivertEntry| e.handle),
            final(self).forward_entries == old(self).forward_entries,
            final(self).next_entry_handle == old(self).next_entry_handle,
            labeling.labeling_on ==> r.label is Some && r.label.unwrap()@
                == spec_label_reset_line(),
            !labeling.labeling_on ==> r.label is None,
            spec_auto_unique(final(self).divert_entries@),
    {
        let mut deleted: Vec<u32> = Vec::new();
        let n = self.divert_entries.len();
        let mut i: usize = 0;
        while i < n
            invariant
                n == self.divert_entries@.len(),
                0 <= i <= n,
                deleted@ == self.divert_entries@.take(i as int).map_values(
                    |e: DivertEntry| e.handle,
                ),
            decreases n - i,
        {
            deleted.push(self.divert_entries[i].handle);
            proof {
                assert(self.divert_entries@.take(i + 1).drop_last() =~= self.divert_entries@.take(
                    i as int,
                ));
                assert(deleted@ =~= self.divert_entries@.take(i + 1).map_values(
                    |e: DivertEntry| e.handle,
                ));
            }
            i = i + 1;
        }
        proof {
            assert(self.divert_entries@.take(n as int) =~= self.divert_entries@);
        }
        self.divert_entries = Vec::new();
        proof {
            assert forall|ingress: u16, egress: u16| #[trigger] spec_auto_count(
                self.divert_entries@,
                ingress,
                egress,
            ) <= 1 by {
                assert(self.divert_entries@.len() == 0);
            }
        }
        let label = labeling.label_reset();
        DivertRemoval { deleted_handles: deleted, label }
    }

    /// Removes every divert rule whose match ingress port and action egress
    /// port equal the translations of the given chassis ports; no other
    /// field is compared. Returns the handles to delete and the reset label
    /// for the pair.
    pub fn reset_divert_for_ingress_egress_port(
        &mut self,
        hw: &mut HWManager,
        labeling: &LabelingManager,
        chassis_port_ingress: u32,
        chassis_port_egress: u32,
    ) -> (r: DivertRemoval)
        ensures
            final(self).divert_entries@ == spec_remove_pair(
                old(self).divert_entries@,
                old(hw).spec_dev_port_of(chassis_port_ingress) as u16,
                old(hw).spec_dev_port_of(chassis_port_egress) as u16,
            ),
            r.deleted_handles@ == spec_pair_handles(
                old(self).divert_entries@,
                old(hw).spec_dev_port_of(chassis_port_ingress) as u16,
                old(hw).spec_dev_port_of(chassis_port_egress) as u16,
            ),
            final(self).forward_entries == old(self).forward_entries,
            final(self).next_entry_handle == old(self).next_entry_handle,
            final(hw).chassis_to_dev_port_map == old(hw).chassis_to_dev_port_map,
            final(hw).configured_ports == old(hw).configured_ports,
            labeling.labeling_on ==> r.label is Some && r.label.unwrap()@
                == spec_label_reset_ingress_egress_line(
                chassis_port_ingress,
                chassis_port_egress,
            ),
            !labeling.labeling_on ==> r.label is None,
            spec_auto_unique(old(self).divert_entries@) ==> spec_auto_unique(
                final(self).divert_entries@,
            ),
    {
        let dev_port_ingress = hw.convert_chassis_port_to_dev_port(chassis_port_ingress);
        let dev_port_egress = hw.convert_chassis_port_to_dev_port(chassis_port_egress);
        let ingress = #[verifier::truncate] (dev_port_ingress as u16);
        let egress = #[verifier::truncate] (dev_port_egress as u16);
        let mut kept: Vec<DivertEntry> = Vec::new();
        let mut deleted: Vec<u32> = Vec::new();
        let n = self.divert_entries.len();
        let mut i: usize = 0;
        while i < n
            invariant
                n == self.divert_entries@.len(),
                0 <= i <= n,
                kept@ == spec_remove_pair(self.divert_entries@.take(i as int), ingress, egress),
                deleted@ == spec_pair_handles(
                    self.divert_entries@.take(i as int),
                    ingress,
                    egress,
                ),
            decreases n - i,
        {
            let e = self.divert_entries[i];
            proof {
                assert(self.divert_entries@.take(i + 1).drop_last() =~= self.divert_entries@.take(
                    i as int,
                ));
                assert(self.divert_entries@.take(i + 1).last() == e);
            }
            if e.ingress_dev_port == ingress && e.egress_dev_port == egress {
                deleted.push(e.handle);
            } else {
                kept.push(e);
            }
            i = i + 1;
        }
        proof {
            assert(self.divert_entries@.take(n as int) =~= self.divert_entries@);
        }
        self.divert_entries = kept;
        proof {
            if spec_auto_unique(old(self).divert_entries@) {
                lemma_remove_pair_preserves_auto_unique(old(self).divert_entries@, ingress, egress);
            }
        }
        let label = labeling.label_reset_ingress_egress(chassis_port_ingress, chassis_port_egress);
        DivertRemoval { deleted_handles: deleted, label }
    }
}

/// The address value of a canonical dotted-decimal string.
pub fn convert_ip_address_to_int(ip_address: &String) -> (r: Option<u32>)
    ensures
        r == spec_ipv4_of(ip_address@),
{
    let r = parse_ipv4(ip_address.as_str());
    proof {
        lemma_ipv4_of(ip_address@);
    }
    r
}

} // verus!
