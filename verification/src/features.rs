//! The feature table: one entry per ingress port whose action bits enable
//! heavy-hitter detection or flow learning on that port.
//!
//! Resetting deletes every entry, whichever feature installed it: entries
//! are not yet tagged by feature kind, so stopping one feature also removes
//! the other's entries.

use vstd::prelude::*;

verus! {

/// One feature-table entry: the matched ingress port and the two action
/// bits.
#[derive(Clone, Copy, Debug, PartialEq, Eq, Structural)]
pub struct FeatureEntry {
    pub handle: u32,
    pub ingress_dev_port: u16,
    pub hhd: bool,
    pub flows: bool,
}

/// The mirror of the feature table, and the next free entry handle.
pub struct FeatureTable {
    pub entries: Vec<FeatureEntry>,
    pub next_entry_handle: u32,
}

impl FeatureTable {
    /// An empty feature table.
    pub fn init() -> (r: FeatureTable)
        ensures
            r.entries@ == Seq::<FeatureEntry>::empty(),
            r.next_entry_handle == 1,
    {
        FeatureTable { entries: Vec::new(), next_entry_handle: 1 }
    }

    /// Adds an entry enabling the given features on an ingress port.
    pub fn add_entry(&mut self, ingress_dev_port: u16, hhd: bool, flows: bool) -> (e: FeatureEntry)
        requires
            old(self).next_entry_handle < 0xffff_ffffu32,
        ensures
            e == (FeatureEntry {
                handle: old(self).next_entry_handle,
                ingress_dev_port,
                hhd,
                flows,
            }),
            final(self).entries@ == old(self).entries@.push(e),
            final(self).next_entry_handle == old(self).next_entry_handle + 1,
    {
        let e = FeatureEntry { handle: self.next_entry_handle, ingress_dev_port, hhd, flows };
        self.next_entry_handle = self.next_entry_handle + 1;
        self.entries.push(e);
        e
    }

    /// Deletes every entry, returning the handles to delete in table order.
    pub fn delete_all(&mut self) -> (deleted: Vec<u32>)
        ensures
            final(self).entries@ == Seq::<FeatureEntry>::empty(),
            deleted@ == old(self).entries@.map_values(|e: FeatureEntry| e.handle),
            final(self).next_entry_handle == old(self).next_entry_handle,
    {
        let mut deleted: Vec<u32> = Vec::new();
        let n = self.entries.len();
        let mut i: usize = 0;
        while i < n
            invariant
                n == self.entries@.len(),
                0 <= i <= n,
                deleted@ == self.entries@.take(i as int).map_values(|e: FeatureEntry| e.handle),
            decreases n - i,
        {
            deleted.push(self.entries[i].handle);
            proof {
                assert(self.entries@.take(i + 1).drop_last() =~= self.entries@.take(i as int));
                assert(deleted@ =~= self.entries@.take(i + 1).map_values(
                    |e: FeatureEntry| e.handle,
                ));
            }
            i = i + 1;
        }
        proof {
            assert(self.entries@.take(n as int) =~= self.entries@);
        }
        self.entries = Vec::new();
        deleted
    }
}

} // verus!
