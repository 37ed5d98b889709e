//! The cooldown cache: a bounded, insertion-ordered memory of recently
//! accepted transfer-flagged name claims.
//!
//! The cache enforces the minimum-interval-between-transfers rule without a
//! full table scan.  It is an optimization over the registry's history log,
//! never the sole source of truth: losing it only makes the indexer
//! temporarily over-permissive.  Eviction is first-in-first-out — recency of
//! insertion, not of access, governs who leaves when the capacity is reached.
//!
//! The cooldown probe compares the candidate's block-height label against
//! the `address` field of cached claims: an accepted claim's address is its
//! derived block-height label, so the address field is the key under which
//! transfers are remembered.

use vstd::prelude::*;

use crate::registry::BnsEntry;
use crate::registry::BnsEntryV;

verus! {

/// The number of blocks that must pass between successive accepted transfers
/// for the same key.
pub const COOLDOWN_WINDOW: u64 = 144;

/// One remembered transfer: the block it was observed in and the claim.
pub struct CacheSlot {
    pub height: u64,
    pub entry: BnsEntry,
}

#[verifier::ext_equal]
pub ghost struct CacheSlotV {
    pub height: u64,
    pub entry: BnsEntryV,
}

impl View for CacheSlot {
    type V = CacheSlotV;

    open spec fn view(&self) -> CacheSlotV {
        CacheSlotV { height: self.height, entry: self.entry@ }
    }
}

/// Whether the cached slot `s` forbids a claim on `label` at `current_block`.
pub open spec fn cooldown_hit(s: CacheSlotV, label: Seq<u8>, current_block: u64) -> bool {
    &&& s.entry.address == label
    &&& s.entry.transfer_status
    &&& s.height <= current_block
    &&& current_block - s.height < COOLDOWN_WINDOW
}

/// Whether any cached slot forbids a claim on `label` at `current_block`.
pub open spec fn cooldown_violation(c: Seq<CacheSlotV>, label: Seq<u8>, current_block: u64) -> bool {
    exists|i: int| 0 <= i < c.len() && cooldown_hit(#[trigger] c[i], label, current_block)
}

/// The bounded recency cache of transfer-flagged name claims.
pub struct BitmapCache {
    pub bns_entries: Vec<CacheSlot>,
    pub max_size: usize,
}

impl View for BitmapCache {
    type V = Seq<CacheSlotV>;

    open spec fn view(&self) -> Seq<CacheSlotV> {
        self.bns_entries@.map_values(|s: CacheSlot| s@)
    }
}

impl BitmapCache {
    /// An empty cache bounded to `max_size` remembered transfers.
    pub fn new(max_size: usize) -> (r: Self)
        ensures
            r@ == Seq::<CacheSlotV>::empty(),
            r.max_size == max_size,
    {
        let r = BitmapCache { bns_entries: Vec::new(), max_size };
        proof {
            assert(r@ =~= Seq::<CacheSlotV>::empty());
        }
        r
    }

    /// Remembers a transfer-flagged claim, evicting the oldest-inserted slots
    /// once the capacity is exceeded.  Claims without the transfer flag are
    /// not remembered at all.
    pub fn add_bns_entry(&mut self, block_height: u64, entry: BnsEntry)
        ensures
            final(self).max_size == old(self).max_size,
            !entry@.transfer_status ==> final(self)@ == old(self)@,
            entry@.transfer_status ==> {
                let pushed = old(self)@.push(
                    CacheSlotV { height: block_height, entry: entry@ },
                );
                final(self)@ == pushed.skip(
                    if pushed.len() > old(self).max_size {
                        pushed.len() - old(self).max_size
                    } else {
                        0
                    },
                )
            },
    {
        if !entry.transfer_status {
            return ;
        }
        let ghost pre = self.bns_entries@;
        let slot = CacheSlot { height: block_height, entry };
        self.bns_entries.push(slot);
        proof {
            crate::registry::lemma_map_values_push(
                pre,
                |s: CacheSlot| s@,
                self.bns_entries@[pre.len() as int],
            );
        }
        let ghost pushed = self@;
        proof {
            assert(self@ =~= pushed.skip(pushed.len() - self.bns_entries@.len()));
        }
        while self.bns_entries.len() > self.max_size
            invariant
                self.max_size == old(self).max_size,
                self@ == pushed.skip(pushed.len() - self.bns_entries@.len()),
                self.bns_entries@.len() <= pushed.len(),
                pushed.len() > self.max_size ==> self.bns_entries@.len() >= self.max_size,
                pushed.len() <= self.max_size ==> self.bns_entries@.len() == pushed.len(),
            decreases self.bns_entries@.len(),
        {
            let ghost before = self.bns_entries@;
            self.bns_entries.remove(0);
            proof {
                assert(self.bns_entries@ =~= before.subrange(1, before.len() as int));
                assert forall|m: int|
                    0 <= m < self@.len() implies self@[m] == pushed.skip(
                    pushed.len() - self.bns_entries@.len(),
                )[m] by {
                    assert(self@[m] == before.subrange(1, before.len() as int)[m]@);
                    assert(before[m + 1]@ == pushed.skip(pushed.len() - before.len())[m + 1]);
                }
                assert(self@ =~= pushed.skip(pushed.len() - self.bns_entries@.len()));
            }
        }
        proof {
            if pushed.len() > old(self).max_size {
            } else {
                assert(self@ =~= pushed.skip(0));
            }
        }
    }

    /// True when no remembered transfer for `blockheight` is still inside the
    /// cooldown window at `current_block`.
    pub fn check_cooldown(&self, blockheight: &Vec<u8>, current_block: u64) -> (r: bool)
        ensures
            r == !cooldown_violation(self@, blockheight@, current_block),
    {
        let mut i: usize = 0;
        while i < self.bns_entries.len()
            invariant
                0 <= i <= self.bns_entries@.len(),
                forall|j: int| 0 <= j < i ==> !cooldown_hit(#[trigger] self@[j], blockheight@, current_block),
            decreases self.bns_entries@.len() - i,
        {
            let slot = &self.bns_entries[i];
            if crate::bytes::bytes_eq(&slot.entry.address, blockheight) && slot.entry.transfer_status
                && slot.height <= current_block && current_block - slot.height < COOLDOWN_WINDOW {
                proof {
                    assert(cooldown_hit(self@[i as int], blockheight@, current_block));
                }
                return false;
            }
            i = i + 1;
        }
        true
    }
}

/// A remembered transfer for the probed key inside the window forbids the
/// claim.
pub proof fn lemma_cooldown_blocks_repeat(c: Seq<CacheSlotV>, i: int, label: Seq<u8>, current_block: u64)
    requires
        0 <= i < c.len(),
        c[i].entry.address == label,
        c[i].entry.transfer_status,
        c[i].height <= current_block,
        current_block - c[i].height < COOLDOWN_WINDOW,
    ensures
        cooldown_violation(c, label, current_block),
{
}

/// Once every remembered transfer for the probed key is a full window old,
/// the claim passes the cooldown check.
pub proof fn lemma_cooldown_expires(c: Seq<CacheSlotV>, label: Seq<u8>, current_block: u64)
    requires
        forall|i: int|
            0 <= i < c.len() && (#[trigger] c[i]).entry.address == label
                && c[i].entry.transfer_status ==> c[i].height + COOLDOWN_WINDOW <= current_block,
    ensures
        !cooldown_violation(c, label, current_block),
{
}

} // verus!
