//! The registry store: bitmap claims, name claims, the append-only name-claim
//! history, and the quarantine table for claims that failed validation on a
//! test network.
//!
//! The store owns the schema invariants: at most one bitmap claim per
//! block-height label, at most one name claim per inscription id, at most one
//! quarantine row per inscription id.  All writes are idempotent upserts, so a
//! caller that retries a batch after a failure cannot corrupt the registry.

use vstd::prelude::*;

use crate::bytes::copy_bytes;
use crate::bytes::prune_mode;

verus! {

/// Why a name claim was turned away.
#[derive(Clone, Copy, Debug, PartialEq, Eq, Structural)]
pub enum RejectReason {
    /// The referenced satoshi location has no accepted bitmap claim.
    BitmapNotFound,
    /// A digit-leading name does not spell the claimed label plus the suffix.
    NameMismatch,
    /// The district label embedded in a parcel-style name has no claim.
    DistrictNotFound,
    /// The district's inscription does not acknowledge the claim as a child.
    NotChildOfDistrict,
    /// Another accepted transfer for the same key is still in its cooldown.
    CooldownViolation,
    /// The external ownership lookup named a different owner for the satoshi.
    OwnershipMismatch,
}

/// An accepted claim on a block-height label.
pub struct BitmapEntry {
    pub blockheight: Vec<u8>,
    pub timestamp: u64,
    pub inscription_id: Vec<u8>,
    pub satpoint: Vec<u8>,
    pub current_owner: Vec<u8>,
    pub transfer_block: u64,
}

#[verifier::ext_equal]
pub ghost struct BitmapEntryV {
    pub blockheight: Seq<u8>,
    pub timestamp: u64,
    pub inscription_id: Seq<u8>,
    pub satpoint: Seq<u8>,
    pub current_owner: Seq<u8>,
    pub transfer_block: u64,
}

impl View for BitmapEntry {
    type V = BitmapEntryV;

    open spec fn view(&self) -> BitmapEntryV {
        BitmapEntryV {
            blockheight: self.blockheight@,
            timestamp: self.timestamp,
            inscription_id: self.inscription_id@,
            satpoint: self.satpoint@,
            current_owner: self.current_owner@,
            transfer_block: self.transfer_block,
        }
    }
}

impl BitmapEntry {
    /// A fresh entry holding the same values.
    pub fn duplicate(&self) -> (r: Self)
        ensures
            r@ == self@,
    {
        let r = BitmapEntry {
            blockheight: copy_bytes(&self.blockheight),
            timestamp: self.timestamp,
            inscription_id: copy_bytes(&self.inscription_id),
            satpoint: copy_bytes(&self.satpoint),
            current_owner: copy_bytes(&self.current_owner),
            transfer_block: self.transfer_block,
        };
        proof {
            assert(r@ =~= self@);
        }
        r
    }
}

/// An accepted human-readable name claim.
pub struct BnsEntry {
    pub name: Vec<u8>,
    pub address: Vec<u8>,
    pub owner: Vec<u8>,
    pub inscription_block: u64,
    pub tx_index: u64,
    pub inscription_id: Vec<u8>,
    pub sat_number: u64,
    pub transfer_status: bool,
    pub transfer_block: u64,
    pub timestamp: u64,
    pub original_blockheight: Vec<u8>,
    pub previous_owner: Option<Vec<u8>>,
    pub previous_inscription_id: Option<Vec<u8>>,
    pub previous_sat_number: Option<u64>,
}

#[verifier::ext_equal]
pub ghost struct BnsEntryV {
    pub name: Seq<u8>,
    pub address: Seq<u8>,
    pub owner: Seq<u8>,
    pub inscription_block: u64,
    pub tx_index: u64,
    pub inscription_id: Seq<u8>,
    pub sat_number: u64,
    pub transfer_status: bool,
    pub transfer_block: u64,
    pub timestamp: u64,
    pub original_blockheight: Seq<u8>,
    pub previous_owner: Option<Seq<u8>>,
    pub previous_inscription_id: Option<Seq<u8>>,
    pub previous_sat_number: Option<u64>,
}

pub open spec fn opt_bytes_view(o: Option<Vec<u8>>) -> Option<Seq<u8>> {
    match o {
        Some(v) => Some(v@),
        None => None,
    }
}

impl View for BnsEntry {
    type V = BnsEntryV;

    open spec fn view(&self) -> BnsEntryV {
        BnsEntryV {
            name: self.name@,
            address: self.address@,
            owner: self.owner@,
            inscription_block: self.inscription_block,
            tx_index: self.tx_index,
            inscription_id: self.inscription_id@,
            sat_number: self.sat_number,
            transfer_status: self.transfer_status,
            transfer_block: self.transfer_block,
            timestamp: self.timestamp,
            original_blockheight: self.original_blockheight@,
            previous_owner: opt_bytes_view(self.previous_owner),
            previous_inscription_id: opt_bytes_view(self.previous_inscription_id),
            previous_sat_number: self.previous_sat_number,
        }
    }
}

fn copy_opt_bytes(o: &Option<Vec<u8>>) -> (r: Option<Vec<u8>>)
    ensures
        opt_bytes_view(r) == opt_bytes_view(*o),
{
    match o {
        Some(v) => Some(copy_bytes(v)),
        None => None,
    }
}

impl BnsEntry {
    /// A fresh entry holding the same values.
    pub fn duplicate(&self) -> (r: Self)
        ensures
            r@ == self@,
    {
        let r = BnsEntry {
            name: copy_bytes(&self.name),
            address: copy_bytes(&self.address),
            owner: copy_bytes(&self.owner),
            inscription_block: self.inscription_block,
            tx_index: self.tx_index,
            inscription_id: copy_bytes(&self.inscription_id),
            sat_number: self.sat_number,
            transfer_status: self.transfer_status,
            transfer_block: self.transfer_block,
            timestamp: self.timestamp,
            original_blockheight: copy_bytes(&self.original_blockheight),
            previous_owner: copy_opt_bytes(&self.previous_owner),
            previous_inscription_id: copy_opt_bytes(&self.previous_inscription_id),
            previous_sat_number: self.previous_sat_number,
        };
        proof {
            assert(r@ =~= self@);
        }
        r
    }
}

/// A name claim that failed validation on a test network, kept for review.
pub struct QuarantineEntry {
    pub inscription_id: Vec<u8>,
    pub name: Vec<u8>,
    pub address: Vec<u8>,
    pub owner: Vec<u8>,
    pub inscription_block: u64,
    pub tx_index: u64,
    pub sat_number: u64,
    pub reason: RejectReason,
}

#[verifier::ext_equal]
pub ghost struct QuarantineEntryV {
    pub inscription_id: Seq<u8>,
    pub name: Seq<u8>,
    pub address: Seq<u8>,
    pub owner: Seq<u8>,
    pub inscription_block: u64,
    pub tx_index: u64,
    pub sat_number: u64,
    pub reason: RejectReason,
}

impl View for QuarantineEntry {
    type V = QuarantineEntryV;

    open spec fn view(&self) -> QuarantineEntryV {
        QuarantineEntryV {
            inscription_id: self.inscription_id@,
            name: self.name@,
            address: self.address@,
            owner: self.owner@,
            inscription_block: self.inscription_block,
            tx_index: self.tx_index,
            sat_number: self.sat_number,
            reason: self.reason,
        }
    }
}

impl QuarantineEntry {
    /// A fresh entry holding the same values.
    pub fn duplicate(&self) -> (r: Self)
        ensures
            r@ == self@,
    {
        let r = QuarantineEntry {
            inscription_id: copy_bytes(&self.inscription_id),
            name: copy_bytes(&self.name),
            address: copy_bytes(&self.address),
            owner: copy_bytes(&self.owner),
            inscription_block: self.inscription_block,
            tx_index: self.tx_index,
            sat_number: self.sat_number,
            reason: self.reason,
        };
        proof {
            assert(r@ =~= self@);
        }
        r
    }
}

/// Mapping a sequence and then pushing is pushing and then mapping.
pub proof fn lemma_map_values_push<T, U>(s: Seq<T>, f: spec_fn(T) -> U, x: T)
    ensures
        (s.push(x)).map_values(f) == s.map_values(f).push(f(x)),
{
    assert((s.push(x)).map_values(f) =~= s.map_values(f).push(f(x)));
}

/// Mapping a sequence and then updating is updating and then mapping.
pub proof fn lemma_map_values_update<T, U>(s: Seq<T>, f: spec_fn(T) -> U, i: int, x: T)
    requires
        0 <= i < s.len(),
    ensures
        (s.update(i, x)).map_values(f) == s.map_values(f).update(i, f(x)),
{
    assert((s.update(i, x)).map_values(f) =~= s.map_values(f).update(i, f(x)));
}

/// Whether some entry claims `label`.
pub open spec fn has_label(v: Seq<BitmapEntryV>, label: Seq<u8>) -> bool {
    exists|i: int| 0 <= i < v.len() && (#[trigger] v[i]).blockheight == label
}

/// The index of the entry claiming `label`; meaningful under uniqueness.
pub open spec fn label_index(v: Seq<BitmapEntryV>, label: Seq<u8>) -> int {
    choose|i: int| 0 <= i < v.len() && (#[trigger] v[i]).blockheight == label
}

/// Whether some entry sits on the satoshi location `sp`.
pub open spec fn has_satpoint(v: Seq<BitmapEntryV>, sp: Seq<u8>) -> bool {
    exists|i: int| 0 <= i < v.len() && (#[trigger] v[i]).satpoint == sp
}

/// The index of the first entry on the satoshi location `sp`.
pub open spec fn first_satpoint_index(v: Seq<BitmapEntryV>, sp: Seq<u8>) -> int {
    choose|i: int|
        0 <= i < v.len() && (#[trigger] v[i]).satpoint == sp && forall|j: int|
            0 <= j < i ==> v[j].satpoint != sp
}

/// Whether some name claim carries the inscription id `id`.
pub open spec fn has_name_id(v: Seq<BnsEntryV>, id: Seq<u8>) -> bool {
    exists|i: int| 0 <= i < v.len() && (#[trigger] v[i]).inscription_id == id
}

pub open spec fn name_id_index(v: Seq<BnsEntryV>, id: Seq<u8>) -> int {
    choose|i: int| 0 <= i < v.len() && (#[trigger] v[i]).inscription_id == id
}

pub open spec fn has_quarantine_id(v: Seq<QuarantineEntryV>, id: Seq<u8>) -> bool {
    exists|i: int| 0 <= i < v.len() && (#[trigger] v[i]).inscription_id == id
}

pub open spec fn quarantine_id_index(v: Seq<QuarantineEntryV>, id: Seq<u8>) -> int {
    choose|i: int| 0 <= i < v.len() && (#[trigger] v[i]).inscription_id == id
}

/// No two entries claim the same block-height label.
pub open spec fn unique_labels(v: Seq<BitmapEntryV>) -> bool {
    forall|i: int, j: int|
        0 <= i < v.len() && 0 <= j < v.len() && i != j ==> (#[trigger] v[i]).blockheight != (
        #[trigger] v[j]).blockheight
}

/// No two name claims carry the same inscription id.
pub open spec fn unique_name_ids(v: Seq<BnsEntryV>) -> bool {
    forall|i: int, j: int|
        0 <= i < v.len() && 0 <= j < v.len() && i != j ==> (#[trigger] v[i]).inscription_id != (
        #[trigger] v[j]).inscription_id
}

/// No two quarantine rows carry the same inscription id.
pub open spec fn unique_quarantine_ids(v: Seq<QuarantineEntryV>) -> bool {
    forall|i: int, j: int|
        0 <= i < v.len() && 0 <= j < v.len() && i != j ==> (#[trigger] v[i]).inscription_id != (
        #[trigger] v[j]).inscription_id
}

/// Replacing an entry by one with the same label keeps labels unique.
pub proof fn lemma_unique_labels_update(v: Seq<BitmapEntryV>, i: int, e: BitmapEntryV)
    requires
        unique_labels(v),
        0 <= i < v.len(),
        e.blockheight == v[i].blockheight,
    ensures
        unique_labels(v.update(i, e)),
{
}

/// Adding an entry with a fresh label keeps labels unique.
pub proof fn lemma_unique_labels_push(v: Seq<BitmapEntryV>, e: BitmapEntryV)
    requires
        unique_labels(v),
        forall|j: int| 0 <= j < v.len() ==> (#[trigger] v[j]).blockheight != e.blockheight,
    ensures
        unique_labels(v.push(e)),
{
}

/// Replacing a name claim by one with the same id keeps ids unique.
pub proof fn lemma_unique_name_ids_update(v: Seq<BnsEntryV>, i: int, e: BnsEntryV)
    requires
        unique_name_ids(v),
        0 <= i < v.len(),
        e.inscription_id == v[i].inscription_id,
    ensures
        unique_name_ids(v.update(i, e)),
{
}

/// Adding a name claim with a fresh id keeps ids unique.
pub proof fn lemma_unique_name_ids_push(v: Seq<BnsEntryV>, e: BnsEntryV)
    requires
        unique_name_ids(v),
        forall|j: int| 0 <= j < v.len() ==> (#[trigger] v[j]).inscription_id != e.inscription_id,
    ensures
        unique_name_ids(v.push(e)),
{
}

/// Replacing a quarantine row by one with the same id keeps ids unique.
pub proof fn lemma_unique_quarantine_ids_update(v: Seq<QuarantineEntryV>, i: int, e: QuarantineEntryV)
    requires
        unique_quarantine_ids(v),
        0 <= i < v.len(),
        e.inscription_id == v[i].inscription_id,
    ensures
        unique_quarantine_ids(v.update(i, e)),
{
}

/// Adding a quarantine row with a fresh id keeps ids unique.
pub proof fn lemma_unique_quarantine_ids_push(v: Seq<QuarantineEntryV>, e: QuarantineEntryV)
    requires
        unique_quarantine_ids(v),
        forall|j: int| 0 <= j < v.len() ==> (#[trigger] v[j]).inscription_id != e.inscription_id,
    ensures
        unique_quarantine_ids(v.push(e)),
{
}

/// The result of upserting a bitmap claim keyed by its label.
pub open spec fn upsert_bitmaps(v: Seq<BitmapEntryV>, e: BitmapEntryV) -> Seq<BitmapEntryV> {
    if has_label(v, e.blockheight) {
        v.update(label_index(v, e.blockheight), e)
    } else {
        v.push(e)
    }
}

/// The result of upserting a name claim keyed by its inscription id.
pub open spec fn upsert_names(v: Seq<BnsEntryV>, e: BnsEntryV) -> Seq<BnsEntryV> {
    if has_name_id(v, e.inscription_id) {
        v.update(name_id_index(v, e.inscription_id), e)
    } else {
        v.push(e)
    }
}

/// The result of upserting a quarantine row keyed by its inscription id.
pub open spec fn upsert_quarantine(v: Seq<QuarantineEntryV>, e: QuarantineEntryV) -> Seq<QuarantineEntryV> {
    if has_quarantine_id(v, e.inscription_id) {
        v.update(quarantine_id_index(v, e.inscription_id), e)
    } else {
        v.push(e)
    }
}

#[verifier::ext_equal]
pub ghost struct RegistryV {
    pub bitmaps: Seq<BitmapEntryV>,
    pub names: Seq<BnsEntryV>,
    pub history: Seq<BnsEntryV>,
    pub quarantine: Seq<QuarantineEntryV>,
}

/// The four logical tables of the registry.
pub struct Registry {
    pub bitmaps: Vec<BitmapEntry>,
    pub names: Vec<BnsEntry>,
    pub history: Vec<BnsEntry>,
    pub quarantine: Vec<QuarantineEntry>,
}

impl View for Registry {
    type V = RegistryV;

    open spec fn view(&self) -> RegistryV {
        RegistryV {
            bitmaps: self.bitmaps@.map_values(|e: BitmapEntry| e@),
            names: self.names@.map_values(|e: BnsEntry| e@),
            history: self.history@.map_values(|e: BnsEntry| e@),
            quarantine: self.quarantine@.map_values(|e: QuarantineEntry| e@),
        }
    }
}

impl Registry {
    /// The schema invariants: each table's primary key is unique.
    pub open spec fn wf(self) -> bool {
        &&& unique_labels(self@.bitmaps)
        &&& unique_name_ids(self@.names)
        &&& unique_quarantine_ids(self@.quarantine)
    }

    /// An empty registry.
    pub fn new() -> (r: Self)
        ensures
            r.wf(),
            r@.bitmaps == Seq::<BitmapEntryV>::empty(),
            r@.names == Seq::<BnsEntryV>::empty(),
            r@.history == Seq::<BnsEntryV>::empty(),
            r@.quarantine == Seq::<QuarantineEntryV>::empty(),
    {
        let r = Registry { bitmaps: Vec::new(), names: Vec::new(), history: Vec::new(), quarantine: Vec::new() };
        proof {
            assert(r@.bitmaps =~= Seq::<BitmapEntryV>::empty());
            assert(r@.names =~= Seq::<BnsEntryV>::empty());
            assert(r@.history =~= Seq::<BnsEntryV>::empty());
            assert(r@.quarantine =~= Seq::<QuarantineEntryV>::empty());
        }
        r
    }

    /// The claim on `label`, if the registry holds one.
    pub fn lookup_bitmap_by_label(&self, label: &Vec<u8>) -> (r: Option<&BitmapEntry>)
        requires
            self.wf(),
        ensures
            match r {
                Some(e) => has_label(self@.bitmaps, label@) && e@ == self@.bitmaps[label_index(
                    self@.bitmaps,
                    label@,
                )],
                None => !has_label(self@.bitmaps, label@),
            },
    {
        let mut i: usize = 0;
        while i < self.bitmaps.len()
            invariant
                self.wf(),
                0 <= i <= self@.bitmaps.len(),
                self@.bitmaps.len() == self.bitmaps@.len(),
                forall|j: int| 0 <= j < i ==> (#[trigger] self@.bitmaps[j]).blockheight != label@,
            decreases self@.bitmaps.len() - i,
        {
            if crate::bytes::bytes_eq(&self.bitmaps[i].blockheight, label) {
                proof {
                    assert(self@.bitmaps[i as int].blockheight == label@);
                    let k = label_index(self@.bitmaps, label@);
                    assert(0 <= k < self@.bitmaps.len() && self@.bitmaps[k].blockheight == label@);
                    assert(k == i as int);
                }
                return Some(&self.bitmaps[i]);
            }
            i = i + 1;
        }
        None
    }

    /// The first claim sitting on the satoshi location `sp`, if any.
    pub fn lookup_bitmap_by_satpoint(&self, sp: &Vec<u8>) -> (r: Option<&BitmapEntry>)
        ensures
            match r {
                Some(e) => has_satpoint(self@.bitmaps, sp@) && e@ == self@.bitmaps[
                    first_satpoint_index(self@.bitmaps, sp@)],
                None => !has_satpoint(self@.bitmaps, sp@),
            },
    {
        let mut i: usize = 0;
        while i < self.bitmaps.len()
            invariant
                0 <= i <= self@.bitmaps.len(),
                self@.bitmaps.len() == self.bitmaps@.len(),
                forall|j: int| 0 <= j < i ==> (#[trigger] self@.bitmaps[j]).satpoint != sp@,
            decreases self@.bitmaps.len() - i,
        {
            if crate::bytes::bytes_eq(&self.bitmaps[i].satpoint, sp) {
                proof {
                    assert(self@.bitmaps[i as int].satpoint == sp@);
                    let k = first_satpoint_index(self@.bitmaps, sp@);
                    assert(0 <= k < self@.bitmaps.len() && self@.bitmaps[k].satpoint == sp@
                        && forall|j: int| 0 <= j < k ==> self@.bitmaps[j].satpoint != sp@);
                    assert(!(k < i as int) && !((i as int) < k));
                }
                return Some(&self.bitmaps[i]);
            }
            i = i + 1;
        }
        None
    }

    /// Idempotent upsert of a bitmap claim, keyed by its block-height label.
    pub fn store_bitmap_entry(&mut self, entry: &BitmapEntry)
        requires
            old(self).wf(),
        ensures
            final(self).wf(),
            has_label(old(self)@.bitmaps, entry@.blockheight) ==> final(self)@.bitmaps == old(self)@.bitmaps.update(label_index(old(self)@.bitmaps, entry@.blockheight), entry@),
            !has_label(old(self)@.bitmaps, entry@.blockheight) ==> final(self)@.bitmaps == old(self)@.bitmaps.push(entry@),
            final(self)@.names == old(self)@.names,
            final(self)@.history == old(self)@.history,
            final(self)@.quarantine == old(self)@.quarantine,
    {
        let ghost pre = self.bitmaps@;
        let mut i: usize = 0;
        while i < self.bitmaps.len()
            invariant
                old(self).wf(),
                *self == *old(self),
                pre == self.bitmaps@,
                0 <= i <= self.bitmaps@.len(),
                forall|j: int|
                    0 <= j < i ==> (#[trigger] self@.bitmaps[j]).blockheight != entry@.blockheight,
            decreases self.bitmaps@.len() - i,
        {
            if crate::bytes::bytes_eq(&self.bitmaps[i].blockheight, &entry.blockheight) {
                proof {
                    assert(self@.bitmaps[i as int].blockheight == entry@.blockheight);
                    let k = label_index(self@.bitmaps, entry@.blockheight);
                    assert(0 <= k < self@.bitmaps.len() && self@.bitmaps[k].blockheight
                        == entry@.blockheight);
                    assert(k == i as int);
                }
                let e = entry.duplicate();
                self.bitmaps[i] = e;
                proof {
                    lemma_map_values_update(pre, |x: BitmapEntry| x@, i as int, self.bitmaps@[i as int]);
                    assert(self@.bitmaps =~= old(self)@.bitmaps.update(i as int, entry@));
                    lemma_unique_labels_update(old(self)@.bitmaps, i as int, entry@);
                }
                return ;
            }
            i = i + 1;
        }
        let e = entry.duplicate();
        self.bitmaps.push(e);
        proof {
            lemma_map_values_push(pre, |x: BitmapEntry| x@, self.bitmaps@[pre.len() as int]);
            assert(self@.bitmaps =~= old(self)@.bitmaps.push(entry@));
            lemma_unique_labels_push(old(self)@.bitmaps, entry@);
        }
    }

    /// Idempotent upsert of a name claim, keyed by its inscription id, with a
    /// conditional append to the history log when the transfer flag is set.
    /// The upsert and the history append are one logical write.
    pub fn store_bns_entry(&mut self, entry: &BnsEntry)
        requires
            old(self).wf(),
        ensures
            final(self).wf(),
            has_name_id(old(self)@.names, entry@.inscription_id) ==> final(self)@.names == old(self)@.names.update(name_id_index(old(self)@.names, entry@.inscription_id), entry@),
            !has_name_id(old(self)@.names, entry@.inscription_id) ==> final(self)@.names == old(self)@.names.push(entry@),
            entry@.transfer_status ==> final(self)@.history == old(self)@.history.push(entry@),
            !entry@.transfer_status ==> final(self)@.history == old(self)@.history,
            final(self)@.bitmaps == old(self)@.bitmaps,
            final(self)@.quarantine == old(self)@.quarantine,
    {
        let ghost pre = self.names@;
        let ghost pre_hist = self.history@;
        if entry.transfer_status {
            let h = entry.duplicate();
            self.history.push(h);
            proof {
                lemma_map_values_push(pre_hist, |x: BnsEntry| x@, self.history@[pre_hist.len() as int]);
                assert(self@.history =~= old(self)@.history.push(entry@));
            }
        }
        let mut i: usize = 0;
        while i < self.names.len()
            invariant
                old(self).wf(),
                self.names@ == pre,
                pre == old(self).names@,
                self.bitmaps@ == old(self).bitmaps@,
                self.quarantine@ == old(self).quarantine@,
                entry@.transfer_status ==> self@.history == old(self)@.history.push(entry@),
                !entry@.transfer_status ==> self@.history == old(self)@.history,
                0 <= i <= self.names@.len(),
                forall|j: int|
                    0 <= j < i ==> (#[trigger] self@.names[j]).inscription_id
                        != entry@.inscription_id,
            decreases self.names@.len() - i,
        {
            if crate::bytes::bytes_eq(&self.names[i].inscription_id, &entry.inscription_id) {
                proof {
                    assert(self@.names[i as int].inscription_id == entry@.inscription_id);
                    let k = name_id_index(self@.names, entry@.inscription_id);
                    assert(0 <= k < self@.names.len() && self@.names[k].inscription_id
                        == entry@.inscription_id);
                    assert(k == i as int);
                }
                let e = entry.duplicate();
                self.names[i] = e;
                proof {
                    lemma_map_values_update(pre, |x: BnsEntry| x@, i as int, self.names@[i as int]);
                    assert(self@.names =~= old(self)@.names.update(i as int, entry@));
                    lemma_unique_name_ids_update(old(self)@.names, i as int, entry@);
                }
                return ;
            }
            i = i + 1;
        }
        let e = entry.duplicate();
        self.names.push(e);
        proof {
            lemma_map_values_push(pre, |x: BnsEntry| x@, self.names@[pre.len() as int]);
            assert(self@.names =~= old(self)@.names.push(entry@));
            lemma_unique_name_ids_push(old(self)@.names, entry@);
        }
    }

    /// Idempotent upsert of a quarantine row, keyed by inscription id: the
    /// last invalid attempt for an id wins, and rows are never promoted.
    pub fn store_pending_review(&mut self, entry: &QuarantineEntry)
        requires
            old(self).wf(),
        ensures
            final(self).wf(),
            has_quarantine_id(old(self)@.quarantine, entry@.inscription_id) ==> final(self)@.quarantine == old(self)@.quarantine.update(
                quarantine_id_index(old(self)@.quarantine, entry@.inscription_id),
                entry@,
            ),
            !has_quarantine_id(old(self)@.quarantine, entry@.inscription_id) ==> final(self)@.quarantine == old(self)@.quarantine.push(entry@),
            final(self)@.bitmaps == old(self)@.bitmaps,
            final(self)@.names == old(self)@.names,
            final(self)@.history == old(self)@.history,
    {
        let ghost pre = self.quarantine@;
        let mut i: usize = 0;
        while i < self.quarantine.len()
            invariant
                old(self).wf(),
                *self == *old(self),
                pre == self.quarantine@,
                0 <= i <= self.quarantine@.len(),
                forall|j: int|
                    0 <= j < i ==> (#[trigger] self@.quarantine[j]).inscription_id
                        != entry@.inscription_id,
            decreases self.quarantine@.len() - i,
        {
            if crate::bytes::bytes_eq(&self.quarantine[i].inscription_id, &entry.inscription_id) {
                proof {
                    assert(self@.quarantine[i as int].inscription_id == entry@.inscription_id);
                    let k = quarantine_id_index(self@.quarantine, entry@.inscription_id);
                    assert(0 <= k < self@.quarantine.len() && self@.quarantine[k].inscription_id
                        == entry@.inscription_id);
                    assert(k == i as int);
                }
                let e = entry.duplicate();
                self.quarantine[i] = e;
                proof {
                    lemma_map_values_update(pre, |x: QuarantineEntry| x@, i as int, self.quarantine@[i as int]);
                    assert(self@.quarantine =~= old(self)@.quarantine.update(i as int, entry@));
                    lemma_unique_quarantine_ids_update(old(self)@.quarantine, i as int, entry@);
                }
                return ;
            }
            i = i + 1;
        }
        let e = entry.duplicate();
        self.quarantine.push(e);
        proof {
            lemma_map_values_push(pre, |x: QuarantineEntry| x@, self.quarantine@[pre.len() as int]);
            assert(self@.quarantine =~= old(self)@.quarantine.push(entry@));
            lemma_unique_quarantine_ids_push(old(self)@.quarantine, entry@);
        }
    }

    /// Deletes history rows whose transfer height has fallen out of the
    /// retention window when the mode asks for pruning; under any other mode
    /// the history is retained untouched.
    pub fn prune_bns_history(&mut self, current_block: u64, bns_history_mode: &Vec<u8>, cache_blocks: u64)
        requires
            old(self).wf(),
        ensures
            final(self).wf(),
            bns_history_mode@ == prune_mode() ==> final(self)@.history == pruned_history(
                old(self)@.history,
                current_block,
                cache_blocks,
            ),
            bns_history_mode@ != prune_mode() ==> final(self)@.history == old(self)@.history,
            final(self)@.bitmaps == old(self)@.bitmaps,
            final(self)@.names == old(self)@.names,
            final(self)@.quarantine == old(self)@.quarantine,
    {
        let mode = crate::bytes::prune_mode_bytes();
        if !crate::bytes::bytes_eq(bns_history_mode, &mode) {
            return ;
        }
        let ghost pre = self@.history;
        let mut kept: Vec<BnsEntry> = Vec::new();
        let mut i: usize = 0;
        proof {
            reveal(Seq::filter);
            assert(pre.subrange(0, 0) =~= Seq::<BnsEntryV>::empty());
            assert(kept@.map_values(|x: BnsEntry| x@) =~= Seq::<BnsEntryV>::empty());
            assert(pruned_history(pre.subrange(0, 0), current_block, cache_blocks) =~= Seq::<
                BnsEntryV,
            >::empty());
        }
        while i < self.history.len()
            invariant
                old(self).wf(),
                *self == *old(self),
                pre == self@.history,
                0 <= i <= self.history@.len(),
                kept@.map_values(|x: BnsEntry| x@) == pruned_history(
                    pre.subrange(0, i as int),
                    current_block,
                    cache_blocks,
                ),
            decreases self.history@.len() - i,
        {
            let ghost kept_pre = kept@;
            let e = &self.history[i];
            let keep = if current_block >= cache_blocks {
                e.transfer_block >= current_block - cache_blocks
            } else {
                true
            };
            if keep {
                let d = e.duplicate();
                kept.push(d);
                proof {
                    lemma_map_values_push(kept_pre, |x: BnsEntry| x@, kept@[kept_pre.len() as int]);
                }
            }
            proof {
                reveal(Seq::filter);
                let sub = pre.subrange(0, i + 1);
                assert(sub.drop_last() =~= pre.subrange(0, i as int));
                assert(sub.last() == pre[i as int]);
                assert(keep == (pre[i as int].transfer_block + cache_blocks >= current_block));
                if keep {
                    assert(pruned_history(sub, current_block, cache_blocks) =~= pruned_history(
                        sub.drop_last(),
                        current_block,
                        cache_blocks,
                    ).push(pre[i as int]));
                } else {
                    assert(pruned_history(sub, current_block, cache_blocks) =~= pruned_history(
                        sub.drop_last(),
                        current_block,
                        cache_blocks,
                    ));
                }
            }
            i = i + 1;
        }
        proof {
            assert(pre.subrange(0, pre.len() as int) =~= pre);
        }
        self.history = kept;
    }
}

/// At most one bitmap claim exists per label: two distinct rows of a
/// well-formed registry never share a block-height label.
pub proof fn lemma_one_claim_per_label(reg: Registry, i: int, j: int)
    requires
        reg.wf(),
        0 <= i < reg@.bitmaps.len(),
        0 <= j < reg@.bitmaps.len(),
        i != j,
    ensures
        reg@.bitmaps[i].blockheight != reg@.bitmaps[j].blockheight,
{
}

/// At most one quarantine row exists per inscription id.
pub proof fn lemma_one_quarantine_row_per_id(reg: Registry, i: int, j: int)
    requires
        reg.wf(),
        0 <= i < reg@.quarantine.len(),
        0 <= j < reg@.quarantine.len(),
        i != j,
    ensures
        reg@.quarantine[i].inscription_id != reg@.quarantine[j].inscription_id,
{
}

/// Re-writing a name claim that is already stored, unchanged, leaves the
/// table as it is: the upsert is idempotent.
pub proof fn lemma_upsert_names_idempotent(v: Seq<BnsEntryV>, e: BnsEntryV, i: int)
    requires
        unique_name_ids(v),
        0 <= i < v.len(),
        v[i] == e,
    ensures
        upsert_names(v, e) == v,
{
    assert(has_name_id(v, e.inscription_id));
    let k = name_id_index(v, e.inscription_id);
    assert(0 <= k < v.len() && v[k].inscription_id == e.inscription_id);
    assert(k == i);
    assert(v.update(i, e) =~= v);
}

/// Re-writing a quarantine row that is already stored, unchanged, leaves
/// the table as it is: the upsert is idempotent.
pub proof fn lemma_upsert_quarantine_idempotent(v: Seq<QuarantineEntryV>, e: QuarantineEntryV, i: int)
    requires
        unique_quarantine_ids(v),
        0 <= i < v.len(),
        v[i] == e,
    ensures
        upsert_quarantine(v, e) == v,
{
    assert(has_quarantine_id(v, e.inscription_id));
    let k = quarantine_id_index(v, e.inscription_id);
    assert(0 <= k < v.len() && v[k].inscription_id == e.inscription_id);
    assert(k == i);
    assert(v.update(i, e) =~= v);
}

/// The history rows that survive pruning at `current_block` under the
/// retention window `cache_blocks`.
pub open spec fn pruned_history(history: Seq<BnsEntryV>, current_block: u64, cache_blocks: u64) -> Seq<BnsEntryV> {
    history.filter(|e: BnsEntryV| e.transfer_block + cache_blocks >= current_block)
}

/// A history row still inside the retention window survives pruning, and
/// every surviving row is inside the window.
pub proof fn lemma_prune_window(history: Seq<BnsEntryV>, current_block: u64, cache_blocks: u64, i: int)
    requires
        0 <= i < history.len(),
    ensures
        history[i].transfer_block + cache_blocks >= current_block ==> pruned_history(
            history,
            current_block,
            cache_blocks,
        ).contains(history[i]),
        forall|k: int|
            0 <= k < pruned_history(history, current_block, cache_blocks).len() ==> (
            #[trigger] pruned_history(history, current_block, cache_blocks)[k]).transfer_block
                + cache_blocks >= current_block,
{
    let pred = |e: BnsEntryV| e.transfer_block + cache_blocks >= current_block;
    if pred(history[i]) {
        history.lemma_filter_contains(pred, i);
    }
    assert forall|k: int|
        0 <= k < pruned_history(history, current_block, cache_blocks).len() implies (
    #[trigger] pruned_history(history, current_block, cache_blocks)[k]).transfer_block
        + cache_blocks >= current_block by {
        history.lemma_filter_pred(pred, k);
    }
}

} // verus!
