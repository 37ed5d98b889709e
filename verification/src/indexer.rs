//! The classifier, validator and indexer state.
//!
//! `classify_bitmap` and the name-claim validation decide, for one decoded
//! inscription and the current registry and cache state, whether the
//! inscription is ignored, accepted as a bitmap claim, accepted as a name
//! claim, or rejected with a reason.  The decisions are pure; the indexer
//! methods then commit accepted claims to the registry and the cooldown
//! cache.  Where a decision needs data only an external lookup can supply —
//! a district's current child list, a satoshi's owner — the classifier asks
//! for it through an explicit outcome variant, and the caller calls again
//! with the fetched value.

use vstd::prelude::*;

use crate::bytes::DOT;
use crate::bytes::bitmap_suffix;
use crate::bytes::bitmap_suffix_bytes;
use crate::bytes::bytes_eq;
use crate::bytes::concat_bytes;
use crate::bytes::copy_bytes;
use crate::bytes::has_suffix;
use crate::bytes::is_digit;
use crate::bytes::dec_value;
use crate::bytes::is_label_number;
use crate::bytes::parse_label;
use crate::bytes::split_dots;
use crate::bytes::split_on_dot;
use crate::bytes::testnet_name;
use crate::cache::BitmapCache;
use crate::cache::CacheSlotV;
use crate::cache::cooldown_violation;
use crate::config::BitmapConfig;
use crate::config::Config;
use crate::registry::BitmapEntry;
use crate::registry::BitmapEntryV;
use crate::registry::BnsEntry;
use crate::registry::BnsEntryV;
use crate::registry::QuarantineEntry;
use crate::registry::QuarantineEntryV;
use crate::registry::Registry;
use crate::registry::RegistryV;
use crate::registry::RejectReason;
use crate::registry::has_label;
use crate::registry::has_satpoint;
use crate::registry::label_index;
use crate::registry::first_satpoint_index;

verus! {

/// The protocol activation height: labels are never claimable before it, and
/// ingestion starts from it.
pub const GENESIS_HEIGHT: u64 = 792435;

/// A child-inscription reference inside an inscription record.
pub struct InscriptionChild {
    pub id: Vec<u8>,
}

impl View for InscriptionChild {
    type V = Seq<u8>;

    open spec fn view(&self) -> Seq<u8> {
        self.id@
    }
}

/// One decoded inscription, as the external indexing service supplies it.
/// The satoshi location it rides on is carried in its serialized form
/// together with the plain satoshi number.
pub struct InscriptionData {
    pub id: Vec<u8>,
    pub sat_point: Vec<u8>,
    pub sat_number: u64,
    pub content: Vec<u8>,
    pub owner: Vec<u8>,
    pub timestamp: u64,
    pub inscription_block: u64,
    pub tx_index: u64,
    pub children: Vec<InscriptionChild>,
}

#[verifier::ext_equal]
pub ghost struct InscriptionDataV {
    pub id: Seq<u8>,
    pub sat_point: Seq<u8>,
    pub sat_number: u64,
    pub content: Seq<u8>,
    pub owner: Seq<u8>,
    pub timestamp: u64,
    pub inscription_block: u64,
    pub tx_index: u64,
    pub children: Seq<Seq<u8>>,
}

impl View for InscriptionData {
    type V = InscriptionDataV;

    open spec fn view(&self) -> InscriptionDataV {
        InscriptionDataV {
            id: self.id@,
            sat_point: self.sat_point@,
            sat_number: self.sat_number,
            content: self.content@,
            owner: self.owner@,
            timestamp: self.timestamp,
            inscription_block: self.inscription_block,
            tx_index: self.tx_index,
            children: self.children@.map_values(|c: InscriptionChild| c@),
        }
    }
}

pub open spec fn opt_insc_view(d: Option<&InscriptionData>) -> Option<InscriptionDataV> {
    match d {
        Some(i) => Some(i@),
        None => None,
    }
}

/// Whether the district inscription `d` lists `child_id` among its children.
pub open spec fn district_acknowledges(d: InscriptionDataV, child_id: Seq<u8>) -> bool {
    exists|i: int| 0 <= i < d.children.len() && d.children[i] == child_id
}

/// True when `d` lists `id` among its children.
pub fn children_contain(d: &InscriptionData, id: &Vec<u8>) -> (r: bool)
    ensures
        r == district_acknowledges(d@, id@),
{
    let mut i: usize = 0;
    while i < d.children.len()
        invariant
            0 <= i <= d.children@.len(),
            forall|j: int| 0 <= j < i ==> d@.children[j] != id@,
        decreases d.children@.len() - i,
    {
        if bytes_eq(&d.children[i].id, id) {
            proof {
                assert(d@.children[i as int] == id@);
            }
            return true;
        }
        i = i + 1;
    }
    false
}

/// The label a well-shaped bitmap content claims: the first segment, or the
/// first two segments joined with a dot for a parcel claim.
pub open spec fn spec_target_label(parts: Seq<Seq<u8>>) -> Seq<u8> {
    if parts.len() == 3 {
        parts[0] + seq![DOT] + parts[1]
    } else {
        parts[0]
    }
}

/// The bitmap claim built from an accepted inscription.
pub open spec fn spec_bitmap_entry(block_height: u64, insc: InscriptionDataV, target: Seq<u8>) -> BitmapEntryV {
    BitmapEntryV {
        blockheight: target,
        timestamp: insc.timestamp,
        inscription_id: insc.id,
        satpoint: insc.sat_point,
        current_owner: insc.owner,
        transfer_block: block_height,
    }
}

/// What the classifier decides for a bitmap-claim candidate.
#[verifier::ext_equal]
pub ghost enum BitmapDecision {
    /// Not a bitmap claim, malformed, early, or a duplicate: dropped.
    Ignore,
    /// A parcel claim whose district exists: the district's inscription
    /// record must be fetched before the child check can run.
    AskDistrict { district_inscription_id: Seq<u8> },
    /// A valid claim: this entry is to be committed.
    Accept { entry: BitmapEntryV },
}

/// The classifier's decision for one bitmap-claim candidate, as a function
/// of the inscription, the registry, and the district record where one was
/// already fetched.
pub open spec fn spec_bitmap_decision(
    block_height: u64,
    insc: InscriptionDataV,
    reg: RegistryV,
    district: Option<InscriptionDataV>,
) -> BitmapDecision {
    let c = insc.content;
    let parts = split_dots(c);
    if !has_suffix(c, bitmap_suffix()) {
        BitmapDecision::Ignore
    } else if parts.len() != 2 && parts.len() != 3 {
        BitmapDecision::Ignore
    } else if !is_label_number(if parts.len() == 3 { parts[1] } else { parts[0] }) {
        BitmapDecision::Ignore
    } else if block_height < dec_value(if parts.len() == 3 { parts[1] } else { parts[0] })
        || block_height < GENESIS_HEIGHT {
        BitmapDecision::Ignore
    } else if has_label(reg.bitmaps, spec_target_label(parts)) {
        BitmapDecision::Ignore
    } else if parts.len() == 3 {
        if !has_label(reg.bitmaps, parts[1]) {
            BitmapDecision::Ignore
        } else {
            match district {
                None => BitmapDecision::AskDistrict {
                    district_inscription_id: reg.bitmaps[label_index(
                        reg.bitmaps,
                        parts[1],
                    )].inscription_id,
                },
                Some(d) => {
                    if district_acknowledges(d, insc.id) && c == spec_target_label(parts)
                        + bitmap_suffix() {
                        BitmapDecision::Accept {
                            entry: spec_bitmap_entry(block_height, insc, spec_target_label(parts)),
                        }
                    } else {
                        BitmapDecision::Ignore
                    }
                },
            }
        }
    } else {
        BitmapDecision::Accept {
            entry: spec_bitmap_entry(block_height, insc, spec_target_label(parts)),
        }
    }
}

/// The exec mirror of [`BitmapDecision`].
pub enum BitmapOutcome {
    Ignored,
    NeedDistrict { district_inscription_id: Vec<u8> },
    Accepted { entry: BitmapEntry },
}

impl View for BitmapOutcome {
    type V = BitmapDecision;

    open spec fn view(&self) -> BitmapDecision {
        match self {
            BitmapOutcome::Ignored => BitmapDecision::Ignore,
            BitmapOutcome::NeedDistrict { district_inscription_id } => BitmapDecision::AskDistrict {
                district_inscription_id: district_inscription_id@,
            },
            BitmapOutcome::Accepted { entry } => BitmapDecision::Accept { entry: entry@ },
        }
    }
}

/// The bitmap claim an accepted inscription produces.
pub fn make_bitmap_entry(block_height: u64, insc: &InscriptionData, target: Vec<u8>) -> (e: BitmapEntry)
    ensures
        e@ == spec_bitmap_entry(block_height, insc@, target@),
{
    let e = BitmapEntry {
        blockheight: target,
        timestamp: insc.timestamp,
        inscription_id: copy_bytes(&insc.id),
        satpoint: copy_bytes(&insc.sat_point),
        current_owner: copy_bytes(&insc.owner),
        transfer_block: block_height,
    };
    proof {
        assert(e@ =~= spec_bitmap_entry(block_height, insc@, target@));
    }
    e
}

/// Classifies one inscription as a bitmap-claim candidate against the
/// registry.  Content must end in the bitmap suffix and split into two or
/// three dot-separated segments; the claimed label segment must parse as a
/// non-negative integer, and the claim must not predate its own label's
/// height nor the activation height; duplicate labels are ignored
/// (first valid claim wins); a parcel claim further needs its district
/// registered and its own inscription acknowledged as one of the district
/// inscription's children.
pub fn classify_bitmap(
    block_height: u64,
    insc: &InscriptionData,
    registry: &Registry,
    district: Option<&InscriptionData>,
) -> (r: BitmapOutcome)
    requires
        registry.wf(),
    ensures
        r@ == spec_bitmap_decision(block_height, insc@, registry@, opt_insc_view(district)),
{
    let suffix = bitmap_suffix_bytes();
    if !crate::bytes::ends_with(&insc.content, &suffix) {
        return BitmapOutcome::Ignored;
    }
    let parts = split_on_dot(&insc.content);
    if parts.len() != 2 && parts.len() != 3 {
        return BitmapOutcome::Ignored;
    }
    let is_parcel = parts.len() == 3;
    let label_num = match (if is_parcel {
        parse_label(&parts[1])
    } else {
        parse_label(&parts[0])
    }) {
        Some(v) => v,
        None => {
            return BitmapOutcome::Ignored;
        },
    };
    if block_height < label_num || block_height < GENESIS_HEIGHT {
        return BitmapOutcome::Ignored;
    }
    let target: Vec<u8> = if is_parcel {
        let dot: Vec<u8> = vec![DOT];
        let head = concat_bytes(&parts[0], &dot);
        let t = concat_bytes(&head, &parts[1]);
        proof {
            assert(t@ =~= spec_target_label(split_dots(insc@.content)));
        }
        t
    } else {
        copy_bytes(&parts[0])
    };
    match registry.lookup_bitmap_by_label(&target) {
        Some(_) => {
            return BitmapOutcome::Ignored;
        },
        None => {},
    }
    if is_parcel {
        match registry.lookup_bitmap_by_label(&parts[1]) {
            None => BitmapOutcome::Ignored,
            Some(district_entry) => {
                match district {
                    None => BitmapOutcome::NeedDistrict {
                        district_inscription_id: copy_bytes(&district_entry.inscription_id),
                    },
                    Some(d) => {
                        let expected = concat_bytes(&target, &suffix);
                        if children_contain(d, &insc.id) && bytes_eq(&insc.content, &expected) {
                            BitmapOutcome::Accepted {
                                entry: make_bitmap_entry(block_height, insc, target),
                            }
                        } else {
                            BitmapOutcome::Ignored
                        }
                    },
                }
            },
        }
    } else {
        BitmapOutcome::Accepted { entry: make_bitmap_entry(block_height, insc, target) }
    }
}

/// The name a result of the external CBOR decoding bears: whether the
/// content bytes decode to a structured payload whose field named `key`
/// holds true.  The decoding is a pure function of the bytes and the key
/// alone.
pub uninterp spec fn cbor_field_bool(content: Seq<u8>, key: Seq<char>) -> bool;

/// Relies on `serde_cbor::from_slice` and `serde_json::Value::get` /
/// `Value::as_bool`: decodes the content as CBOR and reads the named
/// boolean field, which depends on the bytes and the key alone.
#[verifier::external_body]
fn cbor_bool_field(content: &Vec<u8>, key: &str) -> (r: bool)
    ensures
        r == cbor_field_bool(content@, key@),
{
    match serde_cbor::from_slice::<serde_json::Value>(content.as_slice()) {
        Ok(v) => v.get(key).and_then(|b| b.as_bool()).unwrap_or(false),
        Err(_) => false,
    }
}

/// Whether the content decodes to a payload carrying the name-protocol
/// marker: a `BNS` field holding true.
pub open spec fn spec_is_bns_payload(content: Seq<u8>) -> bool {
    cbor_field_bool(content, "BNS"@)
}

/// The numeric address a name derives from its text: the second segment for
/// a parcel-style name (digit-leading, three segments), the leading segment
/// otherwise.  This is also the block-height label the name maps to.
pub open spec fn spec_derived_address(c: Seq<u8>) -> Seq<u8> {
    let parts = split_dots(c);
    if c.len() > 0 && is_digit(c[0]) && parts.len() == 3 {
        parts[1]
    } else {
        parts[0]
    }
}

/// The name claim built from an accepted inscription: transfer flag starts
/// false and the transfer-lineage fields start empty (their population rule
/// is a reserved extension point).
pub open spec fn spec_bns_entry(block_height: u64, insc: InscriptionDataV) -> BnsEntryV {
    BnsEntryV {
        name: insc.content,
        address: spec_derived_address(insc.content),
        owner: insc.owner,
        inscription_block: insc.inscription_block,
        tx_index: insc.tx_index,
        inscription_id: insc.id,
        sat_number: insc.sat_number,
        transfer_status: false,
        transfer_block: block_height,
        timestamp: insc.timestamp,
        original_blockheight: spec_derived_address(insc.content),
        previous_owner: None,
        previous_inscription_id: None,
        previous_sat_number: None,
    }
}

/// The quarantine row a rejected claim leaves on a test network: the address
/// is left blank and the rejection reason is recorded.
pub open spec fn spec_quarantine_entry(insc: InscriptionDataV, reason: RejectReason) -> QuarantineEntryV {
    QuarantineEntryV {
        inscription_id: insc.id,
        name: insc.content,
        address: Seq::<u8>::empty(),
        owner: insc.owner,
        inscription_block: insc.inscription_block,
        tx_index: insc.tx_index,
        sat_number: insc.sat_number,
        reason,
    }
}

/// The verdict of name-claim validation.
#[verifier::ext_equal]
pub ghost enum NameCheck {
    /// All enabled checks passed.
    Pass,
    /// Validation failed for the given reason.
    Fail { reason: RejectReason },
    /// The matched claim is a parcel: the district's inscription record must
    /// be fetched before the child check can run.
    AskDistrict { district_inscription_id: Seq<u8> },
    /// Ownership validation is enabled: the owner of this satoshi must be
    /// looked up before the claim can pass.
    AskSatOwner { sat_number: u64 },
}

/// The tail of validation once the satoshi's claim is matched and any
/// district check has passed: the cooldown check, then optional ownership
/// verification.
pub open spec fn spec_validate_tail(
    block_height: u64,
    insc: InscriptionDataV,
    bitmap_label: Seq<u8>,
    cache: Seq<CacheSlotV>,
    validate_sat: bool,
    sat_owner: Option<Seq<u8>>,
) -> NameCheck {
    if cooldown_violation(cache, bitmap_label, block_height) {
        NameCheck::Fail { reason: RejectReason::CooldownViolation }
    } else if validate_sat {
        match sat_owner {
            None => NameCheck::AskSatOwner { sat_number: insc.sat_number },
            Some(o) => {
                if o != insc.owner {
                    NameCheck::Fail { reason: RejectReason::OwnershipMismatch }
                } else {
                    NameCheck::Pass
                }
            },
        }
    } else {
        NameCheck::Pass
    }
}

/// Name-claim validation, applied in order with the first failure winning:
/// the referenced satoshi location must carry an accepted bitmap claim; a
/// digit-leading name must spell exactly that claim's label followed by the
/// bitmap suffix; where the matched claim is itself a parcel, the district's
/// inscription must acknowledge this inscription as a child; the derived
/// label must be outside every cached transfer's cooldown window; and, when
/// enabled, the external ownership lookup must name the claiming owner.
pub open spec fn spec_validate_bns(
    block_height: u64,
    insc: InscriptionDataV,
    reg: RegistryV,
    cache: Seq<CacheSlotV>,
    validate_sat: bool,
    district: Option<InscriptionDataV>,
    sat_owner: Option<Seq<u8>>,
) -> NameCheck {
    if !has_satpoint(reg.bitmaps, insc.sat_point) {
        NameCheck::Fail { reason: RejectReason::BitmapNotFound }
    } else {
        let bm = reg.bitmaps[first_satpoint_index(reg.bitmaps, insc.sat_point)];
        let numeric = insc.content.len() > 0 && is_digit(insc.content[0]);
        if numeric && insc.content != bm.blockheight + bitmap_suffix() {
            NameCheck::Fail { reason: RejectReason::NameMismatch }
        } else if numeric && split_dots(insc.content).len() == 3 {
            if !has_label(reg.bitmaps, split_dots(insc.content)[1]) {
                NameCheck::Fail { reason: RejectReason::DistrictNotFound }
            } else {
                match district {
                    None => NameCheck::AskDistrict {
                        district_inscription_id: reg.bitmaps[label_index(
                            reg.bitmaps,
                            split_dots(insc.content)[1],
                        )].inscription_id,
                    },
                    Some(d) => {
                        if district_acknowledges(d, insc.id) {
                            spec_validate_tail(
                                block_height,
                                insc,
                                bm.blockheight,
                                cache,
                                validate_sat,
                                sat_owner,
                            )
                        } else {
                            NameCheck::Fail { reason: RejectReason::NotChildOfDistrict }
                        }
                    },
                }
            }
        } else {
            spec_validate_tail(block_height, insc, bm.blockheight, cache, validate_sat, sat_owner)
        }
    }
}

/// The exec mirror of [`NameCheck`].
pub enum NameCheckOutcome {
    Pass,
    Fail { reason: RejectReason },
    NeedDistrict { district_inscription_id: Vec<u8> },
    NeedSatOwner { sat_number: u64 },
}

impl View for NameCheckOutcome {
    type V = NameCheck;

    open spec fn view(&self) -> NameCheck {
        match self {
            NameCheckOutcome::Pass => NameCheck::Pass,
            NameCheckOutcome::Fail { reason } => NameCheck::Fail { reason: *reason },
            NameCheckOutcome::NeedDistrict { district_inscription_id } => NameCheck::AskDistrict {
                district_inscription_id: district_inscription_id@,
            },
            NameCheckOutcome::NeedSatOwner { sat_number } => NameCheck::AskSatOwner {
                sat_number: *sat_number,
            },
        }
    }
}

/// What the pipeline decides for a name-claim candidate.
#[verifier::ext_equal]
pub ghost enum NameDecision {
    /// The content carries no name-protocol marker: not a name claim.
    NotName,
    /// Validation needs the district's inscription record.
    AskDistrict { district_inscription_id: Seq<u8> },
    /// Validation needs the satoshi's owner.
    AskSatOwner { sat_number: u64 },
    /// The claim failed validation for the given reason.
    Reject { reason: RejectReason },
    /// The claim passed: this entry is to be committed.
    Accept { entry: BnsEntryV },
}

/// The pipeline's decision for one name-claim candidate.
pub open spec fn spec_name_decision(
    block_height: u64,
    insc: InscriptionDataV,
    reg: RegistryV,
    cache: Seq<CacheSlotV>,
    validate_sat: bool,
    is_bns: bool,
    district: Option<InscriptionDataV>,
    sat_owner: Option<Seq<u8>>,
) -> NameDecision {
    if !is_bns {
        NameDecision::NotName
    } else {
        match spec_validate_bns(block_height, insc, reg, cache, validate_sat, district, sat_owner) {
            NameCheck::Pass => NameDecision::Accept { entry: spec_bns_entry(block_height, insc) },
            NameCheck::Fail { reason } => NameDecision::Reject { reason },
            NameCheck::AskDistrict { district_inscription_id } => NameDecision::AskDistrict {
                district_inscription_id,
            },
            NameCheck::AskSatOwner { sat_number } => NameDecision::AskSatOwner { sat_number },
        }
    }
}

/// The exec mirror of [`NameDecision`].
pub enum NameOutcome {
    NotName,
    NeedDistrict { district_inscription_id: Vec<u8> },
    NeedSatOwner { sat_number: u64 },
    Rejected { reason: RejectReason },
    Accepted { entry: BnsEntry },
}

impl View for NameOutcome {
    type V = NameDecision;

    open spec fn view(&self) -> NameDecision {
        match self {
            NameOutcome::NotName => NameDecision::NotName,
            NameOutcome::NeedDistrict { district_inscription_id } => NameDecision::AskDistrict {
                district_inscription_id: district_inscription_id@,
            },
            NameOutcome::NeedSatOwner { sat_number } => NameDecision::AskSatOwner {
                sat_number: *sat_number,
            },
            NameOutcome::Rejected { reason } => NameDecision::Reject { reason: *reason },
            NameOutcome::Accepted { entry } => NameDecision::Accept { entry: entry@ },
        }
    }
}

/// The name claim an accepted inscription produces.
pub fn make_bns_entry(block_height: u64, insc: &InscriptionData) -> (e: BnsEntry)
    ensures
        e@ == spec_bns_entry(block_height, insc@),
{
    let parts = split_on_dot(&insc.content);
    let numeric = insc.content.len() > 0 && {
        let b = insc.content[0];
        48 <= b && b <= 57
    };
    let address = if numeric && parts.len() == 3 {
        copy_bytes(&parts[1])
    } else {
        proof {
            crate::bytes::lemma_split_dots_len(insc@.content);
        }
        copy_bytes(&parts[0])
    };
    let e = BnsEntry {
        name: copy_bytes(&insc.content),
        address: copy_bytes(&address),
        owner: copy_bytes(&insc.owner),
        inscription_block: insc.inscription_block,
        tx_index: insc.tx_index,
        inscription_id: copy_bytes(&insc.id),
        sat_number: insc.sat_number,
        transfer_status: false,
        transfer_block: block_height,
        timestamp: insc.timestamp,
        original_blockheight: address,
        previous_owner: None,
        previous_inscription_id: None,
        previous_sat_number: None,
    };
    proof {
        assert(e@ =~= spec_bns_entry(block_height, insc@));
    }
    e
}

/// The quarantine row a rejected claim leaves on a test network.
pub fn make_quarantine_entry(insc: &InscriptionData, reason: RejectReason) -> (e: QuarantineEntry)
    ensures
        e@ == spec_quarantine_entry(insc@, reason),
{
    let e = QuarantineEntry {
        inscription_id: copy_bytes(&insc.id),
        name: copy_bytes(&insc.content),
        address: Vec::new(),
        owner: copy_bytes(&insc.owner),
        inscription_block: insc.inscription_block,
        tx_index: insc.tx_index,
        sat_number: insc.sat_number,
        reason,
    };
    proof {
        assert(e@ =~= spec_quarantine_entry(insc@, reason));
    }
    e
}

pub open spec fn opt_owner_view(o: Option<&Vec<u8>>) -> Option<Seq<u8>> {
    match o {
        Some(v) => Some(v@),
        None => None,
    }
}

/// The long-lived indexer state: configuration, the registry, the cooldown
/// cache, the last fully processed height, and the chain name.  Open
/// network and storage handles live outside the library and are driven by
/// the decisions made here.
pub struct BitmapIndexer {
    pub config: BitmapConfig,
    pub registry: Registry,
    pub cache: BitmapCache,
    pub current_block_height: u64,
    pub network_name: Vec<u8>,
}

impl BitmapIndexer {
    pub open spec fn wf(self) -> bool {
        self.registry.wf()
    }

    /// Whether this indexer runs against the test network, on which rejected
    /// name claims are quarantined instead of dropped.
    pub open spec fn spec_is_testnet(self) -> bool {
        self.network_name@ == testnet_name()
    }

    pub fn is_testnet(&self) -> (r: bool)
        ensures
            r == self.spec_is_testnet(),
    {
        let t = crate::bytes::testnet_name_bytes();
        bytes_eq(&self.network_name, &t)
    }

    /// A fresh indexer: empty registry and cache, positioned at the protocol
    /// activation height.
    pub fn new(config: Config, network_name: Vec<u8>) -> (r: Self)
        ensures
            r.wf(),
            r.registry@.bitmaps == Seq::<BitmapEntryV>::empty(),
            r.registry@.names == Seq::<BnsEntryV>::empty(),
            r.registry@.history == Seq::<BnsEntryV>::empty(),
            r.registry@.quarantine == Seq::<QuarantineEntryV>::empty(),
            r.cache@ == Seq::<CacheSlotV>::empty(),
            r.cache.max_size == config.bitmap.cache_blocks,
            r.current_block_height == GENESIS_HEIGHT,
            r.network_name@ == network_name@,
            r.config == config.bitmap,
    {
        let cache = BitmapCache::new(config.bitmap.cache_blocks);
        BitmapIndexer {
            config: config.bitmap,
            registry: Registry::new(),
            cache,
            current_block_height: GENESIS_HEIGHT,
            network_name,
        }
    }

    /// Classifies one inscription as a bitmap claim and, where it is valid,
    /// commits it to the registry and returns the replication event to
    /// broadcast.  Where the decision needs the district record, nothing is
    /// committed and the caller fetches it and calls again.
    pub fn process_bitmap_inscription(
        &mut self,
        block_height: u64,
        insc: &InscriptionData,
        district: Option<&InscriptionData>,
    ) -> (r: (BitmapOutcome, Option<crate::network::BitmapMessage>))
        requires
            old(self).wf(),
        ensures
            final(self).wf(),
            r.0@ == spec_bitmap_decision(
                block_height,
                insc@,
                old(self).registry@,
                opt_insc_view(district),
            ),
            final(self).config == old(self).config,
            final(self).cache@ == old(self).cache@,
            final(self).cache.max_size == old(self).cache.max_size,
            final(self).current_block_height == old(self).current_block_height,
            final(self).network_name@ == old(self).network_name@,
            r.0@ matches BitmapDecision::Accept { entry } ==> {
                &&& final(self).registry@.bitmaps == crate::registry::upsert_bitmaps(
                    old(self).registry@.bitmaps,
                    entry,
                )
                &&& final(self).registry@.names == old(self).registry@.names
                &&& final(self).registry@.history == old(self).registry@.history
                &&& final(self).registry@.quarantine == old(self).registry@.quarantine
                &&& r.1 matches Some(m) && m@ == (crate::network::BitmapMessageV::BitmapRegistration {
                    entry,
                })
            },
            !(r.0@ is Accept) ==> final(self).registry@ == old(self).registry@ && r.1 is None,
    {
        let outcome = classify_bitmap(block_height, insc, &self.registry, district);
        match outcome {
            BitmapOutcome::Accepted { entry } => {
                let m = crate::network::bitmap_register_message(&entry);
                self.registry.store_bitmap_entry(&entry);
                (BitmapOutcome::Accepted { entry }, Some(m))
            },
            BitmapOutcome::NeedDistrict { district_inscription_id } => {
                proof {
                    assert(final(self).registry@ =~= old(self).registry@);
                }
                (BitmapOutcome::NeedDistrict { district_inscription_id }, None)
            },
            BitmapOutcome::Ignored => {
                proof {
                    assert(final(self).registry@ =~= old(self).registry@);
                }
                (BitmapOutcome::Ignored, None)
            },
        }
    }

    /// Runs name-claim validation against the registry, the cooldown cache
    /// and the configuration, in the protocol order, short-circuiting on the
    /// first failure.
    pub fn validate_bns_inscription(
        &self,
        block_height: u64,
        insc: &InscriptionData,
        district: Option<&InscriptionData>,
        sat_owner: Option<&Vec<u8>>,
    ) -> (r: NameCheckOutcome)
        requires
            self.wf(),
        ensures
            r@ == spec_validate_bns(
                block_height,
                insc@,
                self.registry@,
                self.cache@,
                self.config.validate_sat,
                opt_insc_view(district),
                opt_owner_view(sat_owner),
            ),
    {
        let bm = match self.registry.lookup_bitmap_by_satpoint(&insc.sat_point) {
            None => {
                return NameCheckOutcome::Fail { reason: RejectReason::BitmapNotFound };
            },
            Some(e) => e,
        };
        let numeric = insc.content.len() > 0 && {
            let b = insc.content[0];
            48 <= b && b <= 57
        };
        let suffix = bitmap_suffix_bytes();
        let expected = concat_bytes(&bm.blockheight, &suffix);
        if numeric && !bytes_eq(&insc.content, &expected) {
            return NameCheckOutcome::Fail { reason: RejectReason::NameMismatch };
        }
        let parts = split_on_dot(&insc.content);
        if numeric && parts.len() == 3 {
            match self.registry.lookup_bitmap_by_label(&parts[1]) {
                None => {
                    return NameCheckOutcome::Fail { reason: RejectReason::DistrictNotFound };
                },
                Some(district_entry) => {
                    match district {
                        None => {
                            return NameCheckOutcome::NeedDistrict {
                                district_inscription_id: copy_bytes(
                                    &district_entry.inscription_id,
                                ),
                            };
                        },
                        Some(d) => {
                            if !children_contain(d, &insc.id) {
                                return NameCheckOutcome::Fail {
                                    reason: RejectReason::NotChildOfDistrict,
                                };
                            }
                        },
                    }
                },
            }
        }
        if !self.cache.check_cooldown(&bm.blockheight, block_height) {
            return NameCheckOutcome::Fail { reason: RejectReason::CooldownViolation };
        }
        if self.config.validate_sat {
            match sat_owner {
                None => {
                    return NameCheckOutcome::NeedSatOwner { sat_number: insc.sat_number };
                },
                Some(o) => {
                    if !bytes_eq(o, &insc.owner) {
                        return NameCheckOutcome::Fail { reason: RejectReason::OwnershipMismatch };
                    }
                },
            }
        }
        NameCheckOutcome::Pass
    }

    /// Classifies one inscription as a name claim and acts on the decision:
    /// an accepted claim is committed to the registry and remembered by the
    /// cooldown cache, and the replication event to broadcast is returned; a
    /// rejected claim leaves a quarantine row on a test network and no trace
    /// on any other; a decision that needs an external lookup commits
    /// nothing.
    pub fn process_bns_inscription(
        &mut self,
        block_height: u64,
        insc: &InscriptionData,
        district: Option<&InscriptionData>,
        sat_owner: Option<&Vec<u8>>,
    ) -> (r: (NameOutcome, Option<crate::network::BitmapMessage>))
        requires
            old(self).wf(),
        ensures
            final(self).wf(),
            r.0@ == spec_name_decision(
                block_height,
                insc@,
                old(self).registry@,
                old(self).cache@,
                old(self).config.validate_sat,
                spec_is_bns_payload(insc@.content),
                opt_insc_view(district),
                opt_owner_view(sat_owner),
            ),
            final(self).config == old(self).config,
            final(self).cache.max_size == old(self).cache.max_size,
            final(self).current_block_height == old(self).current_block_height,
            final(self).network_name@ == old(self).network_name@,
            r.0@ matches NameDecision::Accept { entry } ==> {
                &&& final(self).registry@.names == crate::registry::upsert_names(
                    old(self).registry@.names,
                    entry,
                )
                &&& final(self).registry@.bitmaps == old(self).registry@.bitmaps
                &&& final(self).registry@.history == old(self).registry@.history
                &&& final(self).registry@.quarantine == old(self).registry@.quarantine
                &&& final(self).cache@ == old(self).cache@
                &&& r.1 matches Some(m) && m@ == (crate::network::BitmapMessageV::BnsInscription {
                    entry,
                })
            },
            r.0@ matches NameDecision::Reject { reason } ==> {
                &&& old(self).spec_is_testnet() ==> final(self).registry@.quarantine
                    == crate::registry::upsert_quarantine(
                    old(self).registry@.quarantine,
                    spec_quarantine_entry(insc@, reason),
                )
                &&& !old(self).spec_is_testnet() ==> final(self).registry@.quarantine == old(self).registry@.quarantine
                &&& final(self).registry@.bitmaps == old(self).registry@.bitmaps
                &&& final(self).registry@.names == old(self).registry@.names
                &&& final(self).registry@.history == old(self).registry@.history
                &&& final(self).cache@ == old(self).cache@
                &&& r.1 is None
            },
            (r.0@ is NotName || r.0@ is AskDistrict || r.0@ is AskSatOwner) ==> final(self).registry@ == old(self).registry@ && final(self).cache@ == old(self).cache@ && r.1
                is None,
    {
        if !cbor_bool_field(&insc.content, "BNS") {
            proof {
                assert(final(self).registry@ =~= old(self).registry@);
            }
            return (NameOutcome::NotName, None);
        }
        let check = self.validate_bns_inscription(block_height, insc, district, sat_owner);
        match check {
            NameCheckOutcome::Fail { reason } => {
                if self.is_testnet() {
                    let q = make_quarantine_entry(insc, reason);
                    self.registry.store_pending_review(&q);
                } else {
                    proof {
                        assert(final(self).registry@ =~= old(self).registry@);
                    }
                }
                (NameOutcome::Rejected { reason }, None)
            },
            NameCheckOutcome::NeedDistrict { district_inscription_id } => {
                proof {
                    assert(final(self).registry@ =~= old(self).registry@);
                }
                (NameOutcome::NeedDistrict { district_inscription_id }, None)
            },
            NameCheckOutcome::NeedSatOwner { sat_number } => {
                proof {
                    assert(final(self).registry@ =~= old(self).registry@);
                }
                (NameOutcome::NeedSatOwner { sat_number }, None)
            },
            NameCheckOutcome::Pass => {
                let entry = make_bns_entry(block_height, insc);
                let m = crate::network::bns_claim_message(&entry);
                self.registry.store_bns_entry(&entry);
                let remembered = entry.duplicate();
                self.cache.add_bns_entry(block_height, remembered);
                (NameOutcome::Accepted { entry }, Some(m))
            },
        }
    }

    /// Marks `new_height` as fully processed and runs history pruning for
    /// it, as the polling loop does after each new block.
    pub fn finish_block(&mut self, new_height: u64)
        requires
            old(self).wf(),
        ensures
            final(self).wf(),
            final(self).current_block_height == new_height,
            old(self).config.bns_history_mode@ == crate::bytes::prune_mode()
                ==> final(self).registry@.history == crate::registry::pruned_history(
                old(self).registry@.history,
                new_height,
                old(self).config.cache_blocks as u64,
            ),
            old(self).config.bns_history_mode@ != crate::bytes::prune_mode()
                ==> final(self).registry@.history == old(self).registry@.history,
            final(self).registry@.bitmaps == old(self).registry@.bitmaps,
            final(self).registry@.names == old(self).registry@.names,
            final(self).registry@.quarantine == old(self).registry@.quarantine,
            final(self).cache@ == old(self).cache@,
            final(self).cache.max_size == old(self).cache.max_size,
            final(self).config == old(self).config,
            final(self).network_name@ == old(self).network_name@,
    {
        self.current_block_height = new_height;
        let window = self.config.cache_blocks as u64;
        self.registry.prune_bns_history(new_height, &self.config.bns_history_mode, window);
    }

    /// Timestamp reconciliation across peers: the message protocol is in
    /// place, but the majority-vote resolution itself is an open extension
    /// point, so the local timestamp is returned unchanged together with the
    /// request to broadcast.
    pub fn resolve_timestamp_mismatch(&self, inscription_id: &Vec<u8>, local_timestamp: u64) -> (r:
        (crate::network::BitmapMessage, u64))
        ensures
            r.0@ == (crate::network::BitmapMessageV::TimestampRequest {
                inscription_id: inscription_id@,
            }),
            r.1 == local_timestamp,
    {
        (crate::network::timestamp_request_message(inscription_id), local_timestamp)
    }
}

/// Once a label is claimed, every further bitmap claim for it is ignored:
/// first valid claim wins, and re-running ingestion over the same
/// inscriptions in the same order leaves the registry unchanged.
pub proof fn lemma_duplicate_label_ignored(
    block_height: u64,
    insc: InscriptionDataV,
    reg: RegistryV,
    district: Option<InscriptionDataV>,
)
    requires
        has_label(reg.bitmaps, spec_target_label(split_dots(insc.content))),
    ensures
        !(spec_bitmap_decision(block_height, insc, reg, district) is Accept),
{
}

/// Once an accepted claim is committed, re-running ingestion over the
/// same inscription gives an ignore decision, so replaying the same input
/// stream in the same order leaves the registry identical.
pub proof fn lemma_reingestion_idempotent(
    height1: u64,
    height2: u64,
    insc: InscriptionDataV,
    reg: RegistryV,
    reg_after: RegistryV,
    district1: Option<InscriptionDataV>,
    district2: Option<InscriptionDataV>,
    entry: BitmapEntryV,
)
    requires
        spec_bitmap_decision(height1, insc, reg, district1) == (BitmapDecision::Accept { entry }),
        reg_after.bitmaps == crate::registry::upsert_bitmaps(reg.bitmaps, entry),
    ensures
        !(spec_bitmap_decision(height2, insc, reg_after, district2) is Accept),
{
    assert(entry.blockheight == spec_target_label(split_dots(insc.content)));
    if has_label(reg.bitmaps, entry.blockheight) {
        let k = label_index(reg.bitmaps, entry.blockheight);
        assert(reg_after.bitmaps[k].blockheight == entry.blockheight);
    } else {
        assert(reg_after.bitmaps[reg.bitmaps.len() as int].blockheight == entry.blockheight);
    }
    lemma_duplicate_label_ignored(height2, insc, reg_after, district2);
}

/// Name-claim validation reads the bitmap table and the cache alone, so a
/// registry that differs only in its names, history and quarantine tables
/// gives the same decision.
pub proof fn lemma_name_decision_ignores_names(
    block_height: u64,
    insc: InscriptionDataV,
    reg: RegistryV,
    reg_after: RegistryV,
    cache: Seq<CacheSlotV>,
    validate_sat: bool,
    is_bns: bool,
    district: Option<InscriptionDataV>,
    sat_owner: Option<Seq<u8>>,
)
    requires
        reg_after.bitmaps == reg.bitmaps,
    ensures
        spec_name_decision(
            block_height,
            insc,
            reg_after,
            cache,
            validate_sat,
            is_bns,
            district,
            sat_owner,
        ) == spec_name_decision(
            block_height,
            insc,
            reg,
            cache,
            validate_sat,
            is_bns,
            district,
            sat_owner,
        ),
{
}

/// Committing an accepted name claim and reprocessing the same inscription
/// accepts it again with the identical entry, and the repeated upsert
/// leaves the names table unchanged; the entry carries no transfer flag, so
/// the history and the cache are untouched both times.  Together with
/// [`lemma_reingestion_idempotent`] for bitmap claims, replaying the same
/// input stream in the same order leaves the whole registry identical.
pub proof fn lemma_name_reingestion_idempotent(
    block_height: u64,
    insc: InscriptionDataV,
    reg: RegistryV,
    reg_after: RegistryV,
    cache: Seq<CacheSlotV>,
    validate_sat: bool,
    is_bns: bool,
    district: Option<InscriptionDataV>,
    sat_owner: Option<Seq<u8>>,
    entry: BnsEntryV,
)
    requires
        crate::registry::unique_name_ids(reg.names),
        spec_name_decision(
            block_height,
            insc,
            reg,
            cache,
            validate_sat,
            is_bns,
            district,
            sat_owner,
        ) == (NameDecision::Accept { entry }),
        reg_after.bitmaps == reg.bitmaps,
        reg_after.names == crate::registry::upsert_names(reg.names, entry),
        reg_after.history == reg.history,
        reg_after.quarantine == reg.quarantine,
    ensures
        spec_name_decision(
            block_height,
            insc,
            reg_after,
            cache,
            validate_sat,
            is_bns,
            district,
            sat_owner,
        ) == (NameDecision::Accept { entry }),
        crate::registry::upsert_names(reg_after.names, entry) == reg_after.names,
        !entry.transfer_status,
{
    lemma_name_decision_ignores_names(
        block_height,
        insc,
        reg,
        reg_after,
        cache,
        validate_sat,
        is_bns,
        district,
        sat_owner,
    );
    if crate::registry::has_name_id(reg.names, entry.inscription_id) {
        let k = crate::registry::name_id_index(reg.names, entry.inscription_id);
        assert(0 <= k < reg.names.len() && reg.names[k].inscription_id == entry.inscription_id);
        crate::registry::lemma_unique_name_ids_update(reg.names, k, entry);
        assert(reg_after.names[k] == entry);
        crate::registry::lemma_upsert_names_idempotent(reg_after.names, entry, k);
    } else {
        crate::registry::lemma_unique_name_ids_push(reg.names, entry);
        assert(reg_after.names[reg.names.len() as int] == entry);
        crate::registry::lemma_upsert_names_idempotent(
            reg_after.names,
            entry,
            reg.names.len() as int,
        );
    }
}

/// Quarantining the same rejection twice writes the same row over itself:
/// the row is a function of the inscription and the reason alone, so the
/// repeated upsert leaves the quarantine table unchanged.
pub proof fn lemma_requarantine_idempotent(
    reg_quarantine: Seq<QuarantineEntryV>,
    after: Seq<QuarantineEntryV>,
    insc: InscriptionDataV,
    reason: RejectReason,
)
    requires
        crate::registry::unique_quarantine_ids(reg_quarantine),
        after == crate::registry::upsert_quarantine(
            reg_quarantine,
            spec_quarantine_entry(insc, reason),
        ),
    ensures
        crate::registry::upsert_quarantine(after, spec_quarantine_entry(insc, reason)) == after,
{
    let e = spec_quarantine_entry(insc, reason);
    if crate::registry::has_quarantine_id(reg_quarantine, e.inscription_id) {
        let k = crate::registry::quarantine_id_index(reg_quarantine, e.inscription_id);
        assert(0 <= k < reg_quarantine.len() && reg_quarantine[k].inscription_id
            == e.inscription_id);
        crate::registry::lemma_unique_quarantine_ids_update(reg_quarantine, k, e);
        assert(after[k] == e);
        crate::registry::lemma_upsert_quarantine_idempotent(after, e, k);
    } else {
        crate::registry::lemma_unique_quarantine_ids_push(reg_quarantine, e);
        assert(after[reg_quarantine.len() as int] == e);
        crate::registry::lemma_upsert_quarantine_idempotent(
            after,
            e,
            reg_quarantine.len() as int,
        );
    }
}

/// A parcel claim is accepted exactly when: it is well-shaped and timely,
/// its target label is fresh, its district label already has an accepted
/// claim, the district's inscription acknowledges it as a child, and its
/// content spells the target label followed by the bitmap suffix.
pub proof fn lemma_parcel_acceptance(
    block_height: u64,
    insc: InscriptionDataV,
    reg: RegistryV,
    d: InscriptionDataV,
)
    requires
        split_dots(insc.content).len() == 3,
    ensures
        (spec_bitmap_decision(block_height, insc, reg, Some(d)) is Accept) <==> {
            let parts = split_dots(insc.content);
            &&& has_suffix(insc.content, bitmap_suffix())
            &&& is_label_number(parts[1])
            &&& block_height >= dec_value(parts[1])
            &&& block_height >= GENESIS_HEIGHT
            &&& !has_label(reg.bitmaps, spec_target_label(parts))
            &&& has_label(reg.bitmaps, parts[1])
            &&& district_acknowledges(d, insc.id)
            &&& insc.content == spec_target_label(parts) + bitmap_suffix()
        },
{
}

/// A name claim referencing a satoshi location with no accepted bitmap
/// claim is always rejected as `BitmapNotFound`, whatever its other fields,
/// the cache state, the configuration, or any fetched lookups say.
pub proof fn lemma_name_without_bitmap_rejected(
    block_height: u64,
    insc: InscriptionDataV,
    reg: RegistryV,
    cache: Seq<CacheSlotV>,
    validate_sat: bool,
    district: Option<InscriptionDataV>,
    sat_owner: Option<Seq<u8>>,
)
    requires
        !has_satpoint(reg.bitmaps, insc.sat_point),
    ensures
        spec_name_decision(
            block_height,
            insc,
            reg,
            cache,
            validate_sat,
            true,
            district,
            sat_owner,
        ) == (NameDecision::Reject { reason: RejectReason::BitmapNotFound }),
{
}

} // verus!
