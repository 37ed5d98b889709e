use bitmap_indexer::config::BitmapConfigOverrides;
use bitmap_indexer::config::load_config;
use bitmap_indexer::indexer::BitmapIndexer;
use bitmap_indexer::indexer::BitmapOutcome;
use bitmap_indexer::indexer::InscriptionData;
use bitmap_indexer::indexer::NameOutcome;
use bitmap_indexer::network::BitmapMessage;
use bitmap_indexer::registry::RejectReason;

fn overrides(validate_sat: Option<bool>) -> BitmapConfigOverrides {
    BitmapConfigOverrides {
        cache_blocks: None,
        validate_sat,
        parallelism_enabled: None,
        batch_size: None,
        bns_history_mode: None,
        bootstrap_nodes: None,
    }
}

fn indexer(network: &str, validate_sat: Option<bool>) -> BitmapIndexer {
    let config = load_config(
        network.as_bytes().to_vec(),
        b"http://127.0.0.1:8332".to_vec(),
        b"user".to_vec(),
        b"SECRET-REDACTED".to_vec(),
        b"/tmp/data".to_vec(),
        overrides(validate_sat),
    );
    BitmapIndexer::new(config, network.as_bytes().to_vec())
}

/// Content bytes that decode as a CBOR document whose `BNS` field is `b`.
fn bns_content(b: bool) -> Vec<u8> {
    let mut map = serde_json::Map::new();
    map.insert("BNS".to_string(), serde_json::Value::Bool(b));
    serde_cbor::to_vec(&serde_json::Value::Object(map)).unwrap()
}

fn name_inscription(id: &str, content: Vec<u8>, sat_point: &str, owner: &str, height: u64) -> InscriptionData {
    InscriptionData {
        id: id.as_bytes().to_vec(),
        sat_point: sat_point.as_bytes().to_vec(),
        sat_number: 5_000,
        content,
        owner: owner.as_bytes().to_vec(),
        timestamp: 1_700_000_100,
        inscription_block: height,
        tx_index: 3,
        children: Vec::new(),
    }
}

fn register_bitmap(idx: &mut BitmapIndexer, id: &str, label: &str, sat_point: &str, owner: &str, height: u64) {
    let insc = InscriptionData {
        id: id.as_bytes().to_vec(),
        sat_point: sat_point.as_bytes().to_vec(),
        sat_number: 0,
        content: format!("{}.bitmap", label).into_bytes(),
        owner: owner.as_bytes().to_vec(),
        timestamp: 1_700_000_000,
        inscription_block: height,
        tx_index: 0,
        children: Vec::new(),
    };
    let (outcome, _) = idx.process_bitmap_inscription(height, &insc, None);
    assert!(matches!(outcome, BitmapOutcome::Accepted { .. }));
}

#[test]
fn content_without_marker_is_not_a_name() {
    let mut idx = indexer("mainnet", None);
    // Plain text does not decode as a marker-carrying payload.
    let insc = name_inscription("n1", b"hello".to_vec(), "sp1", "a", 792500);
    let (outcome, _) = idx.process_bns_inscription(792500, &insc, None, None);
    assert!(matches!(outcome, NameOutcome::NotName));

    // A decodable payload whose marker is false is not a name either.
    let insc = name_inscription("n2", bns_content(false), "sp1", "a", 792500);
    let (outcome, _) = idx.process_bns_inscription(792500, &insc, None, None);
    assert!(matches!(outcome, NameOutcome::NotName));
}

#[test]
fn name_without_bitmap_rejected() {
    // A marker-carrying claim whose satoshi has no bitmap claim is always
    // rejected as bitmap-not-found, whatever its other fields.
    let mut idx = indexer("mainnet", None);
    let insc = name_inscription("n1", bns_content(true), "nowhere", "a", 792500);
    let (outcome, message) = idx.process_bns_inscription(792500, &insc, None, None);
    match outcome {
        NameOutcome::Rejected { reason } => assert_eq!(reason, RejectReason::BitmapNotFound),
        _ => panic!("name without a bitmap claim must be rejected"),
    }
    assert!(message.is_none());
    assert_eq!(idx.registry.names.len(), 0);
}

#[test]
fn valid_name_claim_accepted() {
    let mut idx = indexer("mainnet", None);
    register_bitmap(&mut idx, "b1", "792500", "sp1", "addr1", 792500);

    let content = bns_content(true);
    let insc = name_inscription("n1", content.clone(), "sp1", "owner1", 792600);
    let (outcome, message) = idx.process_bns_inscription(792600, &insc, None, None);
    match outcome {
        NameOutcome::Accepted { entry } => {
            assert_eq!(entry.name, content);
            assert_eq!(entry.owner, b"owner1".to_vec());
            assert_eq!(entry.inscription_id, b"n1".to_vec());
            assert_eq!(entry.sat_number, 5_000);
            assert!(!entry.transfer_status);
            assert_eq!(entry.transfer_block, 792600);
            assert!(entry.previous_owner.is_none());
            assert!(entry.previous_inscription_id.is_none());
            assert!(entry.previous_sat_number.is_none());
        }
        _ => panic!("valid name claim must be accepted"),
    }
    match message {
        Some(BitmapMessage::BnsInscription { entry }) => {
            assert_eq!(entry.inscription_id, b"n1".to_vec());
        }
        _ => panic!("acceptance must broadcast the claim"),
    }
    assert_eq!(idx.registry.names.len(), 1);
    // No transfer flag: nothing goes to the history log.
    assert_eq!(idx.registry.history.len(), 0);
}

#[test]
fn ownership_mismatch_quarantined_on_testnet() {
    // Quarantine on the test network: a claim failing ownership validation
    // leaves exactly one quarantine row, keyed by its inscription id, with
    // the rejection reason.
    let mut idx = indexer("testnet", Some(true));
    register_bitmap(&mut idx, "b1", "792500", "sp1", "addr1", 792500);

    let insc = name_inscription("n1", bns_content(true), "sp1", "owner1", 792600);
    let (outcome, _) = idx.process_bns_inscription(792600, &insc, None, None);
    assert!(matches!(outcome, NameOutcome::NeedSatOwner { sat_number: 5_000 }));
    assert_eq!(idx.registry.quarantine.len(), 0);

    let other_owner = b"someone-else".to_vec();
    let (outcome, _) = idx.process_bns_inscription(792600, &insc, None, Some(&other_owner));
    match outcome {
        NameOutcome::Rejected { reason } => assert_eq!(reason, RejectReason::OwnershipMismatch),
        _ => panic!("ownership mismatch must be rejected"),
    }
    assert_eq!(idx.registry.quarantine.len(), 1);
    assert_eq!(idx.registry.quarantine[0].inscription_id, b"n1".to_vec());
    assert_eq!(idx.registry.quarantine[0].reason, RejectReason::OwnershipMismatch);
    assert_eq!(idx.registry.quarantine[0].address, Vec::<u8>::new());
    assert_eq!(idx.registry.names.len(), 0);

    // A second failing attempt for the same id overwrites, never duplicates.
    let (_, _) = idx.process_bns_inscription(792600, &insc, None, Some(&other_owner));
    assert_eq!(idx.registry.quarantine.len(), 1);
}

#[test]
fn ownership_mismatch_leaves_no_trace_on_mainnet() {
    let mut idx = indexer("mainnet", Some(true));
    register_bitmap(&mut idx, "b1", "792500", "sp1", "addr1", 792500);

    let insc = name_inscription("n1", bns_content(true), "sp1", "owner1", 792600);
    let other_owner = b"someone-else".to_vec();
    let (outcome, _) = idx.process_bns_inscription(792600, &insc, None, Some(&other_owner));
    assert!(matches!(outcome, NameOutcome::Rejected { reason: RejectReason::OwnershipMismatch }));
    assert_eq!(idx.registry.quarantine.len(), 0);
    assert_eq!(idx.registry.names.len(), 0);
}

#[test]
fn matching_owner_passes_ownership_check() {
    let mut idx = indexer("mainnet", Some(true));
    register_bitmap(&mut idx, "b1", "792500", "sp1", "addr1", 792500);

    let insc = name_inscription("n1", bns_content(true), "sp1", "owner1", 792600);
    let owner = b"owner1".to_vec();
    let (outcome, _) = idx.process_bns_inscription(792600, &insc, None, Some(&owner));
    assert!(matches!(outcome, NameOutcome::Accepted { .. }));
}

#[test]
fn numeric_name_must_match_claimed_label() {
    // A digit-leading name that does not spell the claimed label plus the
    // suffix is rejected as a mismatch.  Digit-leading content cannot carry
    // the CBOR marker, so the validator is exercised directly.
    let idx = {
        let mut idx = indexer("mainnet", None);
        register_bitmap(&mut idx, "b1", "792500", "sp1", "addr1", 792500);
        idx
    };
    let insc = name_inscription("n1", b"792600.bitmap".to_vec(), "sp1", "owner1", 792600);
    let check = idx.validate_bns_inscription(792600, &insc, None, None);
    assert!(matches!(
        check,
        bitmap_indexer::indexer::NameCheckOutcome::Fail { reason: RejectReason::NameMismatch }
    ));

    let good = name_inscription("n2", b"792500.bitmap".to_vec(), "sp1", "owner1", 792600);
    let check = idx.validate_bns_inscription(792600, &good, None, None);
    assert!(matches!(check, bitmap_indexer::indexer::NameCheckOutcome::Pass));
}

#[test]
fn parcel_style_name_needs_district_acknowledgement() {
    let mut idx = indexer("mainnet", None);
    register_bitmap(&mut idx, "d1", "792500", "spd", "addr1", 792500);

    // Claim the parcel label 1.792500 so a name can sit on its satoshi.
    let parcel = InscriptionData {
        id: b"p1".to_vec(),
        sat_point: b"spp".to_vec(),
        sat_number: 0,
        content: b"1.792500.bitmap".to_vec(),
        owner: b"addr2".to_vec(),
        timestamp: 1_700_000_000,
        inscription_block: 792600,
        tx_index: 0,
        children: Vec::new(),
    };
    let mut district = InscriptionData {
        id: b"d1".to_vec(),
        sat_point: b"spd".to_vec(),
        sat_number: 0,
        content: b"792500.bitmap".to_vec(),
        owner: b"addr1".to_vec(),
        timestamp: 1_700_000_000,
        inscription_block: 792500,
        tx_index: 0,
        children: vec![bitmap_indexer::indexer::InscriptionChild { id: b"p1".to_vec() }],
    };
    let (outcome, _) = idx.process_bitmap_inscription(792600, &parcel, Some(&district));
    assert!(matches!(outcome, BitmapOutcome::Accepted { .. }));

    // A name on the parcel's satoshi must spell 1.792500.bitmap and pass the
    // district child check for its own inscription id.
    let name = name_inscription("n1", b"1.792500.bitmap".to_vec(), "spp", "owner1", 792700);
    let check = idx.validate_bns_inscription(792700, &name, None, None);
    let district_id = match check {
        bitmap_indexer::indexer::NameCheckOutcome::NeedDistrict { district_inscription_id } => {
            district_inscription_id
        }
        _ => panic!("parcel-style name must ask for the district record"),
    };
    assert_eq!(district_id, b"d1".to_vec());

    // The district does not list the name inscription: not a child.
    let check = idx.validate_bns_inscription(792700, &name, Some(&district), None);
    assert!(matches!(
        check,
        bitmap_indexer::indexer::NameCheckOutcome::Fail {
            reason: RejectReason::NotChildOfDistrict
        }
    ));

    // Once acknowledged, the name passes.
    district.children.push(bitmap_indexer::indexer::InscriptionChild { id: b"n1".to_vec() });
    let check = idx.validate_bns_inscription(792700, &name, Some(&district), None);
    assert!(matches!(check, bitmap_indexer::indexer::NameCheckOutcome::Pass));
}
