use bitmap_indexer::config::BitmapConfigOverrides;
use bitmap_indexer::config::load_config;
use bitmap_indexer::indexer::BitmapIndexer;
use bitmap_indexer::indexer::BitmapOutcome;
use bitmap_indexer::indexer::InscriptionChild;
use bitmap_indexer::indexer::InscriptionData;
use bitmap_indexer::network::BitmapMessage;

fn overrides() -> BitmapConfigOverrides {
    BitmapConfigOverrides {
        cache_blocks: None,
        validate_sat: None,
        parallelism_enabled: None,
        batch_size: None,
        bns_history_mode: None,
        bootstrap_nodes: None,
    }
}

fn indexer(network: &str) -> BitmapIndexer {
    let config = load_config(
        network.as_bytes().to_vec(),
        b"http://127.0.0.1:8332".to_vec(),
        b"user".to_vec(),
        b"SECRET-REDACTED".to_vec(),
        b"/tmp/data".to_vec(),
        overrides(),
    );
    BitmapIndexer::new(config, network.as_bytes().to_vec())
}

fn inscription(id: &str, content: &str, sat_point: &str, owner: &str, height: u64) -> InscriptionData {
    InscriptionData {
        id: id.as_bytes().to_vec(),
        sat_point: sat_point.as_bytes().to_vec(),
        sat_number: 0,
        content: content.as_bytes().to_vec(),
        owner: owner.as_bytes().to_vec(),
        timestamp: 1_700_000_000,
        inscription_block: height,
        tx_index: 0,
        children: Vec::new(),
    }
}

#[test]
fn plain_bitmap_claim_accepted() {
    let mut idx = indexer("mainnet");
    let insc = inscription("i1", "792500.bitmap", "sp1", "addr1", 792500);
    let (outcome, message) = idx.process_bitmap_inscription(792500, &insc, None);
    match outcome {
        BitmapOutcome::Accepted { entry } => {
            assert_eq!(entry.blockheight, b"792500".to_vec());
            assert_eq!(entry.inscription_id, b"i1".to_vec());
            assert_eq!(entry.satpoint, b"sp1".to_vec());
            assert_eq!(entry.current_owner, b"addr1".to_vec());
            assert_eq!(entry.transfer_block, 792500);
            assert_eq!(entry.timestamp, 1_700_000_000);
        }
        _ => panic!("plain claim must be accepted"),
    }
    match message {
        Some(BitmapMessage::BitmapRegistration { entry }) => {
            assert_eq!(entry.blockheight, b"792500".to_vec());
        }
        _ => panic!("acceptance must broadcast a registration"),
    }
    assert_eq!(idx.registry.bitmaps.len(), 1);
}

#[test]
fn end_to_end_scenario() {
    // Genesis activation height 792435; a plain claim, then an acknowledged
    // parcel, then a duplicate of the plain claim.
    let mut idx = indexer("mainnet");

    let plain = inscription("i1", "792500.bitmap", "sp1", "addr1", 792500);
    let (outcome, _) = idx.process_bitmap_inscription(792500, &plain, None);
    assert!(matches!(outcome, BitmapOutcome::Accepted { .. }));

    let parcel = inscription("i2", "1.792500.bitmap", "sp2", "addr2", 792600);
    let (outcome, _) = idx.process_bitmap_inscription(792600, &parcel, None);
    let district_id = match outcome {
        BitmapOutcome::NeedDistrict { district_inscription_id } => district_inscription_id,
        _ => panic!("parcel evaluation must ask for the district record"),
    };
    assert_eq!(district_id, b"i1".to_vec());

    let mut district = inscription("i1", "792500.bitmap", "sp1", "addr1", 792500);
    district.children = vec![InscriptionChild { id: b"i2".to_vec() }];
    let (outcome, _) = idx.process_bitmap_inscription(792600, &parcel, Some(&district));
    match outcome {
        BitmapOutcome::Accepted { entry } => {
            assert_eq!(entry.blockheight, b"1.792500".to_vec());
        }
        _ => panic!("acknowledged parcel must be accepted"),
    }

    let duplicate = inscription("i3", "792500.bitmap", "sp3", "addr3", 792700);
    let (outcome, message) = idx.process_bitmap_inscription(792700, &duplicate, None);
    assert!(matches!(outcome, BitmapOutcome::Ignored));
    assert!(message.is_none());
    assert_eq!(idx.registry.bitmaps.len(), 2);
}

#[test]
fn parcel_before_district_then_reprocessed() {
    // A parcel arriving before its district is rejected; once the district
    // exists and acknowledges it, reprocessing accepts it.
    let mut idx = indexer("mainnet");

    let parcel = inscription("p1", "1.792500.bitmap", "sp2", "addr2", 792600);
    let (outcome, _) = idx.process_bitmap_inscription(792600, &parcel, None);
    assert!(matches!(outcome, BitmapOutcome::Ignored));

    let plain = inscription("d1", "792500.bitmap", "sp1", "addr1", 792500);
    let (outcome, _) = idx.process_bitmap_inscription(792600, &plain, None);
    assert!(matches!(outcome, BitmapOutcome::Accepted { .. }));

    let (outcome, _) = idx.process_bitmap_inscription(792600, &parcel, None);
    assert!(matches!(outcome, BitmapOutcome::NeedDistrict { .. }));
    let mut district = inscription("d1", "792500.bitmap", "sp1", "addr1", 792500);
    district.children = vec![InscriptionChild { id: b"p1".to_vec() }];
    let (outcome, _) = idx.process_bitmap_inscription(792600, &parcel, Some(&district));
    assert!(matches!(outcome, BitmapOutcome::Accepted { .. }));
}

#[test]
fn parcel_not_acknowledged_is_ignored() {
    let mut idx = indexer("mainnet");
    let plain = inscription("d1", "792500.bitmap", "sp1", "addr1", 792500);
    idx.process_bitmap_inscription(792500, &plain, None);

    let parcel = inscription("p1", "1.792500.bitmap", "sp2", "addr2", 792600);
    let mut district = inscription("d1", "792500.bitmap", "sp1", "addr1", 792500);
    district.children = vec![InscriptionChild { id: b"someone-else".to_vec() }];
    let (outcome, _) = idx.process_bitmap_inscription(792600, &parcel, Some(&district));
    assert!(matches!(outcome, BitmapOutcome::Ignored));
}

#[test]
fn early_and_malformed_claims_ignored() {
    let mut idx = indexer("mainnet");

    // The claim cannot predate its own target height.
    let future = inscription("i1", "800000.bitmap", "sp1", "a", 792500);
    let (outcome, _) = idx.process_bitmap_inscription(792500, &future, None);
    assert!(matches!(outcome, BitmapOutcome::Ignored));

    // Nothing is claimable before the activation height.
    let early = inscription("i2", "700000.bitmap", "sp2", "a", 700000);
    let (outcome, _) = idx.process_bitmap_inscription(700000, &early, None);
    assert!(matches!(outcome, BitmapOutcome::Ignored));

    // Content without the suffix is not a bitmap claim.
    let no_suffix = inscription("i3", "792500", "sp3", "a", 792500);
    let (outcome, _) = idx.process_bitmap_inscription(792500, &no_suffix, None);
    assert!(matches!(outcome, BitmapOutcome::Ignored));

    // Four segments are not a legal shape.
    let four = inscription("i4", "1.2.792500.bitmap", "sp4", "a", 792500);
    let (outcome, _) = idx.process_bitmap_inscription(792500, &four, None);
    assert!(matches!(outcome, BitmapOutcome::Ignored));

    // A label segment that is not a number is rejected, never read as a
    // default value.
    let not_a_number = inscription("i5", "x.bitmap", "sp5", "a", 792500);
    let (outcome, _) = idx.process_bitmap_inscription(792500, &not_a_number, None);
    assert!(matches!(outcome, BitmapOutcome::Ignored));

    // So is one whose value exceeds the largest representable height.
    let too_large = inscription("i6", "99999999999999999999999.bitmap", "sp6", "a", 792500);
    let (outcome, _) = idx.process_bitmap_inscription(792500, &too_large, None);
    assert!(matches!(outcome, BitmapOutcome::Ignored));

    assert_eq!(idx.registry.bitmaps.len(), 0);
}
