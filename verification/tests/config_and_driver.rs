use bitmap_indexer::bytes::ends_with;
use bitmap_indexer::bytes::parse_label;
use bitmap_indexer::bytes::split_on_dot;
use bitmap_indexer::config::BitmapConfigOverrides;
use bitmap_indexer::config::default_batch_size;
use bitmap_indexer::config::default_bns_history_mode;
use bitmap_indexer::config::default_cache_blocks;
use bitmap_indexer::config::default_parallelism_enabled;
use bitmap_indexer::config::default_validate_sat;
use bitmap_indexer::config::load_config;
use bitmap_indexer::driver::batch_heights;
use bitmap_indexer::driver::pending_heights;
use bitmap_indexer::driver::sync_batch_starts;
use bitmap_indexer::network::BitmapMessage;
use bitmap_indexer::network::bitmap_register_message;
use bitmap_indexer::network::bitmap_transfer_message;
use bitmap_indexer::network::bns_claim_message;
use bitmap_indexer::network::timestamp_request_message;
use bitmap_indexer::network::timestamp_response_message;
use bitmap_indexer::registry::BitmapEntry;
use bitmap_indexer::registry::BnsEntry;
use bitmap_indexer::indexer::BitmapIndexer;

#[test]
fn load_config_applies_defaults() {
    let config = load_config(
        b"mainnet".to_vec(),
        b"http://127.0.0.1:8332".to_vec(),
        b"user".to_vec(),
        b"SECRET-REDACTED".to_vec(),
        b"/var/data".to_vec(),
        BitmapConfigOverrides {
            cache_blocks: None,
            validate_sat: None,
            parallelism_enabled: None,
            batch_size: None,
            bns_history_mode: None,
            bootstrap_nodes: None,
        },
    );
    assert_eq!(config.chain, b"mainnet".to_vec());
    assert_eq!(config.bitmap.cache_blocks, 144);
    assert!(!config.bitmap.validate_sat);
    assert!(config.bitmap.parallelism_enabled);
    assert_eq!(config.bitmap.batch_size, 100);
    assert_eq!(config.bitmap.bns_history_mode, b"prune".to_vec());
    assert!(config.bitmap.bootstrap_nodes.is_empty());

    assert_eq!(default_cache_blocks(), 144);
    assert!(!default_validate_sat());
    assert!(default_parallelism_enabled());
    assert_eq!(default_batch_size(), 100);
    assert_eq!(default_bns_history_mode(), b"prune".to_vec());
}

#[test]
fn load_config_keeps_given_values() {
    let config = load_config(
        b"testnet".to_vec(),
        b"url".to_vec(),
        b"u".to_vec(),
        b"SECRET-REDACTED".to_vec(),
        b"/tmp".to_vec(),
        BitmapConfigOverrides {
            cache_blocks: Some(10),
            validate_sat: Some(true),
            parallelism_enabled: Some(false),
            batch_size: Some(7),
            bns_history_mode: Some(b"retain".to_vec()),
            bootstrap_nodes: Some(vec![b"/ip4/10.0.0.1/tcp/4001".to_vec()]),
        },
    );
    assert_eq!(config.bitmap.cache_blocks, 10);
    assert!(config.bitmap.validate_sat);
    assert!(!config.bitmap.parallelism_enabled);
    assert_eq!(config.bitmap.batch_size, 7);
    assert_eq!(config.bitmap.bns_history_mode, b"retain".to_vec());
    assert_eq!(config.bitmap.bootstrap_nodes.len(), 1);
}

#[test]
fn sync_batches_tile_the_range() {
    // The starts stride by the batch size, and the batch at each start
    // holds every height up to the next start (clipped at the tip): their
    // concatenation is exactly the full range, in order.
    let starts = sync_batch_starts(792435, 792445, 10);
    assert_eq!(starts, vec![792435, 792445]);
    let mut covered: Vec<u64> = Vec::new();
    for start in &starts {
        covered.extend(batch_heights(*start, 792445, 10));
    }
    assert_eq!(covered, (792435..=792445).collect::<Vec<u64>>());

    let one = sync_batch_starts(792435, 792435, 100);
    assert_eq!(one, vec![792435]);
    assert_eq!(batch_heights(792435, 792435, 100), vec![792435]);

    let none = sync_batch_starts(792436, 792435, 100);
    assert!(none.is_empty());

    let exact = sync_batch_starts(10, 30, 10);
    assert_eq!(exact, vec![10, 20, 30]);
    assert_eq!(batch_heights(10, 30, 10), (10..=19).collect::<Vec<u64>>());
    assert_eq!(batch_heights(20, 30, 10), (20..=29).collect::<Vec<u64>>());
    assert_eq!(batch_heights(30, 30, 10), vec![30]);
}

#[test]
fn polling_processes_exactly_the_new_blocks() {
    assert_eq!(pending_heights(792500, 792503), vec![792501, 792502, 792503]);
    assert_eq!(pending_heights(792500, 792501), vec![792501]);
    assert!(pending_heights(792500, 792500).is_empty());
    assert!(pending_heights(792500, 792400).is_empty());
}

#[test]
fn label_parsing_and_splitting() {
    assert_eq!(parse_label(&b"792500".to_vec()), Some(792500));
    assert_eq!(parse_label(&b"0".to_vec()), Some(0));
    assert_eq!(parse_label(&b"".to_vec()), None);
    assert_eq!(parse_label(&b"12x".to_vec()), None);
    assert_eq!(parse_label(&b"99999999999999999999999".to_vec()), None);
    assert_eq!(parse_label(&b"18446744073709551615".to_vec()), Some(u64::MAX));

    let parts = split_on_dot(&b"1.792500.bitmap".to_vec());
    assert_eq!(parts.len(), 3);
    assert_eq!(parts[0], b"1".to_vec());
    assert_eq!(parts[1], b"792500".to_vec());
    assert_eq!(parts[2], b"bitmap".to_vec());

    let parts = split_on_dot(&b"792500".to_vec());
    assert_eq!(parts, vec![b"792500".to_vec()]);

    let parts = split_on_dot(&b".a.".to_vec());
    assert_eq!(parts, vec![Vec::new(), b"a".to_vec(), Vec::new()]);

    assert!(ends_with(&b"792500.bitmap".to_vec(), &b".bitmap".to_vec()));
    assert!(!ends_with(&b"792500.bitmop".to_vec(), &b".bitmap".to_vec()));
    assert!(!ends_with(&b"map".to_vec(), &b".bitmap".to_vec()));
}

#[test]
fn replication_events_carry_their_claims() {

    let e = BitmapEntry {
        blockheight: b"792500".to_vec(),
        timestamp: 1,
        inscription_id: b"i1".to_vec(),
        satpoint: b"sp".to_vec(),
        current_owner: b"o".to_vec(),
        transfer_block: 792500,
    };
    match bitmap_register_message(&e) {
        BitmapMessage::BitmapRegistration { entry } => {
            assert_eq!(entry.blockheight, b"792500".to_vec())
        }
        _ => panic!("wrong variant"),
    }

    match bitmap_transfer_message(&b"792500".to_vec(), &b"new".to_vec(), 792600) {
        BitmapMessage::BitmapTransfer { blockheight, new_owner, transfer_block } => {
            assert_eq!(blockheight, b"792500".to_vec());
            assert_eq!(new_owner, b"new".to_vec());
            assert_eq!(transfer_block, 792600);
        }
        _ => panic!("wrong variant"),
    }

    let n = BnsEntry {
        name: b"name".to_vec(),
        address: b"792500".to_vec(),
        owner: b"o".to_vec(),
        inscription_block: 792500,
        tx_index: 0,
        inscription_id: b"n1".to_vec(),
        sat_number: 1,
        transfer_status: false,
        transfer_block: 792500,
        timestamp: 0,
        original_blockheight: b"792500".to_vec(),
        previous_owner: None,
        previous_inscription_id: None,
        previous_sat_number: None,
    };
    match bns_claim_message(&n) {
        BitmapMessage::BnsInscription { entry } => assert_eq!(entry.inscription_id, b"n1".to_vec()),
        _ => panic!("wrong variant"),
    }

    match timestamp_request_message(&b"i1".to_vec()) {
        BitmapMessage::TimestampRequest { inscription_id } => {
            assert_eq!(inscription_id, b"i1".to_vec())
        }
        _ => panic!("wrong variant"),
    }
    match timestamp_response_message(&b"i1".to_vec(), 42) {
        BitmapMessage::TimestampResponse { inscription_id, timestamp } => {
            assert_eq!(inscription_id, b"i1".to_vec());
            assert_eq!(timestamp, 42);
        }
        _ => panic!("wrong variant"),
    }
}

#[test]
fn timestamp_reconciliation_returns_the_local_value() {

    let config = load_config(
        b"mainnet".to_vec(),
        b"url".to_vec(),
        b"u".to_vec(),
        b"SECRET-REDACTED".to_vec(),
        b"/tmp".to_vec(),
        BitmapConfigOverrides {
            cache_blocks: None,
            validate_sat: None,
            parallelism_enabled: None,
            batch_size: None,
            bns_history_mode: None,
            bootstrap_nodes: None,
        },
    );
    let idx = BitmapIndexer::new(config, b"mainnet".to_vec());
    let (message, resolved) = idx.resolve_timestamp_mismatch(&b"i1".to_vec(), 1234);
    assert_eq!(resolved, 1234);
    assert!(matches!(message, BitmapMessage::TimestampRequest { .. }));
}

#[test]
fn finish_block_prunes_for_the_new_height() {

    let config = load_config(
        b"mainnet".to_vec(),
        b"url".to_vec(),
        b"u".to_vec(),
        b"SECRET-REDACTED".to_vec(),
        b"/tmp".to_vec(),
        BitmapConfigOverrides {
            cache_blocks: Some(144),
            validate_sat: None,
            parallelism_enabled: None,
            batch_size: None,
            bns_history_mode: None,
            bootstrap_nodes: None,
        },
    );
    let mut idx = BitmapIndexer::new(config, b"mainnet".to_vec());
    let transfer = BnsEntry {
        name: b"name".to_vec(),
        address: b"792500".to_vec(),
        owner: b"o".to_vec(),
        inscription_block: 792500,
        tx_index: 0,
        inscription_id: b"n1".to_vec(),
        sat_number: 1,
        transfer_status: true,
        transfer_block: 792500,
        timestamp: 0,
        original_blockheight: b"792500".to_vec(),
        previous_owner: None,
        previous_inscription_id: None,
        previous_sat_number: None,
    };
    idx.registry.store_bns_entry(&transfer);
    assert_eq!(idx.registry.history.len(), 1);

    idx.finish_block(792600);
    assert_eq!(idx.current_block_height, 792600);
    assert_eq!(idx.registry.history.len(), 1);

    idx.finish_block(792645);
    assert_eq!(idx.registry.history.len(), 0);
}
