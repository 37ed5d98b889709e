//! Configuration for the indexer.
//!
//! The library owns the defaulting rules: a partially filled configuration
//! (as read from a configuration file by the surrounding program) is
//! completed here with the protocol's default values.  File reading and
//! deserialization stay outside the library.

use vstd::prelude::*;

use crate::bytes::prune_mode;

verus! {

/// The bitmap-subsystem block of the configuration.
pub struct BitmapConfig {
    /// Capacity of the cooldown cache.
    pub cache_blocks: usize,
    /// Whether satoshi ownership is double-checked through the external
    /// lookup before a name claim is accepted.
    pub validate_sat: bool,
    /// Whether per-block batches may fan out across worker threads.
    pub parallelism_enabled: bool,
    /// How many heights one catch-up batch covers.
    pub batch_size: usize,
    /// History retention mode: `prune` deletes aged history rows, anything
    /// else retains them.
    pub bns_history_mode: Vec<u8>,
    /// Gossip bootstrap peer addresses.
    pub bootstrap_nodes: Vec<Vec<u8>>,
}

/// The full configuration the indexer consumes.
pub struct Config {
    pub chain: Vec<u8>,
    pub bitcoin_rpc_url: Vec<u8>,
    pub bitcoin_rpc_username: Vec<u8>,
    pub bitcoin_rpc_password: Vec<u8>,
    pub data_dir: Vec<u8>,
    pub bitmap: BitmapConfig,
}

/// The bitmap-subsystem options as they stand in a configuration file, each
/// possibly absent.
pub struct BitmapConfigOverrides {
    pub cache_blocks: Option<usize>,
    pub validate_sat: Option<bool>,
    pub parallelism_enabled: Option<bool>,
    pub batch_size: Option<usize>,
    pub bns_history_mode: Option<Vec<u8>>,
    pub bootstrap_nodes: Option<Vec<Vec<u8>>>,
}

pub fn default_cache_blocks() -> (r: usize)
    ensures
        r == 144usize,
{
    144
}

pub fn default_validate_sat() -> (r: bool)
    ensures
        r == false,
{
    false
}

pub fn default_parallelism_enabled() -> (r: bool)
    ensures
        r == true,
{
    true
}

pub fn default_batch_size() -> (r: usize)
    ensures
        r == 100usize,
{
    100
}

pub fn default_bns_history_mode() -> (r: Vec<u8>)
    ensures
        r@ == prune_mode(),
{
    crate::bytes::prune_mode_bytes()
}

/// Completes a partially given configuration with the protocol defaults:
/// every absent option takes its default, every present option is kept.
pub fn load_config(
    chain: Vec<u8>,
    bitcoin_rpc_url: Vec<u8>,
    bitcoin_rpc_username: Vec<u8>,
    bitcoin_rpc_password: Vec<u8>,
    data_dir: Vec<u8>,
    bitmap: BitmapConfigOverrides,
) -> (r: Config)
    ensures
        r.chain@ == chain@,
        r.bitcoin_rpc_url@ == bitcoin_rpc_url@,
        r.bitcoin_rpc_username@ == bitcoin_rpc_username@,
        r.bitcoin_rpc_password@ == bitcoin_rpc_password@,
        r.data_dir@ == data_dir@,
        r.bitmap.cache_blocks == match bitmap.cache_blocks {
            Some(v) => v,
            None => 144usize,
        },
        r.bitmap.validate_sat == match bitmap.validate_sat {
            Some(v) => v,
            None => false,
        },
        r.bitmap.parallelism_enabled == match bitmap.parallelism_enabled {
            Some(v) => v,
            None => true,
        },
        r.bitmap.batch_size == match bitmap.batch_size {
            Some(v) => v,
            None => 100usize,
        },
        r.bitmap.bns_history_mode@ == match bitmap.bns_history_mode {
            Some(v) => v@,
            None => prune_mode(),
        },
        r.bitmap.bootstrap_nodes@ == match bitmap.bootstrap_nodes {
            Some(v) => v@,
            None => Seq::<Vec<u8>>::empty(),
        },
{
    let cache_blocks = match bitmap.cache_blocks {
        Some(v) => v,
        None => default_cache_blocks(),
    };
    let validate_sat = match bitmap.validate_sat {
        Some(v) => v,
        None => default_validate_sat(),
    };
    let parallelism_enabled = match bitmap.parallelism_enabled {
        Some(v) => v,
        None => default_parallelism_enabled(),
    };
    let batch_size = match bitmap.batch_size {
        Some(v) => v,
        None => default_batch_size(),
    };
    let bns_history_mode = match bitmap.bns_history_mode {
        Some(v) => v,
        None => default_bns_history_mode(),
    };
    let bootstrap_nodes = match bitmap.bootstrap_nodes {
        Some(v) => v,
        None => Vec::new(),
    };
    Config {
        chain,
        bitcoin_rpc_url,
        bitcoin_rpc_username,
        bitcoin_rpc_password,
        data_dir,
        bitmap: BitmapConfig {
            cache_blocks,
            validate_sat,
            parallelism_enabled,
            batch_size,
            bns_history_mode,
            bootstrap_nodes,
        },
    }
}

} // verus!
