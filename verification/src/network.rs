//! Replication events for the gossip overlay.
//!
//! Every locally accepted claim is announced to peers as one of a fixed
//! small set of event variants on a single shared topic.  The library
//! builds the events; serializing them to the wire and publishing them is
//! transport work that stays outside.  Peers receiving an event re-validate
//! it against their own registry before trusting it: this is a replication
//! channel, not a consensus mechanism.

use vstd::prelude::*;

use crate::registry::BitmapEntry;
use crate::registry::BitmapEntryV;
use crate::registry::BnsEntry;
use crate::registry::BnsEntryV;

verus! {

/// One replication event on the shared topic.
pub enum BitmapMessage {
    /// A bitmap claim was accepted.
    BitmapRegistration { entry: BitmapEntry },
    /// Reserved: a bitmap claim changed owner.
    BitmapTransfer { blockheight: Vec<u8>, new_owner: Vec<u8>, transfer_block: u64 },
    /// A name claim was accepted.
    BnsInscription { entry: BnsEntry },
    /// A peer asks for the timestamp others recorded for an inscription.
    TimestampRequest { inscription_id: Vec<u8> },
    /// A peer answers a timestamp request.
    TimestampResponse { inscription_id: Vec<u8>, timestamp: u64 },
}

#[verifier::ext_equal]
pub ghost enum BitmapMessageV {
    BitmapRegistration { entry: BitmapEntryV },
    BitmapTransfer { blockheight: Seq<u8>, new_owner: Seq<u8>, transfer_block: u64 },
    BnsInscription { entry: BnsEntryV },
    TimestampRequest { inscription_id: Seq<u8> },
    TimestampResponse { inscription_id: Seq<u8>, timestamp: u64 },
}

impl View for BitmapMessage {
    type V = BitmapMessageV;

    open spec fn view(&self) -> BitmapMessageV {
        match self {
            BitmapMessage::BitmapRegistration { entry } => BitmapMessageV::BitmapRegistration {
                entry: entry@,
            },
            BitmapMessage::BitmapTransfer { blockheight, new_owner, transfer_block } => BitmapMessageV::BitmapTransfer {
                blockheight: blockheight@,
                new_owner: new_owner@,
                transfer_block: *transfer_block,
            },
            BitmapMessage::BnsInscription { entry } => BitmapMessageV::BnsInscription {
                entry: entry@,
            },
            BitmapMessage::TimestampRequest { inscription_id } => BitmapMessageV::TimestampRequest {
                inscription_id: inscription_id@,
            },
            BitmapMessage::TimestampResponse { inscription_id, timestamp } => BitmapMessageV::TimestampResponse {
                inscription_id: inscription_id@,
                timestamp: *timestamp,
            },
        }
    }
}

/// The event announcing an accepted bitmap claim.
pub fn bitmap_register_message(entry: &BitmapEntry) -> (m: BitmapMessage)
    ensures
        m@ == (BitmapMessageV::BitmapRegistration { entry: entry@ }),
{
    BitmapMessage::BitmapRegistration { entry: entry.duplicate() }
}

/// The reserved event announcing a bitmap ownership transfer.
pub fn bitmap_transfer_message(blockheight: &Vec<u8>, new_owner: &Vec<u8>, transfer_block: u64) -> (m:
    BitmapMessage)
    ensures
        m@ == (BitmapMessageV::BitmapTransfer {
            blockheight: blockheight@,
            new_owner: new_owner@,
            transfer_block,
        }),
{
    BitmapMessage::BitmapTransfer {
        blockheight: crate::bytes::copy_bytes(blockheight),
        new_owner: crate::bytes::copy_bytes(new_owner),
        transfer_block,
    }
}

/// The event announcing an accepted name claim.
pub fn bns_claim_message(entry: &BnsEntry) -> (m: BitmapMessage)
    ensures
        m@ == (BitmapMessageV::BnsInscription { entry: entry@ }),
{
    BitmapMessage::BnsInscription { entry: entry.duplicate() }
}

/// The request opening a timestamp reconciliation round.
pub fn timestamp_request_message(inscription_id: &Vec<u8>) -> (m: BitmapMessage)
    ensures
        m@ == (BitmapMessageV::TimestampRequest { inscription_id: inscription_id@ }),
{
    BitmapMessage::TimestampRequest { inscription_id: crate::bytes::copy_bytes(inscription_id) }
}

/// The answer to a timestamp reconciliation request.
pub fn timestamp_response_message(inscription_id: &Vec<u8>, timestamp: u64) -> (m: BitmapMessage)
    ensures
        m@ == (BitmapMessageV::TimestampResponse {
            inscription_id: inscription_id@,
            timestamp,
        }),
{
    BitmapMessage::TimestampResponse {
        inscription_id: crate::bytes::copy_bytes(inscription_id),
        timestamp,
    }
}

} // verus!
