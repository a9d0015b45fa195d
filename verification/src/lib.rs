//! Collects the inbound and outbound transactions of one Ronin address:
//! address normalization and validation, merging and deduplicating the
//! fetched hash lists, filtering out self-transfers, sorting the enriched
//! records by block number, and rendering the output JSON.

use vstd::prelude::*;

pub mod address;
pub mod args;
pub mod collector;
pub mod hashes;
pub mod json_out;
pub mod records;
pub mod ronin;

verus! {

/// A transaction where sender and receiver coincide is a self-transfer:
/// it is noise and never reaches the output.
pub open spec fn is_self_transfer(from: Seq<char>, to: Seq<char>) -> bool {
    from == to
}

} // verus!
