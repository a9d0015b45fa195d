//! The data carried through the pipeline: the transaction summary the
//! indexing service returns for a hash, and the enriched record that
//! reaches the output file.

use vstd::prelude::*;
use crate::is_self_transfer;

verus! {

/// A transaction hash: an opaque string identifier, unique on chain.
pub type RRTransactionHash = String;

/// The response of the two list endpoints: the hashes for one address.
pub struct RRTransactionDict {
    pub transactions: Vec<RRTransactionHash>,
}

/// The summary of one transaction: the parties, the hash and the block.
pub struct RRTransaction {
    pub from: String,
    pub to: String,
    pub hash: String,
    pub block_number: u64,
}

/// The mathematical content of a summary.
pub ghost struct SummaryView {
    pub from: Seq<char>,
    pub to: Seq<char>,
    pub hash: Seq<char>,
    pub block_number: u64,
}

impl View for RRTransaction {
    type V = SummaryView;

    open spec fn view(&self) -> SummaryView {
        SummaryView {
            from: self.from@,
            to: self.to@,
            hash: self.hash@,
            block_number: self.block_number,
        }
    }
}

impl DeepView for RRTransaction {
    type V = SummaryView;

    open spec fn deep_view(&self) -> SummaryView {
        self.view()
    }
}

/// An enriched record: one summary plus the decoded method input and
/// receipt output, each held as the canonical JSON text of the value
/// the service returned, or absent.
pub struct RRDecodedTransaction {
    pub from: String,
    pub to: String,
    pub hash: RRTransactionHash,
    pub block_number: u64,
    pub input: Option<String>,
    pub output: Option<String>,
}

/// The mathematical content of an enriched record.
pub ghost struct DecodedView {
    pub from: Seq<char>,
    pub to: Seq<char>,
    pub hash: Seq<char>,
    pub block_number: u64,
    pub input: Option<Seq<char>>,
    pub output: Option<Seq<char>>,
}

impl View for RRDecodedTransaction {
    type V = DecodedView;

    open spec fn view(&self) -> DecodedView {
        DecodedView {
            from: self.from@,
            to: self.to@,
            hash: self.hash@,
            block_number: self.block_number,
            input: self.input.deep_view(),
            output: self.output.deep_view(),
        }
    }
}

impl DeepView for RRDecodedTransaction {
    type V = DecodedView;

    open spec fn deep_view(&self) -> DecodedView {
        self.view()
    }
}

/// The placeholder summary that stands in for one whose fetch or
/// decode failed; both parties read `null`, so it is a self-transfer
/// and never reaches the output.
pub open spec fn sentinel_view() -> SummaryView {
    SummaryView { from: "null"@, to: "null"@, hash: "null"@, block_number: 0 }
}

/// Build the placeholder summary.
pub fn sentinel_transaction() -> (r: RRTransaction)
    ensures
        r@ == sentinel_view(),
{
    RRTransaction {
        from: String::from_str("null"),
        to: String::from_str("null"),
        hash: String::from_str("null"),
        block_number: 0,
    }
}

/// A summary enters the output iff its parties differ.
pub fn should_include(tx: &RRTransaction) -> (r: bool)
    ensures
        r == !is_self_transfer(tx.from@, tx.to@),
{
    !tx.to.eq(&tx.from)
}

/// The placeholder is always excluded.
pub proof fn lemma_sentinel_excluded()
    ensures
        is_self_transfer(sentinel_view().from, sentinel_view().to),
{
}

} // verus!
