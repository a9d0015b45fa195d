//! The configuration of the indexing-service client and the handling
//! of its responses.
//!
//! The service is consumed over five GET endpoints, parameterized by
//! address or hash. Fetching is plain I/O and happens outside the
//! library; this module builds the exact request URLs and turns the
//! response texts into the library's records. Response parsing leans
//! on serde_json behind three trusted wrappers; everything that
//! decides on the parsed values is verified.

use vstd::prelude::*;
use crate::records::{RRTransaction, RRTransactionDict, SummaryView};
use crate::records::sentinel_transaction;
use crate::records::sentinel_view;

verus! {

/// Bounded exponential-backoff retry for transient failures.
pub struct RetryPolicy {
    pub max_n_retries: u32,
    pub min_retry_interval_secs: u64,
    pub max_retry_interval_secs: u64,
    pub backoff_exponent: u32,
}

/// The client configuration: the address under inspection, the host
/// of the indexing service, and the retry policy.
pub struct RoninRest {
    pub address: String,
    pub host: String,
    pub retry: RetryPolicy,
}

impl RoninRest {
    /// The default configuration for one address: the public host and
    /// up to 25 retries backing off exponentially between 1 s and 15 s.
    pub fn new(address: String) -> (r: RoninRest)
        ensures
            r.address@ == address@,
            r.host@ == "https://ronin.rest"@,
            r.retry.max_n_retries == 25,
            r.retry.min_retry_interval_secs == 1,
            r.retry.max_retry_interval_secs == 15,
            r.retry.backoff_exponent == 2,
    {
        RoninRest {
            address,
            host: String::from_str("https://ronin.rest"),
            retry: RetryPolicy {
                max_n_retries: 25,
                min_retry_interval_secs: 1,
                max_retry_interval_secs: 15,
                backoff_exponent: 2,
            },
        }
    }

    /// Point the client at another host, keeping address and policy.
    pub fn set_host(&mut self, host: String)
        ensures
            final(self).host@ == host@,
            final(self).address == old(self).address,
            final(self).retry == old(self).retry,
    {
        self.host = host;
    }

    /// URL that lists the hashes sent by the address.
    pub fn sent_transactions_url(&self) -> (r: String)
        ensures
            r@ == self.host@ + "/archive/listSentTransactions/"@ + self.address@,
    {
        String::from_str(self.host.as_str()).concat("/archive/listSentTransactions/").concat(
            self.address.as_str(),
        )
    }

    /// URL that lists the hashes received by the address.
    pub fn received_transactions_url(&self) -> (r: String)
        ensures
            r@ == self.host@ + "/archive/listReceivedTransactions/"@ + self.address@,
    {
        String::from_str(self.host.as_str()).concat("/archive/listReceivedTransactions/").concat(
            self.address.as_str(),
        )
    }

    /// URL of the summary of one transaction.
    pub fn transaction_url(&self, hash: &str) -> (r: String)
        ensures
            r@ == self.host@ + "/ronin/getTransaction/"@ + hash@,
    {
        String::from_str(self.host.as_str()).concat("/ronin/getTransaction/").concat(hash)
    }

    /// URL of the decoded method input of one transaction.
    pub fn decode_method_url(&self, hash: &str) -> (r: String)
        ensures
            r@ == self.host@ + "/ronin/decodeTransaction/"@ + hash@,
    {
        String::from_str(self.host.as_str()).concat("/ronin/decodeTransaction/").concat(hash)
    }

    /// URL of the decoded receipt output of one transaction.
    pub fn decode_receipt_url(&self, hash: &str) -> (r: String)
        ensures
            r@ == self.host@ + "/ronin/decodeTransactionReceipt/"@ + hash@,
    {
        String::from_str(self.host.as_str()).concat("/ronin/decodeTransactionReceipt/").concat(
            hash,
        )
    }
}

/// The hash list encoded by a `{"transactions": [...]}` response, if
/// the text is such a response.
pub uninterp spec fn hash_list_of(s: Seq<char>) -> Option<Seq<Seq<char>>>;

/// The summary encoded by a `getTransaction` response: the fields
/// `from`, `to`, `hash` and `blockNumber`, if the text carries them.
pub uninterp spec fn summary_of(s: Seq<char>) -> Option<SummaryView>;

/// The canonical rendering of the JSON value a text encodes, if the
/// text is valid JSON.
pub uninterp spec fn canonical_of(s: Seq<char>) -> Option<Seq<char>>;

/// Relies on serde_json::from_str and the Value accessors `get`,
/// `as_array` and `as_str`: the `transactions` array of the response,
/// one string per entry.
#[verifier::external_body]
fn parse_hash_list(text: &str) -> (r: Option<Vec<String>>)
    ensures
        r.deep_view() == hash_list_of(text@),
{
    let v: serde_json::Value = serde_json::from_str(text).ok()?;
    let arr = v.get("transactions")?.as_array()?;
    let mut out: Vec<String> = Vec::new();
    for item in arr {
        out.push(item.as_str()?.to_string());
    }
    Some(out)
}

/// Relies on serde_json::from_str and the Value accessors `get`,
/// `as_str` and `as_u64`: the four summary fields of the response.
#[verifier::external_body]
fn parse_summary(text: &str) -> (r: Option<RRTransaction>)
    ensures
        r.deep_view() == summary_of(text@),
{
    let v: serde_json::Value = serde_json::from_str(text).ok()?;
    Some(RRTransaction {
        from: v.get("from")?.as_str()?.to_string(),
        to: v.get("to")?.as_str()?.to_string(),
        hash: v.get("hash")?.as_str()?.to_string(),
        block_number: v.get("blockNumber")?.as_u64()?,
    })
}

/// Relies on serde_json::from_str and serde_json::to_string: the
/// response re-rendered canonically, which depends on the text alone
/// because object keys are kept in a sorted map.
#[verifier::external_body]
fn parse_canonical(text: &str) -> (r: Option<String>)
    ensures
        r.deep_view() == canonical_of(text@),
{
    let v: serde_json::Value = serde_json::from_str(text).ok()?;
    serde_json::to_string(&v).ok()
}

/// Turn a list-endpoint response into the hash list it carries, or
/// nothing if the text is not such a response.
pub fn transaction_dict_from_response(text: &str) -> (r: Option<RRTransactionDict>)
    ensures
        match r {
            Some(d) => hash_list_of(text@) == Some(d.transactions.deep_view()),
            None => hash_list_of(text@) is None,
        },
{
    match parse_hash_list(text) {
        Some(transactions) => Some(RRTransactionDict { transactions }),
        None => None,
    }
}

/// Turn a `getTransaction` response into its summary. A text that
/// carries no summary yields the placeholder, whose parties coincide,
/// so a failed fetch is dropped from the output rather than aborting
/// the run.
pub fn transaction_from_response(text: &str) -> (r: RRTransaction)
    ensures
        match summary_of(text@) {
            Some(v) => r@ == v,
            None => r@ == sentinel_view(),
        },
{
    match parse_summary(text) {
        Some(tx) => tx,
        None => sentinel_transaction(),
    }
}

/// Turn a decode-endpoint response into the canonical text of the
/// decoded value, or nothing if the response is not valid JSON.
pub fn decoded_payload_from_response(text: &str) -> (r: Option<String>)
    ensures
        r.deep_view() == canonical_of(text@),
{
    parse_canonical(text)
}

} // verus!
