use ronin_collector::args::ArgParser;
use ronin_collector::ronin::{
    decoded_payload_from_response, transaction_dict_from_response, transaction_from_response,
    RoninRest,
};

#[test]
fn list_response_yields_its_hashes() {
    let d = transaction_dict_from_response("{\"transactions\":[\"0xh1\",\"0xh2\"]}").unwrap();
    assert_eq!(d.transactions, vec!["0xh1".to_string(), "0xh2".to_string()]);
}

#[test]
fn list_response_tolerates_whitespace_and_extra_fields() {
    let d = transaction_dict_from_response("{ \"total\": 2, \"transactions\" : [ \"a\" ] }")
        .unwrap();
    assert_eq!(d.transactions, vec!["a".to_string()]);
}

#[test]
fn malformed_list_response_is_refused() {
    assert!(transaction_dict_from_response("nonsense").is_none());
    assert!(transaction_dict_from_response("{\"transactions\": 3}").is_none());
    assert!(transaction_dict_from_response("{\"transactions\": [1, 2]}").is_none());
    assert!(transaction_dict_from_response("{}").is_none());
}

#[test]
fn summary_response_yields_its_fields() {
    let tx = transaction_from_response(
        "{\"from\":\"0xa\",\"to\":\"0xb\",\"hash\":\"0xh\",\"blockNumber\":42}",
    );
    assert_eq!(tx.from, "0xa");
    assert_eq!(tx.to, "0xb");
    assert_eq!(tx.hash, "0xh");
    assert_eq!(tx.block_number, 42);
}

#[test]
fn summary_without_a_field_becomes_the_placeholder() {
    let tx = transaction_from_response("{\"from\":\"0xa\",\"to\":\"0xb\",\"hash\":\"0xh\"}");
    assert_eq!(tx.from, "null");
    assert_eq!(tx.block_number, 0);
}

#[test]
fn decoded_payload_is_canonicalized() {
    // whitespace goes away: the response is re-rendered, not echoed
    let p = decoded_payload_from_response("{ \"name\" : \"transfer\" }").unwrap();
    assert_eq!(p, "{\"name\":\"transfer\"}");
    let p = decoded_payload_from_response("[ 1 , 2 ]").unwrap();
    assert_eq!(p, "[1,2]");
}

#[test]
fn invalid_payload_is_refused() {
    assert!(decoded_payload_from_response("{broken").is_none());
}

#[test]
fn default_client_configuration() {
    let rr = RoninRest::new("0xabc".to_string());
    assert_eq!(rr.address, "0xabc");
    assert_eq!(rr.host, "https://ronin.rest");
    assert_eq!(rr.retry.max_n_retries, 25);
    assert_eq!(rr.retry.min_retry_interval_secs, 1);
    assert_eq!(rr.retry.max_retry_interval_secs, 15);
    assert_eq!(rr.retry.backoff_exponent, 2);
}

#[test]
fn endpoint_urls() {
    let mut rr = RoninRest::new("0xabc".to_string());
    assert_eq!(
        rr.sent_transactions_url(),
        "https://ronin.rest/archive/listSentTransactions/0xabc"
    );
    assert_eq!(
        rr.received_transactions_url(),
        "https://ronin.rest/archive/listReceivedTransactions/0xabc"
    );
    assert_eq!(rr.transaction_url("0xh"), "https://ronin.rest/ronin/getTransaction/0xh");
    assert_eq!(rr.decode_method_url("0xh"), "https://ronin.rest/ronin/decodeTransaction/0xh");
    assert_eq!(
        rr.decode_receipt_url("0xh"),
        "https://ronin.rest/ronin/decodeTransactionReceipt/0xh"
    );
    rr.set_host("http://localhost:3000".to_string());
    assert_eq!(
        rr.sent_transactions_url(),
        "http://localhost:3000/archive/listSentTransactions/0xabc"
    );
}

#[test]
fn split_finds_the_first_matching_argument() {
    let args = vec![
        "prog".to_string(),
        "--localhost".to_string(),
        "--address=0xabc".to_string(),
        "--address=0xdef".to_string(),
    ];
    assert_eq!(ArgParser::split(&args, "--address"), Some("0xabc".to_string()));
    assert_eq!(ArgParser::split(&args, "--localhost"), None);
    assert_eq!(ArgParser::split(&args, "--missing"), None);
}

#[test]
fn split_skips_arguments_with_a_second_equals_sign() {
    let args = vec!["--key=a=b".to_string(), "--key=c".to_string()];
    assert_eq!(ArgParser::split(&args, "--key"), Some("c".to_string()));
}

#[test]
fn split_takes_an_empty_value() {
    let args = vec!["--key=".to_string()];
    assert_eq!(ArgParser::split(&args, "--key"), Some("".to_string()));
}
