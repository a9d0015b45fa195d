use ronin_collector::collector::{sort_by_block, TransactionCollector};
use ronin_collector::hashes::merge_transactions;
use ronin_collector::json_out::{output_file_name, render_output};
use ronin_collector::records::{should_include, RRDecodedTransaction, RRTransaction};
use ronin_collector::ronin::transaction_from_response;

fn strings(v: &[&str]) -> Vec<String> {
    v.iter().map(|s| s.to_string()).collect()
}

fn summary(from: &str, to: &str, hash: &str, block: u64) -> RRTransaction {
    RRTransaction {
        from: from.to_string(),
        to: to.to_string(),
        hash: hash.to_string(),
        block_number: block,
    }
}

#[test]
fn merge_is_a_set_union() {
    let merged = merge_transactions(&strings(&["h1", "h2"]), &strings(&["h2", "h3"]));
    assert_eq!(merged, strings(&["h1", "h2", "h3"]));
}

#[test]
fn merge_removes_non_adjacent_duplicates() {
    let merged = merge_transactions(&strings(&["a", "b", "a"]), &strings(&[]));
    assert_eq!(merged, strings(&["a", "b"]));
    let merged = merge_transactions(&strings(&["a"]), &strings(&["b", "a", "a", "c"]));
    assert_eq!(merged, strings(&["a", "b", "c"]));
}

#[test]
fn merge_of_empty_lists_is_empty() {
    let merged = merge_transactions(&strings(&[]), &strings(&[]));
    assert!(merged.is_empty());
}

#[test]
fn self_transfer_is_filtered() {
    assert!(!should_include(&summary("0xa", "0xa", "h", 1)));
    assert!(should_include(&summary("0xa", "0xb", "h", 1)));
}

#[test]
fn self_transfer_never_reaches_the_output() {
    let mut collector = TransactionCollector::new();
    let tx = summary("0xa", "0xb", "h1", 7);
    if should_include(&tx) {
        collector.add_enriched(tx, None, None);
    }
    let tx = summary("0xc", "0xc", "h2", 8);
    if should_include(&tx) {
        collector.add_enriched(tx, None, None);
    }
    let records = collector.sorted_records();
    assert_eq!(records.len(), 1);
    assert_eq!(records[0].hash, "h1");
}

#[test]
fn lone_self_transfer_gives_an_empty_output() {
    // received holds one hash whose summary is a self-transfer
    let merged = merge_transactions(&strings(&[]), &strings(&["h1"]));
    let mut collector = TransactionCollector::new();
    for _hash in &merged {
        let tx = summary("0xaaaa", "0xaaaa", "h1", 3);
        if should_include(&tx) {
            collector.add_enriched(tx, None, None);
        }
    }
    let records = collector.sorted_records();
    let rendered = render_output(&records);
    assert_eq!(rendered, "[]");
}

#[test]
fn output_is_sorted_by_block_number() {
    let mut collector = TransactionCollector::new();
    collector.add_enriched(summary("0xa", "0xb", "h100", 100), None, None);
    collector.add_enriched(summary("0xa", "0xb", "h50", 50), None, None);
    let records = collector.sorted_records();
    assert_eq!(records[0].block_number, 50);
    assert_eq!(records[1].block_number, 100);
}

#[test]
fn sort_is_stable_for_equal_block_numbers() {
    let a = RRDecodedTransaction {
        from: "0xa".to_string(),
        to: "0xb".to_string(),
        hash: "first".to_string(),
        block_number: 9,
        input: None,
        output: None,
    };
    let b = RRDecodedTransaction {
        from: "0xa".to_string(),
        to: "0xb".to_string(),
        hash: "second".to_string(),
        block_number: 9,
        input: None,
        output: None,
    };
    let c = RRDecodedTransaction {
        from: "0xa".to_string(),
        to: "0xb".to_string(),
        hash: "early".to_string(),
        block_number: 1,
        input: None,
        output: None,
    };
    let sorted = sort_by_block(vec![a, b, c]);
    assert_eq!(sorted[0].hash, "early");
    assert_eq!(sorted[1].hash, "first");
    assert_eq!(sorted[2].hash, "second");
}

#[test]
fn failed_summary_fetch_becomes_the_placeholder_and_is_dropped() {
    let tx = transaction_from_response("not json at all");
    assert_eq!(tx.from, "null");
    assert_eq!(tx.to, "null");
    assert_eq!(tx.hash, "null");
    assert_eq!(tx.block_number, 0);
    assert!(!should_include(&tx));
}

#[test]
fn output_file_is_named_after_the_address() {
    let name = output_file_name("0xabc");
    assert_eq!(name, "0xabc.json");
}
