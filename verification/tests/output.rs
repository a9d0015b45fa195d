use ronin_collector::json_out::{render_output, render_record, u64_to_string};
use ronin_collector::records::RRDecodedTransaction;

fn record(
    from: &str,
    to: &str,
    hash: &str,
    block: u64,
    input: Option<&str>,
    output: Option<&str>,
) -> RRDecodedTransaction {
    RRDecodedTransaction {
        from: from.to_string(),
        to: to.to_string(),
        hash: hash.to_string(),
        block_number: block,
        input: input.map(|s| s.to_string()),
        output: output.map(|s| s.to_string()),
    }
}

#[test]
fn numbers_render_in_decimal() {
    assert_eq!(u64_to_string(0), "0");
    assert_eq!(u64_to_string(7), "7");
    assert_eq!(u64_to_string(1234567890), "1234567890");
    assert_eq!(u64_to_string(u64::MAX), "18446744073709551615");
}

#[test]
fn record_renders_every_field_in_order() {
    let r = record("0xa", "0xb", "0xh", 42, Some("{\"m\":1}"), None);
    assert_eq!(
        render_record(&r),
        "{\"from\":\"0xa\",\"to\":\"0xb\",\"hash\":\"0xh\",\"blockNumber\":42,\"input\":{\"m\":1},\"output\":null}"
    );
}

#[test]
fn strings_are_escaped() {
    let r = record("a\"b", "c\\d", "e\nf", 1, None, None);
    assert_eq!(
        render_record(&r),
        "{\"from\":\"a\\\"b\",\"to\":\"c\\\\d\",\"hash\":\"e\\u000af\",\"blockNumber\":1,\"input\":null,\"output\":null}"
    );
}

#[test]
fn empty_output_renders_as_an_empty_array() {
    assert_eq!(render_output(&vec![]), "[]");
}

#[test]
fn output_joins_records_with_commas() {
    let out = render_output(&vec![
        record("0xa", "0xb", "h1", 1, None, None),
        record("0xa", "0xb", "h2", 2, None, None),
    ]);
    assert_eq!(
        out,
        "[{\"from\":\"0xa\",\"to\":\"0xb\",\"hash\":\"h1\",\"blockNumber\":1,\"input\":null,\"output\":null},{\"from\":\"0xa\",\"to\":\"0xb\",\"hash\":\"h2\",\"blockNumber\":2,\"input\":null,\"output\":null}]"
    );
}

#[test]
fn written_output_reads_back_structurally_identical() {
    let records = vec![
        record("0xa", "0xb", "h1", 5, Some("{\"method\":\"transfer\",\"args\":[1,2]}"), None),
        record("0xc", "0xd", "h\"2", 9, None, Some("[true,null]")),
    ];
    let text = render_output(&records);
    let parsed: serde_json::Value = serde_json::from_str(&text).unwrap();
    let arr = parsed.as_array().unwrap();
    assert_eq!(arr.len(), 2);
    for (i, rec) in records.iter().enumerate() {
        let obj = arr[i].as_object().unwrap();
        assert_eq!(obj.len(), 6);
        assert_eq!(obj.get("from").unwrap().as_str().unwrap(), rec.from);
        assert_eq!(obj.get("to").unwrap().as_str().unwrap(), rec.to);
        assert_eq!(obj.get("hash").unwrap().as_str().unwrap(), rec.hash);
        assert_eq!(obj.get("blockNumber").unwrap().as_u64().unwrap(), rec.block_number);
        match &rec.input {
            None => assert!(obj.get("input").unwrap().is_null()),
            Some(t) => {
                let embedded: serde_json::Value = serde_json::from_str(t).unwrap();
                assert_eq!(obj.get("input").unwrap(), &embedded);
            },
        }
        match &rec.output {
            None => assert!(obj.get("output").unwrap().is_null()),
            Some(t) => {
                let embedded: serde_json::Value = serde_json::from_str(t).unwrap();
                assert_eq!(obj.get("output").unwrap(), &embedded);
            },
        }
    }
}
