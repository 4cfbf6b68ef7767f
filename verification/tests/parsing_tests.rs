use defitax::envelope::parse_envelope;
use defitax::record::parse_token_tx;
use defitax::{
    parse_transactions, EnvelopeError, FetchError, FieldError, JsonValue, RecordParseError,
};

fn to_json_value(v: &serde_json::Value) -> JsonValue {
    match v {
        serde_json::Value::Null => JsonValue::Null,
        serde_json::Value::Bool(b) => JsonValue::Bool(*b),
        serde_json::Value::Number(n) => JsonValue::Number(n.to_string()),
        serde_json::Value::String(s) => JsonValue::Text(s.clone()),
        serde_json::Value::Array(a) => JsonValue::Array(a.iter().map(to_json_value).collect()),
        serde_json::Value::Object(m) => JsonValue::Object(
            m.iter().map(|(k, x)| (k.clone(), to_json_value(x))).collect(),
        ),
    }
}

fn transfer_object_text() -> String {
    format!(
        "{{\"blockNumber\":\"100\",\"timeStamp\":\"1600000000\",\"hash\":\"0x{}\",\
         \"nonce\":\"0\",\"blockHash\":\"0x{}\",\"from\":\"0x{}\",\
         \"contractAddress\":\"0x{}\",\"to\":\"0x{}\",\"value\":\"1000000000000000000\",\
         \"tokenName\":\"Test\",\"tokenSymbol\":\"TST\",\"tokenDecimal\":\"18\",\
         \"transactionIndex\":\"0\",\"gas\":\"21000\",\"gasPrice\":\"1000000000\",\
         \"gasUsed\":\"21000\",\"cumulativeGasUsed\":\"21000\",\"input\":\"deprecated\",\
         \"confirmations\":\"10\"}}",
        "11".repeat(32),
        "22".repeat(32),
        "33".repeat(20),
        "44".repeat(20),
        "55".repeat(20),
    )
}

fn envelope_text() -> String {
    format!(
        "{{\"status\":\"1\",\"message\":\"OK\",\"result\":[{}]}}",
        transfer_object_text()
    )
}

fn parse_text(text: &str) -> JsonValue {
    to_json_value(&serde_json::from_str::<serde_json::Value>(text).unwrap())
}

#[test]
fn record_parses_fully() {
    let doc = parse_text(&transfer_object_text());
    let tx = parse_token_tx(&doc).unwrap();
    assert_eq!(tx.block_number, 100);
    assert_eq!(tx.timestamp, 1_600_000_000);
    assert_eq!(tx.hash.bytes, vec![0x11u8; 32]);
    assert_eq!(tx.nonce, 0);
    assert_eq!(tx.block_hash.bytes, vec![0x22u8; 32]);
    assert_eq!(tx.from.bytes, vec![0x33u8; 20]);
    assert_eq!(tx.contract_address.bytes, vec![0x44u8; 20]);
    assert_eq!(tx.to.bytes, vec![0x55u8; 20]);
    assert_eq!(tx.value.w0, 1_000_000_000_000_000_000);
    assert_eq!(tx.token_name, "Test");
    assert_eq!(tx.token_symbol, "TST");
    assert_eq!(tx.token_decimal, 18);
    assert_eq!(tx.transaction_index, 0);
    assert_eq!(tx.gas.as_u64(), 21000);
    assert_eq!(tx.gas_price.as_u64(), 1_000_000_000);
    assert_eq!(tx.gas_used.as_u64(), 21000);
    assert_eq!(tx.cumulative_gas_used.as_u64(), 21000);
    assert_eq!(tx.input, "deprecated");
    assert_eq!(tx.confirmations, 10);
}

#[test]
fn record_accepts_canonical_spellings() {
    let text = transfer_object_text()
        .replace("blockNumber", "block_number")
        .replace("timeStamp", "timestamp")
        .replace("blockHash", "block_hash")
        .replace("contractAddress", "contract_address")
        .replace("tokenName", "token_name")
        .replace("tokenSymbol", "token_symbol")
        .replace("tokenDecimal", "token_decimal")
        .replace("transactionIndex", "transaction_index")
        .replace("gasPrice", "gas_price")
        .replace("gasUsed", "gas_used")
        .replace("cumulativeGasUsed", "cumulative_gas_used");
    let doc = parse_text(&text);
    let tx = parse_token_tx(&doc).unwrap();
    assert_eq!(tx.block_number, 100);
    assert_eq!(tx.token_symbol, "TST");
}

#[test]
fn record_missing_field_names_it() {
    let full = serde_json::from_str::<serde_json::Value>(&transfer_object_text()).unwrap();
    let mut obj = full.as_object().unwrap().clone();
    obj.remove("to");
    let doc = to_json_value(&serde_json::Value::Object(obj));
    let err = parse_token_tx(&doc).unwrap_err();
    assert_eq!(err.field, "to");
    assert_eq!(err.error, FieldError::MissingField);
}

#[test]
fn record_missing_block_number_names_it() {
    let full = serde_json::from_str::<serde_json::Value>(&transfer_object_text()).unwrap();
    let mut obj = full.as_object().unwrap().clone();
    obj.remove("blockNumber");
    let doc = to_json_value(&serde_json::Value::Object(obj));
    let err = parse_token_tx(&doc).unwrap_err();
    assert_eq!(err.field, "blockNumber");
    assert_eq!(err.error, FieldError::MissingField);
}

#[test]
fn record_with_both_spellings_counts_as_missing() {
    let doc = parse_text(&transfer_object_text());
    let entries = match doc {
        JsonValue::Object(es) => es,
        _ => panic!("expected an object"),
    };
    let mut with_dup = entries;
    with_dup.push(("block_number".to_string(), JsonValue::Text("101".to_string())));
    let err = parse_token_tx(&JsonValue::Object(with_dup)).unwrap_err();
    assert_eq!(err.field, "blockNumber");
    assert_eq!(err.error, FieldError::MissingField);
}

#[test]
fn record_bad_hex_address_fails() {
    let text = transfer_object_text().replace(&"55".repeat(20), &"zz".repeat(20));
    let doc = parse_text(&text);
    let err = parse_token_tx(&doc).unwrap_err();
    assert_eq!(err.field, "to");
    assert_eq!(err.error, FieldError::MalformedHex);
}

#[test]
fn record_wrong_hex_length_fails() {
    let text = transfer_object_text().replace(&"11".repeat(32), &"11".repeat(31));
    let doc = parse_text(&text);
    let err = parse_token_tx(&doc).unwrap_err();
    assert_eq!(err.field, "hash");
    assert_eq!(err.error, FieldError::MalformedHex);
}

#[test]
fn record_bad_number_fails() {
    let text = transfer_object_text().replace("\"1000000000000000000\"", "\"12x3\"");
    let doc = parse_text(&text);
    let err = parse_token_tx(&doc).unwrap_err();
    assert_eq!(err.field, "value");
    assert_eq!(err.error, FieldError::MalformedNumber);
}

#[test]
fn record_numeric_token_value_fails() {
    // The explorer encodes numbers as strings; a bare JSON number is not a
    // string-encoded integer.
    let text = transfer_object_text().replace("\"tokenDecimal\":\"18\"", "\"tokenDecimal\":18");
    let doc = parse_text(&text);
    let err = parse_token_tx(&doc).unwrap_err();
    assert_eq!(err.field, "tokenDecimal");
    assert_eq!(err.error, FieldError::MalformedNumber);
}

#[test]
fn envelope_parses() {
    let doc = parse_text(&envelope_text());
    let env = parse_envelope(&doc).unwrap();
    assert_eq!(env.status, 1);
    assert_eq!(env.message, "OK");
    assert_eq!(env.result.len(), 1);
    assert_eq!(env.result[0].gas_used.as_u64(), 21000);
}

#[test]
fn envelope_status_must_be_numeric_text() {
    let text = envelope_text().replace("\"status\":\"1\"", "\"status\":\"ok\"");
    let doc = parse_text(&text);
    let err = parse_envelope(&doc).unwrap_err();
    assert_eq!(
        err,
        EnvelopeError::Envelope(RecordParseError {
            field: "status".to_string(),
            error: FieldError::MalformedNumber,
        })
    );
}

#[test]
fn envelope_fails_whole_on_one_bad_record() {
    let good = transfer_object_text();
    let bad = transfer_object_text().replace("\"gasUsed\":\"21000\"", "\"gasUsed\":\"none\"");
    let text = format!(
        "{{\"status\":\"1\",\"message\":\"OK\",\"result\":[{},{}]}}",
        good, bad
    );
    let doc = parse_text(&text);
    let err = parse_envelope(&doc).unwrap_err();
    assert_eq!(
        err,
        EnvelopeError::Record(
            1,
            RecordParseError { field: "gasUsed".to_string(), error: FieldError::MalformedNumber },
        )
    );
}

#[test]
fn envelope_requires_result_list() {
    let text = "{\"status\":\"1\",\"message\":\"OK\"}";
    let doc = parse_text(text);
    let err = parse_envelope(&doc).unwrap_err();
    assert_eq!(
        err,
        EnvelopeError::Envelope(RecordParseError {
            field: "result".to_string(),
            error: FieldError::MissingField,
        })
    );
}

#[test]
fn envelope_top_level_must_be_object() {
    let doc = parse_text("[1,2,3]");
    assert_eq!(parse_envelope(&doc).unwrap_err(), EnvelopeError::UnexpectedShape);
}

#[test]
fn end_to_end_envelope_gives_gas_total() {
    let doc = parse_text(&envelope_text());
    let list = parse_transactions(Some(doc)).unwrap();
    assert_eq!(list.0.len(), 1);
    assert_eq!(list.0[0].gas_used.as_u64(), 21000);
    assert_eq!(list.total_gas_cost(), 21000);
}

#[test]
fn non_json_body_is_a_parse_error() {
    let doc = serde_json::from_str::<serde_json::Value>("not json at all")
        .ok()
        .map(|v| to_json_value(&v));
    assert!(doc.is_none());
    let err = parse_transactions(doc).unwrap_err();
    assert_eq!(err, FetchError::ParseError(EnvelopeError::MalformedJson));
}
