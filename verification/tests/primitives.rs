use opscodex::digest::{hex, sha256_hex, Preimage};
use opscodex::error::{ConnectorClass, OpsCodexError};
use opscodex::json::{Json, JsonEntry, JsonNumber};
use opscodex::json_read::{read_json, read_json_bytes};
use opscodex::order::{sorted_order, SortKey};
use opscodex::runtime::thread::{ThreadId, ThreadStatus, TurnStatus, WorkspaceId};
use opscodex::text::{
    contains_str, decimal_of, join_strings, lower_str, parse_number, split_str, str_before,
    strip_prefix, take_chars, trim_str,
};
use opscodex::time::Timestamp;
use opscodex::url_text::parse_url;
use opscodex::uuid_text::format_uuid;

fn to_value(json: &Json) -> serde_json::Value {
    match json {
        Json::Null => serde_json::Value::Null,
        Json::Bool(b) => serde_json::Value::Bool(*b),
        Json::Number(JsonNumber::PosInt(n)) => serde_json::Value::from(*n),
        Json::Number(JsonNumber::NegInt(n)) => serde_json::Value::from(*n),
        Json::Number(JsonNumber::Float(text)) => serde_json::from_str(text).unwrap(),
        Json::Text(text) => serde_json::Value::String(text.clone()),
        Json::Array(items) => serde_json::Value::Array(items.iter().map(to_value).collect()),
        Json::Object(entries) => serde_json::Value::Object(
            entries
                .iter()
                .map(|entry| (entry.key.clone(), to_value(&entry.value)))
                .collect(),
        ),
    }
}

fn entry(key: &str, value: Json) -> JsonEntry {
    JsonEntry { key: key.to_owned(), value }
}

#[test]
fn documents_are_written_as_the_outside_crate_writes_them() {
    let odd: String = (0u32..0x2100)
        .filter_map(char::from_u32)
        .collect();
    let document = Json::Object(vec![
        entry("array", Json::Array(vec![Json::Null, Json::Bool(true), Json::Bool(false)])),
        entry("empty", Json::Object(vec![])),
        entry("float", Json::Number(JsonNumber::Float("1.5".to_owned()))),
        entry("list", Json::Array(vec![])),
        entry("negative", Json::Number(JsonNumber::NegInt(i64::MIN))),
        entry("positive", Json::Number(JsonNumber::PosInt(u64::MAX))),
        entry("text", Json::Text(odd)),
        entry("zero", Json::number(0)),
        entry("\"key\"\n", Json::text("\u{10ffff}\\/")),
    ]);
    let sorted = document.to_map();
    assert_eq!(sorted.to_text(), serde_json::to_string(&to_value(&document)).unwrap());
    assert_eq!(sorted.to_bytes(), sorted.to_text().into_bytes());
}

#[test]
fn written_documents_differ_where_they_do() {
    let a = Json::Array(vec![Json::text("a"), Json::text("b")]);
    let b = Json::Array(vec![Json::text("a\",\"b")]);
    assert_ne!(a.to_text(), b.to_text());
    assert!(!Json::text("two\nlines").to_text().contains('\n'));
}

#[test]
fn members_are_looked_up() {
    let document = Json::Object(vec![
        entry("a", Json::Object(vec![entry("b", Json::number(3))])),
        entry("t", Json::text("x")),
    ]);
    assert_eq!(document.get_in("a", "b").unwrap().as_u64(), Some(3));
    assert_eq!(document.str_at("t"), Some("x"));
    assert_eq!(document.str_at("a"), None);
    assert_eq!(document.u64_at("t"), None);
    assert!(document.get("missing").is_none());
    assert!(Json::Null.get("a").is_none());
}

#[test]
fn digests_are_those_of_the_outside_crate() {
    assert_eq!(
        sha256_hex(b"abc"),
        "ba7816bf8f01cfea414140de5dae2223b00361a396177a9cb410ff61f20015ad"
    );
    assert_eq!(
        sha256_hex(b""),
        "e3b0c44298fc1c149afbf4c8996fb92427ae41e4649b934ca495991b7852b855"
    );
    assert_eq!(hex(&[0, 15, 255]), "000fff");
}

#[test]
fn preimages_keep_fields_apart() {
    let mut a = Preimage::canonical("d");
    a.push_field("x", b"ab");
    a.push_field("y", b"c");
    let mut b = Preimage::canonical("d");
    b.push_field("x", b"a");
    b.push_field("y", b"bc");
    assert_ne!(a.finish(), b.finish());
    let mut c = Preimage::canonical("d");
    c.push_string_list("l", &vec!["a".to_owned(), "b".to_owned()]);
    let mut d = Preimage::canonical("d");
    d.push_string_list("l", &vec!["ab".to_owned()]);
    assert_ne!(c.finish(), d.finish());
    let mut e = Preimage::canonical("d");
    e.push_optional_field("o", None);
    let mut f = Preimage::canonical("d");
    f.push_optional_field("o", Some(b""));
    assert_ne!(e.finish(), f.finish());
    assert_ne!(Preimage::canonical("d").finish(), Preimage::canonical("e").finish());
}

#[test]
fn identifiers_are_read_and_written() {
    let id = ThreadId::from_uuid(0x0123_4567_89ab_cdef_0123_4567_89ab_cdef);
    assert_eq!(id.to_string(), "01234567-89ab-cdef-0123-456789abcdef");
    assert_eq!(ThreadId::parse(&id.to_string()), Some(id));
    assert_eq!(ThreadId::parse("0123456789ABCDEF0123456789ABCDEF"), Some(id));
    assert_eq!(ThreadId::parse("nope"), None);
    assert_eq!(format_uuid(0), uuid::Uuid::nil().to_string());
}

#[test]
fn times_are_read_and_written() {
    let time = Timestamp::parse_rfc3339("2024-02-29T12:34:56.789+02:00").unwrap();
    assert_eq!(time.seconds(), 1_709_202_896);
    assert_eq!(time.nanos(), 789_000_000);
    assert_eq!(time.to_rfc3339(), "2024-02-29T10:34:56.789+00:00");
    assert_eq!(time.to_zulu(), "2024-02-29T10:34:56.789Z");
    assert_eq!(time.to_plain(), "2024-02-29 10:34:56.789 UTC");
    assert_eq!(time.to_compact(), "20240229T103456Z");
    let text = format!("\"{}\"", time.to_zulu());
    assert_eq!(Timestamp::from_json_text(&text).unwrap(), time);
    assert!(Timestamp::from_json_text("3").is_err());
    assert!(Timestamp::parse_rfc3339("2024").is_err());
    assert!(Timestamp::new(i64::MAX, 0).is_none());
    assert!(Timestamp::new(0, 1_000_000_000).is_none());
    let later = time.plus_seconds(60).unwrap();
    assert!(time.at_or_before(later));
    assert!(!later.at_or_before(time));
}

#[test]
fn urls_are_read() {
    let url = parse_url("HTTP://User:pw@Example.com:80/a/../b?q#f").unwrap();
    assert_eq!(url.scheme, "http");
    assert_eq!(url.username, "User");
    assert!(url.has_password);
    assert_eq!(url.host.as_deref(), Some("example.com"));
    assert_eq!(url.path, "/b");
    assert_eq!(url.text, "http://User:pw@example.com/b?q#f");
    assert!(parse_url("://").is_err());
}

#[test]
fn white_space_is_that_of_the_standard_library() {
    assert_eq!(trim_str("\u{3000} a\u{a0}b \t\r\n"), "a\u{a0}b");
    assert_eq!(trim_str(" \u{2003}"), "");
}

#[test]
fn texts_are_taken_apart() {
    assert_eq!(split_str("a/b//", '/'), vec!["a", "b", "", ""]);
    assert_eq!(join_strings(&vec!["a".to_owned(), "b".to_owned()], ", "), "a, b");
    assert_eq!(lower_str("ÄbC"), "Äbc");
    assert!(contains_str("abcabd", "abd"));
    assert!(contains_str("", ""));
    assert_eq!(strip_prefix("data: x", "data:").as_deref(), Some(" x"));
    assert_eq!(take_chars("äöü", 2), "äö");
    assert!(str_before("a", "ab"));
    assert!(!str_before("b", "ab"));
}

#[test]
fn numerals_are_read_back() {
    assert_eq!(decimal_of(0), "0");
    assert_eq!(decimal_of(u64::MAX), "18446744073709551615");
    for text in ["0", "007", "+5", "18446744073709551615"] {
        assert_eq!(parse_number(text, u64::MAX), text.parse::<u64>().ok());
    }
    for text in ["", "+", "-1", "1 ", "18446744073709551616", "0x1", "٣"] {
        assert_eq!(parse_number(text, u64::MAX), None);
        assert!(text.parse::<u64>().is_err());
    }
    assert_eq!(parse_number("256", 255), None);
    assert_eq!(parse_number("255", 255), Some(255));
}

#[test]
fn keys_are_ordered_by_score_and_name() {
    let key = |score: usize, id: &str| SortKey { score, id: id.to_owned() };
    let order = sorted_order(&vec![key(1, "b"), key(2, "z"), key(1, "a"), key(1, "b")]);
    assert_eq!(order, vec![1, 2, 0, 3]);
}

#[test]
fn errors_have_texts_and_classes() {
    assert_eq!(OpsCodexError::Cancelled.to_string(), "turn cancelled");
    assert_eq!(
        OpsCodexError::MaxStepsExceeded.to_string(),
        "maximum agent steps exceeded"
    );
    let error = OpsCodexError::connector(ConnectorClass::RateLimit, "slow down".to_owned());
    assert_eq!(error.to_string(), "rate_limit: slow down");
    assert_eq!(error.connector_class(), ConnectorClass::RateLimit);
    assert!(error.retryable());
    assert!(!ConnectorClass::Auth.retryable());
    assert_eq!(
        OpsCodexError::Policy("no".to_owned()).connector_class(),
        ConnectorClass::Policy
    );
}

#[test]
fn statuses_are_read_by_name() {
    assert_eq!(ThreadStatus::parse("running"), ThreadStatus::Running);
    assert_eq!(TurnStatus::parse("waiting_approval"), TurnStatus::WaitingApproval);
    assert_eq!(TurnStatus::NeedsReconciliation.as_str(), "needs_reconciliation");
    assert_eq!(WorkspaceId::default().as_str(), "default");
}

#[test]
fn documents_stand_for_maps() {
    let document = Json::Object(vec![
        entry("b", Json::Object(vec![entry("y", Json::Null), entry("x", Json::Null)])),
        entry("a", Json::number(1)),
        entry("b", Json::Array(vec![Json::Object(vec![
            entry("q", Json::number(2)),
            entry("p", Json::number(3)),
        ])])),
    ]);
    assert_eq!(document.to_map_text(), "{\"a\":1,\"b\":[{\"p\":3,\"q\":2}]}");
    assert_eq!(document.to_map_text(), serde_json::to_string(&to_value(&document)).unwrap());
    assert_eq!(document.to_map().to_text(), document.to_map().to_map_text());
    assert_eq!(document.to_map_bytes(), document.to_map_text().into_bytes());
}

#[test]
fn white_space_is_that_of_unicode() {
    let mut expected: Vec<u32> = (0x9..=0xd).chain([0x20, 0x85, 0xa0, 0x1680]).collect();
    expected.extend(0x2000..=0x200a);
    expected.extend([0x2028, 0x2029, 0x202f, 0x205f, 0x3000]);
    let trimmed: Vec<u32> = (0u32..=0x10ffff)
        .filter_map(char::from_u32)
        .filter(|c| trim_str(&c.to_string()).is_empty())
        .map(|c| c as u32)
        .collect();
    assert_eq!(trimmed, expected);
}

#[test]
fn documents_are_read() {
    let read = |text: &str| read_json(text).map(|value| value.to_text());
    assert_eq!(read(" {\"b\" : [null, false, \"\\u00e9\"], \"a\": 1} ").unwrap(), "{\"a\":1,\"b\":[null,false,\"\u{e9}\"]}");
    assert_eq!(read("{\"a\":1,\"a\":2}").unwrap(), "{\"a\":2}");
    assert_eq!(read("18446744073709551615").unwrap(), "18446744073709551615");
    assert_eq!(read("-9223372036854775808").unwrap(), "-9223372036854775808");
    assert_eq!(read("1.50").unwrap(), "1.5");
    assert_eq!(read("").unwrap_err(), "EOF while parsing a value at line 1 column 0");
    assert!(read("[1,]").is_err());
    assert!(read(&"[".repeat(200)).unwrap_err().contains("recursion limit"));
    assert_eq!(read_json_bytes(b"[2]").unwrap().to_text(), "[2]");
    assert!(read_json_bytes(&[b'"', 0xff, b'"']).is_err());
}
