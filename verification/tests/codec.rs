//! Tests of the JSON codec: encoding, parsing, escaping, and numbers, with
//! serde_json as an independent cross-check.

use ollama_native::encode::encode_json_string;
use ollama_native::json::JsonValue;
use ollama_native::parameter::JsonNumber;
use ollama_native::parse::parse_json_str;

fn roundtrip(text: &str) -> String {
    let v = parse_json_str(text).expect("input should parse");
    encode_json_string(&v)
}

#[test]
fn parse_simple_values() {
    assert_eq!(roundtrip("null"), "null");
    assert_eq!(roundtrip("true"), "true");
    assert_eq!(roundtrip("false"), "false");
    assert_eq!(roundtrip("0"), "0");
    assert_eq!(roundtrip("-12.5e3"), "-12.5e3");
    assert_eq!(roundtrip("\"hi\""), "\"hi\"");
    assert_eq!(roundtrip("[]"), "[]");
    assert_eq!(roundtrip("{}"), "{}");
}

#[test]
fn parse_skips_whitespace() {
    assert_eq!(roundtrip("  {\n \"a\" : [ 1 , 2 ] , \"b\" : null }\t"), "{\"a\":[1,2],\"b\":null}");
}

#[test]
fn parse_string_escapes() {
    assert_eq!(roundtrip("\"a\\nb\""), "\"a\\nb\"");
    assert_eq!(roundtrip("\"q\\\"q\""), "\"q\\\"q\"");
    assert_eq!(roundtrip("\"back\\\\slash\""), "\"back\\\\slash\"");
    assert_eq!(roundtrip("\"sol\\/idus\""), "\"sol/idus\"");
    assert_eq!(roundtrip("\"\\u0041\""), "\"A\"");
    // A surrogate pair decodes to one character outside the basic plane.
    let v = parse_json_str("\"\\ud83d\\ude00\"").expect("surrogate pair parses");
    match &v {
        JsonValue::Str(s) => assert_eq!(s.as_str(), "\u{1f600}"),
        _ => panic!("expected a string"),
    }
}

#[test]
fn parse_rejects_malformed_input() {
    for bad in [
        "",
        "   ",
        "{",
        "[1,]",
        "{\"a\":}",
        "{\"a\" 1}",
        "nul",
        "tru",
        "01",
        "1.",
        "1e",
        "-",
        "\"unterminated",
        "\"bad\\escape\"",
        "\"lone\\ud800 surrogate\"",
        "[1] trailing",
        "{\"a\":1,}",
    ] {
        assert!(parse_json_str(bad).is_none(), "{bad:?} should be rejected");
        assert!(serde_json::from_str::<serde_json::Value>(bad).is_err(), "{bad:?} agreed by serde");
    }
}

#[test]
fn parser_agrees_with_reference_parser() {
    let docs = [
        "{\"status\":\"pulling manifest\"}",
        "{\"a\":[1,2.5,-3e2,true,false,null],\"b\":{\"c\":\"d\"},\"e\":[]}",
        "[\"nested\",[\"arrays\",[{\"deep\":1}]]]",
        "{\"text\":\"line\\nbreak \\u00e9\\t\",\"n\":-0.125}",
        "3.1415926535",
        "\"just a string\"",
    ];
    for doc in docs {
        let mine = roundtrip(doc);
        // Re-encoding the canonical text must be accepted by serde_json and
        // denote the same value as the original.
        let reference: serde_json::Value = serde_json::from_str(doc).expect("reference parses");
        let mine_parsed: serde_json::Value =
            serde_json::from_str(&mine).expect("canonical text parses");
        assert_eq!(reference, mine_parsed, "value mismatch for {doc:?}");
    }
}

#[test]
fn encoder_escapes_control_characters() {
    let v = JsonValue::Str(String::from("a\u{8}\u{c}\n\r\t\u{1b}b"));
    let text = encode_json_string(&v);
    assert_eq!(text, "\"a\\b\\f\\n\\r\\t\\u001bb\"");
    let back: serde_json::Value = serde_json::from_str(&text).expect("escaped text parses");
    assert_eq!(back, serde_json::Value::String("a\u{8}\u{c}\n\r\t\u{1b}b".to_string()));
}

#[test]
fn number_literals_pass_through_unchanged() {
    let v = parse_json_str("{\"temperature\":0.8,\"seed\":42}").expect("parses");
    assert_eq!(encode_json_string(&v), "{\"temperature\":0.8,\"seed\":42}");
}

#[test]
fn json_number_validates_text() {
    assert!(JsonNumber::from_text("0.8").is_some());
    assert!(JsonNumber::from_text("-1e-9").is_some());
    assert!(JsonNumber::from_text("100").is_some());
    assert!(JsonNumber::from_text("abc").is_none());
    assert!(JsonNumber::from_text("01").is_none());
    assert!(JsonNumber::from_text("1.").is_none());
    assert!(JsonNumber::from_text("").is_none());
    let n = JsonNumber::from_i64(-987654321);
    assert_eq!(n.as_text().as_str(), "-987654321");
}

#[test]
fn deep_clone_preserves_value() {
    let v = parse_json_str("{\"a\":[1,{\"b\":\"c\"}]}").expect("parses");
    let w = v.deep_clone();
    assert_eq!(encode_json_string(&v), encode_json_string(&w));
}
