use bittorrent::bencode::{bencode_strings, decode_to_json, decode_to_text, BencodeValue, JsonValue};

#[test]
fn converts_nested_values() {
    let v = BencodeValue::Dict(vec![
        (b"foo".to_vec(), BencodeValue::Bytes(b"bar".to_vec())),
        (
            b"list".to_vec(),
            BencodeValue::List(vec![BencodeValue::Int(-52), BencodeValue::Bytes(b"x".to_vec())]),
        ),
    ]);
    match bencode_strings(&v) {
        JsonValue::Object(members) => {
            assert_eq!(members.len(), 2);
            assert_eq!(members[0].0, "foo");
            assert!(matches!(&members[0].1, JsonValue::String(s) if s == "bar"));
            assert_eq!(members[1].0, "list");
            match &members[1].1 {
                JsonValue::Array(items) => {
                    assert_eq!(items.len(), 2);
                    assert!(matches!(items[0], JsonValue::Number(-52)));
                    assert!(matches!(&items[1], JsonValue::String(s) if s == "x"));
                }
                other => panic!("unexpected {:?}", other),
            }
        }
        other => panic!("unexpected {:?}", other),
    }
}

#[test]
fn invalid_utf8_is_replaced() {
    match bencode_strings(&BencodeValue::Bytes(vec![b'a', 0xff, b'b'])) {
        JsonValue::String(s) => assert_eq!(s, "a\u{FFFD}b"),
        other => panic!("unexpected {:?}", other),
    }
}

#[test]
fn integers_and_empty_containers() {
    assert!(matches!(bencode_strings(&BencodeValue::Int(42)), JsonValue::Number(42)));
    assert!(matches!(bencode_strings(&BencodeValue::List(vec![])), JsonValue::Array(v) if v.is_empty()));
    assert!(matches!(bencode_strings(&BencodeValue::Dict(vec![])), JsonValue::Object(v) if v.is_empty()));
}

#[test]
fn decode_text_to_pretty_json() {
    assert_eq!(decode_to_text("5:hello").unwrap(), "\"hello\"");
    assert_eq!(decode_to_text("i-52e").unwrap(), "-52");
    assert_eq!(decode_to_text("l5:helloi52ee").unwrap(), "[\n  \"hello\",\n  52\n]");
    assert_eq!(
        decode_to_text("d3:foo3:bar5:helloi52ee").unwrap(),
        "{\n  \"foo\": \"bar\",\n  \"hello\": 52\n}"
    );
}

#[test]
fn decode_rejects_invalid_bencode() {
    assert!(decode_to_text("5:hi").is_none());
    assert!(decode_to_text("i52").is_none());
    assert!(decode_to_json("x").is_none());
    match decode_to_json("li1ei2ee") {
        Some(JsonValue::Array(items)) => assert_eq!(items.len(), 2),
        other => panic!("unexpected {:?}", other),
    }
}
