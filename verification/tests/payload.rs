use mbus::payload::{deregister_payload_bytes, escape_into, register_payload_bytes};
use mbus::registration::{channel_of, Publish, Registration};

fn escaped(input: &[u8]) -> Vec<u8> {
    let mut out = Vec::new();
    escape_into(&input.to_vec(), &mut out);
    out
}

#[test]
fn register_payload_exact_bytes() {
    let r = Registration::new("node-a", "10.0.0.1:10124", None);
    let payload = r.register_payload();
    assert_eq!(
        payload,
        b"{\"id\":\"node-a\",\"grpcEndpoint\":\"10.0.0.1:10124\"}".to_vec()
    );
}

#[test]
fn deregister_payload_exact_bytes() {
    let r = Registration::new("node-a", "10.0.0.1:10124", None);
    assert_eq!(r.deregister_payload(), b"{\"id\":\"node-a\"}".to_vec());
}

#[test]
fn payloads_with_empty_strings() {
    let r = Registration::new("", "", None);
    assert_eq!(
        r.register_payload(),
        b"{\"id\":\"\",\"grpcEndpoint\":\"\"}".to_vec()
    );
    assert_eq!(r.deregister_payload(), b"{\"id\":\"\"}".to_vec());
}

#[test]
fn escape_leaves_ordinary_bytes_alone() {
    assert_eq!(escaped(b"node-a_01.local:80"), b"node-a_01.local:80".to_vec());
    assert_eq!(escaped(b""), Vec::<u8>::new());
}

#[test]
fn escape_quotes_and_backslashes() {
    assert_eq!(escaped(b"a\"b"), b"a\\\"b".to_vec());
    assert_eq!(escaped(b"a\\b"), b"a\\\\b".to_vec());
}

#[test]
fn escape_named_control_characters() {
    assert_eq!(escaped(b"\x08\x09\x0a\x0c\x0d"), b"\\b\\t\\n\\f\\r".to_vec());
}

#[test]
fn escape_other_control_characters_as_hex() {
    assert_eq!(escaped(b"\x00\x01\x1f"), b"\\u0000\\u0001\\u001f".to_vec());
}

#[test]
fn deregister_payload_matches_reference_encoder() {
    // byte-for-byte against serde_json, escapes included
    let ids = [
        "node-a",
        "",
        "with \"quotes\" and \\slashes\\",
        "line\nbreak\ttab\rret",
        "ctrl\u{1}\u{1f}end",
        "unicode: caf\u{e9} \u{2603}",
    ];
    for id in ids {
        let ours = deregister_payload_bytes(&id.as_bytes().to_vec());
        let mut obj = serde_json::Map::new();
        obj.insert("id".to_string(), serde_json::Value::String(id.to_string()));
        let reference = serde_json::to_vec(&serde_json::Value::Object(obj)).unwrap();
        assert_eq!(ours, reference, "id = {:?}", id);
    }
}

#[test]
fn register_payload_parses_back() {
    let node = "no\"de\\x\n\u{1}caf\u{e9}";
    let endpoint = "[::1]:10124";
    let payload = register_payload_bytes(&node.as_bytes().to_vec(), &endpoint.as_bytes().to_vec());
    let v: serde_json::Value = serde_json::from_slice(&payload).unwrap();
    assert_eq!(v["id"].as_str().unwrap(), node);
    assert_eq!(v["grpcEndpoint"].as_str().unwrap(), endpoint);
    assert_eq!(v.as_object().unwrap().len(), 2);
}

#[test]
fn channel_names() {
    assert_eq!(channel_of(Publish::Register), "register");
    assert_eq!(channel_of(Publish::Deregister), "deregister");
}
