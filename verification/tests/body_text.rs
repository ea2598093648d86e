//! Bodies and text helpers: the JSON object codec, form decoding with
//! percent sequences, content sniffing, and the decimal codec.

use oauth_engine::body::{Body, body_decode};
use oauth_engine::text::{parse_u64, u64_to_dec};
use oauth_engine::tools::clear_quotes;

fn decode(s: &str) -> Option<Body> {
    let v: Vec<char> = s.chars().collect();
    body_decode(&v)
}

#[test]
fn body_json_round_trip() {
    let mut b = Body::new();
    b.set("access_token", "abc123");
    b.set("token_type", "Bearer");
    assert_eq!(b.to_json(), "{\"access_token\":\"abc123\",\"token_type\":\"Bearer\"}");
    let back = decode(&b.to_json()).unwrap();
    assert_eq!(back.get("access_token"), Some("abc123".to_string()));
    assert_eq!(back.get("token_type"), Some("Bearer".to_string()));
    assert_eq!(back.len(), 2);
}

#[test]
fn body_json_escapes_round_trip() {
    let mut b = Body::new();
    b.set("note", "a \"quoted\" value with \\ and \n and \t");
    let text = b.to_json();
    let back = decode(&text).unwrap();
    assert_eq!(
        back.get("note"),
        Some("a \"quoted\" value with \\ and \n and \t".to_string())
    );
}

#[test]
fn body_empty_text_is_empty_object() {
    let b = decode("").unwrap();
    assert_eq!(b.len(), 0);
}

#[test]
fn body_empty_object_round_trip() {
    let b = Body::new();
    assert_eq!(b.to_json(), "{}");
    let back = decode("{}").unwrap();
    assert_eq!(back.len(), 0);
}

#[test]
fn body_bad_json_is_rejected() {
    assert!(decode("{\"a\":\"b\"").is_none());
    assert!(decode("not json at all").is_none());
    assert!(decode("{\"a\":1}").is_none());
    assert!(decode("[\"a\"]").is_none());
}

#[test]
fn body_duplicate_keys_last_wins() {
    let back = decode("{\"a\":\"1\",\"b\":\"x\",\"a\":\"2\"}").unwrap();
    assert_eq!(back.get("a"), Some("2".to_string()));
    assert_eq!(back.len(), 2);
}

#[test]
fn body_form_decoding() {
    let back = decode("grant_type=password&client_id=my+client&note=100%21").unwrap();
    assert_eq!(back.get("grant_type"), Some("password".to_string()));
    assert_eq!(back.get("client_id"), Some("my client".to_string()));
    assert_eq!(back.get("note"), Some("100!".to_string()));
}

#[test]
fn body_form_needs_both_markers() {
    // An equals sign alone is still JSON territory, so this is rejected
    // as JSON rather than read as form data.
    assert!(decode("a=b").is_none());
    // Both markers present: form data.
    let back = decode("a=b&c=d").unwrap();
    assert_eq!(back.get("a"), Some("b".to_string()));
    assert_eq!(back.get("c"), Some("d".to_string()));
}

#[test]
fn body_form_edge_pieces() {
    let back = decode("a=1&&b=2&novalue&x=").unwrap();
    assert_eq!(back.get("a"), Some("1".to_string()));
    assert_eq!(back.get("b"), Some("2".to_string()));
    assert_eq!(back.get("novalue"), Some("".to_string()));
    assert_eq!(back.get("x"), Some("".to_string()));
}

#[test]
fn decimal_round_trip() {
    for n in [0u64, 1, 9, 10, 29, 30, 12345, u64::MAX] {
        let s = u64_to_dec(n);
        let v: Vec<char> = s.chars().collect();
        assert_eq!(parse_u64(&v), Some(n));
    }
    assert_eq!(u64_to_dec(30), "30");
    assert_eq!(u64_to_dec(0), "0");
}

#[test]
fn decimal_rejects_bad_numerals() {
    let cases = ["", "x", "12x", "-1", "18446744073709551616"];
    for c in cases {
        let v: Vec<char> = c.chars().collect();
        assert_eq!(parse_u64(&v), None);
    }
    let max: Vec<char> = "18446744073709551615".chars().collect();
    assert_eq!(parse_u64(&max), Some(u64::MAX));
}

#[test]
fn clear_quotes_strips_one_pair() {
    assert_eq!(clear_quotes(&"\"abc\"".to_string()), "abc");
    assert_eq!(clear_quotes(&"abc".to_string()), "abc");
    assert_eq!(clear_quotes(&"\"abc".to_string()), "\"abc");
    assert_eq!(clear_quotes(&"\"".to_string()), "\"");
    assert_eq!(clear_quotes(&"\"\"".to_string()), "");
}
