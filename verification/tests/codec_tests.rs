use cfc_relay::codec::{decode_submission, encode_submission};
use cfc_relay::submission::SenateCFCModal;

fn modal(handle: Option<&str>, party: &str, cfc: &str) -> SenateCFCModal {
    SenateCFCModal {
        reddit_user: handle.map(|h| h.to_string()),
        party: party.to_string(),
        cfc: cfc.to_string(),
    }
}

fn assert_round_trip(handle: Option<&str>, party: &str, cfc: &str) {
    let m = modal(handle, party, cfc);
    let bytes = encode_submission(&m);
    let back = decode_submission(&bytes).expect("a fresh encoding must decode");
    assert_eq!(back.reddit_user, m.reddit_user);
    assert_eq!(back.party, m.party);
    assert_eq!(back.cfc, m.cfc);
}

#[test]
fn round_trip_full() {
    assert_round_trip(Some("u/alice"), "Reform", "I will serve.");
}

#[test]
fn round_trip_no_handle() {
    assert_round_trip(None, "Reform", "Updated platform.");
}

#[test]
fn round_trip_empty_handle_string() {
    assert_round_trip(Some(""), "p", "c");
}

#[test]
fn round_trip_all_empty() {
    assert_round_trip(None, "", "");
    assert_round_trip(Some(""), "", "");
}

#[test]
fn round_trip_unicode() {
    assert_round_trip(Some("u/ärzte"), "Ω-party", "声明 \u{1F600} end");
}

#[test]
fn encoding_distinguishes_missing_and_empty_handle() {
    let a = encode_submission(&modal(None, "p", "c"));
    let b = encode_submission(&modal(Some(""), "p", "c"));
    assert_ne!(a, b);
}

#[test]
fn decode_rejects_empty_bytes() {
    assert!(decode_submission(&Vec::new()).is_none());
}

#[test]
fn decode_rejects_bad_tag() {
    assert!(decode_submission(&vec![7u8]).is_none());
}

#[test]
fn decode_rejects_truncated() {
    let m = modal(Some("u/alice"), "Reform", "statement");
    let mut bytes = encode_submission(&m);
    bytes.pop();
    assert!(decode_submission(&bytes).is_none());
}

#[test]
fn decode_rejects_trailing_bytes() {
    let m = modal(Some("u/alice"), "Reform", "statement");
    let mut bytes = encode_submission(&m);
    bytes.push(0u8);
    assert!(decode_submission(&bytes).is_none());
}

#[test]
fn decode_rejects_surrogate_scalar() {
    // tag 0, party of one character whose scalar value is a surrogate, empty cfc
    let mut bytes = vec![0u8];
    bytes.extend_from_slice(&1u64.to_le_bytes());
    bytes.extend_from_slice(&0xD800u32.to_le_bytes());
    bytes.extend_from_slice(&0u64.to_le_bytes());
    assert!(decode_submission(&bytes).is_none());
}

#[test]
fn encoding_layout_is_fixed() {
    // tag byte, then per field: 8-byte little-endian length, 4 bytes per character
    let bytes = encode_submission(&modal(Some("ab"), "c", ""));
    let mut expected = vec![1u8];
    expected.extend_from_slice(&2u64.to_le_bytes());
    expected.extend_from_slice(&(u32::from('a')).to_le_bytes());
    expected.extend_from_slice(&(u32::from('b')).to_le_bytes());
    expected.extend_from_slice(&1u64.to_le_bytes());
    expected.extend_from_slice(&(u32::from('c')).to_le_bytes());
    expected.extend_from_slice(&0u64.to_le_bytes());
    assert_eq!(bytes, expected);
}
