use todo_auth::hex::{from_hex, to_hex, u64_from_hex, u64_to_hex};
use todo_auth::token_utils::{decode_token, generate_token, is_auth_header_valid};

#[test]
fn hex_roundtrip_bytes() {
    let data: Vec<u8> = vec![0x00, 0x01, 0x7f, 0x80, 0xab, 0xcd, 0xef, 0xff];
    let encoded = to_hex(data.as_slice());
    assert_eq!(encoded, "00017f80abcdefff");
    let decoded = from_hex(encoded.as_str()).expect("hex of bytes must decode");
    assert_eq!(decoded, data);
}

#[test]
fn hex_roundtrip_empty() {
    let data: Vec<u8> = vec![];
    let encoded = to_hex(data.as_slice());
    assert_eq!(encoded, "");
    let decoded = from_hex("").expect("empty string decodes to no bytes");
    assert!(decoded.is_empty());
}

#[test]
fn token_roundtrip_empty_subject() {
    // an empty subject leaves the first field empty: the token starts with
    // its separator, and still round-trips
    let secret = b"test-signing-key";
    let token = generate_token(secret, "", "m", 1, 10);
    assert!(token.starts_with('.'));
    let claims = decode_token(secret, token.as_str(), 5).expect("empty subject survives");
    assert!(claims.user.is_empty());
    assert_eq!(claims.login_session, b"m".to_vec());
}

#[test]
fn hex_rejects_odd_length() {
    assert!(from_hex("abc").is_none());
}

#[test]
fn hex_rejects_bad_digit() {
    assert!(from_hex("zz").is_none());
    assert!(from_hex("aG").is_none());
    assert!(from_hex("AB").is_none(), "upper-case digits are not produced, so not accepted");
}

#[test]
fn u64_hex_roundtrip() {
    for x in [0u64, 1, 255, 256, 1699999999, u64::MAX] {
        let encoded = u64_to_hex(x);
        assert_eq!(encoded.len(), 16);
        assert_eq!(u64_from_hex(encoded.as_str()), Some(x));
    }
    assert_eq!(u64_to_hex(0), "0000000000000000");
    assert_eq!(u64_to_hex(0x0123456789abcdef), "0123456789abcdef");
}

#[test]
fn u64_hex_rejects_wrong_width() {
    assert!(u64_from_hex("ff").is_none());
    assert!(u64_from_hex("00000000000000ff00").is_none());
}

#[test]
fn token_roundtrip() {
    let secret = b"test-signing-key";
    let token = generate_token(secret, "alice", "marker-123", 1000, 2000);
    let claims = decode_token(secret, token.as_str(), 1500).expect("fresh token must decode");
    assert_eq!(claims.user, b"alice".to_vec());
    assert_eq!(claims.login_session, b"marker-123".to_vec());
    assert_eq!(claims.iat, 1000);
    assert_eq!(claims.exp, 2000);
}

#[test]
fn token_roundtrip_unicode_subject() {
    let secret = b"test-signing-key";
    let token = generate_token(secret, "ålice çédille", "märker", 1, 10);
    let claims = decode_token(secret, token.as_str(), 5).expect("unicode claims survive");
    assert_eq!(claims.user, "ålice çédille".as_bytes().to_vec());
    assert_eq!(claims.login_session, "märker".as_bytes().to_vec());
}

#[test]
fn expired_token_rejected() {
    let secret = b"test-signing-key";
    let token = generate_token(secret, "alice", "marker-123", 1000, 2000);
    assert!(decode_token(secret, token.as_str(), 2000).is_none(), "expiry instant is expired");
    assert!(decode_token(secret, token.as_str(), 3000).is_none());
    assert!(decode_token(secret, token.as_str(), 1999).is_some());
}

#[test]
fn tampered_signature_rejected() {
    let secret = b"test-signing-key";
    let token = generate_token(secret, "alice", "marker-123", 1000, 2000);
    let dot = token.rfind('.').expect("token has a signature field");
    // flip each signature character in turn; no variant may decode
    for i in dot + 1..token.len() {
        let mut bytes = token.clone().into_bytes();
        bytes[i] = if bytes[i] == b'A' { b'B' } else { b'A' };
        let tampered = String::from_utf8(bytes).unwrap();
        if tampered == token {
            continue;
        }
        assert!(
            decode_token(secret, tampered.as_str(), 1500).is_none(),
            "tampered signature byte {} accepted",
            i
        );
    }
}

#[test]
fn tampered_claims_rejected() {
    let secret = b"test-signing-key";
    let token = generate_token(secret, "alice", "marker-123", 1000, 2000);
    // flip one hex digit of the subject field
    let mut bytes = token.clone().into_bytes();
    bytes[0] = if bytes[0] == b'0' { b'1' } else { b'0' };
    let tampered = String::from_utf8(bytes).unwrap();
    assert!(decode_token(secret, tampered.as_str(), 1500).is_none());
}

#[test]
fn wrong_key_rejected() {
    let secret = b"test-signing-key";
    let token = generate_token(secret, "alice", "marker-123", 1000, 2000);
    assert!(decode_token(b"other-key", token.as_str(), 1500).is_none());
}

#[test]
fn garbage_tokens_rejected() {
    let secret = b"test-signing-key";
    for junk in ["", "....", "abc", "a.b.c.d.e", "deadbeef", "..deadbeef.."] {
        assert!(decode_token(secret, junk, 0).is_none(), "junk {:?} accepted", junk);
    }
}

#[test]
fn bearer_scheme_case_insensitive() {
    assert!(is_auth_header_valid("Bearer abc"));
    assert!(is_auth_header_valid("bearer abc"));
    assert!(is_auth_header_valid("BEARER abc"));
    assert!(is_auth_header_valid("BeArEr abc"));
    assert!(!is_auth_header_valid("Token abc"));
    assert!(!is_auth_header_valid("Bear"));
}
