use base64::Engine;
use hmac::{Hmac, Mac};
use kyc_backend::signature::{
    build_canonical_payload, compute_signature, require_signature, require_signature_at,
    SignatureError, SignatureHeaders, SignatureState,
};
use sha2::Sha256;

fn state(secret: &str, skew: i64, max_body: usize) -> SignatureState {
    SignatureState {
        signature_secret: secret.to_string(),
        max_clock_skew_seconds: skew,
        max_body_bytes: max_body,
    }
}

fn hmac_signature(secret: &str, timestamp: &str, method: &str, path: &str, body: &str) -> String {
    let payload = format!("{}\n{}\n{}\n{}", timestamp, method.to_uppercase(), path, body);
    let mut mac = Hmac::<Sha256>::new_from_slice(secret.as_bytes()).unwrap();
    mac.update(payload.as_bytes());
    base64::engine::general_purpose::URL_SAFE_NO_PAD.encode(mac.finalize().into_bytes())
}

fn headers(signature: Option<&str>, timestamp: Option<&str>) -> SignatureHeaders {
    SignatureHeaders {
        signature: signature.map(|s| s.to_string()),
        timestamp: timestamp.map(|s| s.to_string()),
    }
}

#[test]
fn test_signature_verification_success() {
    let secret = "test-secret";
    let state = state(secret, 60, 1024);
    let timestamp = chrono::Utc::now().timestamp().to_string();
    let body = r#"{"device_id":"dvc_123"}"#;
    let signature = hmac_signature(secret, &timestamp, "POST", "/kc/enroll", body);
    let h = headers(Some(&signature), Some(&timestamp));
    let result = state.verify_signature("POST", "/kc/enroll", &h, body.as_bytes());
    assert!(result.is_ok());
}

#[test]
fn test_signature_verification_invalid_signature() {
    let state = state("test-secret", 60, 1024);
    let timestamp = chrono::Utc::now().timestamp().to_string();
    let body = r#"{"device_id":"dvc_123"}"#;
    let h = headers(Some("invalid-signature"), Some(&timestamp));
    let result = state.verify_signature("POST", "/kc/enroll", &h, body.as_bytes());
    assert!(result.is_err());
}

#[test]
fn test_signature_verification_timestamp_skew() {
    let state = state("test-secret", 60, 1024);
    let timestamp = (chrono::Utc::now().timestamp() - 100).to_string();
    let body = r#"{"device_id":"dvc_123"}"#;
    let h = headers(Some("some-sig"), Some(&timestamp));
    let result = state.verify_signature("POST", "/kc/enroll", &h, body.as_bytes());
    assert!(result.is_err());
    assert!(result.unwrap_err().message().contains("skew"));
}

#[test]
fn signature_bypasses_when_disabled() {
    let state = state("test-secret", 120, 1024);
    let h = headers(None, None);
    let result = require_signature(false, &state, "GET", "/v1/users", &h, b"");
    assert!(result.is_ok());
}

#[test]
fn signature_rejects_when_timestamp_header_is_missing() {
    let state = state("test-secret", 120, 1024);
    let h = headers(Some("any"), None);
    let result = require_signature(true, &state, "GET", "/v1/users", &h, b"");
    assert!(result.is_err());
    assert_eq!(result.unwrap_err().message(), "Missing x-auth-timestamp");
}

#[test]
fn signature_rejects_when_signature_header_is_missing() {
    let state = state("test-secret", 120, 1024);
    let h = headers(None, None);
    let result = require_signature(true, &state, "GET", "/v1/users", &h, b"");
    assert!(result.is_err());
    assert_eq!(result.unwrap_err().message(), "Missing x-auth-signature");
}

#[test]
fn signature_layer_rejects_requests_without_headers() {
    let state = state("test-secret", 120, 1024);
    let h = headers(None, None);
    let result = require_signature(true, &state, "POST", "/v1/users", &h, b"");
    assert_eq!(result, Err(SignatureError::MissingSignature));
}

#[test]
fn signature_accepts_valid_signature() {
    let state = state("test-secret", 120, 1024);
    let timestamp = chrono::Utc::now().timestamp().to_string();
    let body = "{\"hello\":\"world\"}";
    let signature = hmac_signature("test-secret", &timestamp, "POST", "/v1/users", body);
    let h = headers(Some(&signature), Some(&timestamp));
    let result = require_signature(true, &state, "POST", "/v1/users", &h, body.as_bytes());
    assert_eq!(result, Ok(()));
}

#[test]
fn canonical_payload_joins_the_parts_with_line_feeds() {
    let payload = build_canonical_payload("1700000000", "post", "/kc/enroll", b"{}");
    assert_eq!(payload, b"1700000000\nPOST\n/kc/enroll\n{}".to_vec());
}

#[test]
fn computed_signature_matches_hmac_sha256_in_base64() {
    let expected = hmac_signature("test-secret", "1700000000", "POST", "/kc/enroll", "{}");
    let computed = compute_signature("test-secret", "1700000000", "POST", "/kc/enroll", b"{}");
    assert_eq!(computed, expected);
    assert_ne!(computed, "test-secret");
    assert_eq!(computed.len(), 43);
}

#[test]
fn skew_window_is_inclusive_on_both_sides() {
    let st = state("k", 60, 1024);
    for (ts, now, ok) in [(1000i64, 1060i64, true), (1000, 1061, false), (1060, 1000, true), (1061, 1000, false)] {
        let t = ts.to_string();
        let sig = hmac_signature("k", &t, "GET", "/", "");
        let h = headers(Some(&sig), Some(&t));
        let r = st.verify_signature_at("GET", "/", &h, b"", now);
        if ok {
            assert_eq!(r, Ok(()));
        } else {
            assert_eq!(r, Err(SignatureError::TimestampSkew));
        }
    }
}

#[test]
fn malformed_timestamp_is_refused() {
    let st = state("k", 60, 1024);
    for t in ["", "abc", "12x", "+", "-", " 12", "99999999999999999999"] {
        let h = headers(Some("sig"), Some(t));
        assert_eq!(st.verify_signature_at("GET", "/", &h, b"", 12), Err(SignatureError::InvalidTimestamp));
    }
    let sig = hmac_signature("k", "+12", "GET", "/", "");
    let h = headers(Some(&sig), Some("+12"));
    assert_eq!(st.verify_signature_at("GET", "/", &h, b"", 12), Ok(()));
    let sig = hmac_signature("k", "-5", "GET", "/", "");
    let h = headers(Some(&sig), Some("-5"));
    assert_eq!(st.verify_signature_at("GET", "/", &h, b"", 0), Ok(()));
}

#[test]
fn signature_over_other_parts_is_refused() {
    let st = state("k", 60, 1024);
    let sig = hmac_signature("k", "100", "POST", "/a", "body");
    let h = headers(Some(&sig), Some("100"));
    assert_eq!(st.verify_signature_at("POST", "/a", &h, b"body", 100), Ok(()));
    assert_eq!(st.verify_signature_at("post", "/a", &h, b"body", 100), Ok(()));
    assert_eq!(st.verify_signature_at("POST", "/b", &h, b"body", 100), Err(SignatureError::InvalidSignature));
    assert_eq!(st.verify_signature_at("POST", "/a", &h, b"bodz", 100), Err(SignatureError::InvalidSignature));
    let other = state("other", 60, 1024);
    assert_eq!(other.verify_signature_at("POST", "/a", &h, b"body", 100), Err(SignatureError::InvalidSignature));
}

#[test]
fn body_over_the_limit_is_refused() {
    let st = state("k", 60, 4);
    let sig = hmac_signature("k", "100", "POST", "/a", "12345");
    let h = headers(Some(&sig), Some("100"));
    assert_eq!(require_signature_at(true, &st, "POST", "/a", &h, b"12345", 100), Err(SignatureError::InvalidBody));
    assert_eq!(require_signature_at(false, &st, "POST", "/a", &h, b"12345", 100), Ok(()));
    let sig = hmac_signature("k", "100", "POST", "/a", "1234");
    let h = headers(Some(&sig), Some("100"));
    assert_eq!(require_signature_at(true, &st, "POST", "/a", &h, b"1234", 100), Ok(()));
}

#[test]
fn every_refusal_has_its_message() {
    assert_eq!(SignatureError::MissingSignature.message(), "Missing x-auth-signature");
    assert_eq!(SignatureError::MissingTimestamp.message(), "Missing x-auth-timestamp");
    assert_eq!(SignatureError::InvalidTimestamp.message(), "Invalid x-auth-timestamp");
    assert!(SignatureError::TimestampSkew.message().contains("skew"));
    assert_eq!(SignatureError::InvalidSignature.message(), "Invalid signature");
    assert_eq!(SignatureError::InvalidBody.message(), "invalid request body");
}

#[test]
fn check_signature_compares_with_the_expected_signature() {
    let st = state("k", 10, 1024);
    let h = headers(Some("abc"), Some("100"));
    assert_eq!(st.check_signature(&h, 105, "abc"), Ok(()));
    assert_eq!(st.check_signature(&h, 105, "abd"), Err(SignatureError::InvalidSignature));
    assert_eq!(st.check_signature(&h, 111, "abc"), Err(SignatureError::TimestampSkew));
    let h = headers(Some("abc"), None);
    assert_eq!(st.check_signature(&h, 105, "abc"), Err(SignatureError::MissingTimestamp));
}
