use base64::Engine;
use myswitch::jwt::{identity_from_claims, payload_segment, TokenClaims, TokenError};
use myswitch::{decode_jwt_payload, extract_info_from_auth, CodexAuthFile, CodexTokens};

fn url_safe(bytes: &[u8]) -> String {
    base64::engine::general_purpose::URL_SAFE_NO_PAD.encode(bytes)
}

fn auth_with_id_token(id_token: String) -> CodexAuthFile {
    CodexAuthFile {
        openai_api_key: None,
        last_refresh: "2025-01-01T00:00:00Z".to_string(),
        tokens: CodexTokens {
            access_token: "at".to_string(),
            account_id: "acct-1".to_string(),
            id_token,
            refresh_token: "rt".to_string(),
        },
    }
}

#[test]
fn payload_round_trips_through_reencoding() {
    for payload in [&b"{}"[..], b"{\"a\":1}", b"{\"email\":\"x@y.z\",\"n\":12345}", b"?>?>?>"] {
        let seg = url_safe(payload);
        let token = format!("h.{}.s", seg);
        let std = payload_segment(&token).ok().unwrap();
        let bytes = base64::engine::general_purpose::STANDARD.decode(&std).unwrap();
        assert_eq!(bytes, payload);
        assert_eq!(url_safe(&bytes), seg);
    }
}

#[test]
fn payload_segment_converts_alphabet_and_pads() {
    assert_eq!(payload_segment("a.-_x.b").ok(), Some("+/x=".to_string()));
    assert_eq!(payload_segment("a.abcd.b").ok(), Some("abcd".to_string()));
    assert_eq!(payload_segment("a.ab.b").ok(), Some("ab==".to_string()));
    assert_eq!(payload_segment("..").ok(), Some(String::new()));
}

#[test]
fn payload_segment_rejects_wrong_dot_count() {
    for t in ["", "abc", "a.b", "a.b.c.d", "....", "a..b.c"] {
        assert_eq!(payload_segment(t).err(), Some(TokenError::MalformedToken));
        assert!(decode_jwt_payload(t).is_none());
    }
}

#[test]
fn payload_segment_rejects_impossible_length() {
    assert_eq!(payload_segment("a.abcde.b").err(), Some(TokenError::MalformedToken));
    assert_eq!(payload_segment("a.x.b").err(), Some(TokenError::MalformedToken));
}

#[test]
fn decode_reads_json_payload() {
    let token = format!("h.{}.s", url_safe(b"{\"email\":\"a@b.c\"}"));
    let bytes = decode_jwt_payload(&token).unwrap();
    assert_eq!(bytes, b"{\"email\":\"a@b.c\"}".to_vec());
    let v: serde_json::Value = serde_json::from_slice(&bytes).unwrap();
    assert_eq!(v["email"], "a@b.c");
}

#[test]
fn decode_rejects_non_json_payload() {
    let token = format!("h.{}.s", url_safe(b"not json"));
    assert!(decode_jwt_payload(&token).is_none());
    assert!(decode_jwt_payload("h.!!!!.s").is_none());
}

#[test]
fn identity_from_token_claims() {
    let payload = b"{\"email\":\"dev@example.com\",\"exp\":1700000000,\"https://api.openai.com/auth\":{\"chatgpt_plan_type\":\"plus\",\"chatgpt_subscription_active_until\":\"2026-01-01\"}}";
    let auth = auth_with_id_token(format!("h.{}.s", url_safe(payload)));
    let (email, plan, end, exp) = extract_info_from_auth(&auth);
    assert_eq!(email, "dev@example.com");
    assert_eq!(plan, "plus");
    assert_eq!(end.as_deref(), Some("2026-01-01"));
    assert_eq!(exp, Some(1700000000));
}

#[test]
fn identity_with_missing_claims() {
    let auth = auth_with_id_token(format!("h.{}.s", url_safe(b"{\"exp\":\"soon\"}")));
    let (email, plan, end, exp) = extract_info_from_auth(&auth);
    assert_eq!((email.as_str(), plan.as_str(), end, exp), ("未知", "unknown", None, None));
}

#[test]
fn identity_of_unreadable_token() {
    let auth = auth_with_id_token("garbage".to_string());
    let (email, plan, end, exp) = extract_info_from_auth(&auth);
    assert_eq!((email.as_str(), plan.as_str(), end, exp), ("未知", "unknown", None, None));
}

#[test]
fn identity_from_given_claims() {
    let c = TokenClaims { email: None, expires_at: Some(5), plan_type: Some("pro".to_string()), subscription_end: None };
    let (email, plan, end, exp) = identity_from_claims(c);
    assert_eq!((email.as_str(), plan.as_str(), end, exp), ("未知", "pro", None, Some(5)));
}

#[test]
fn identity_claims_of_wrong_kinds() {
    let payload = b"{\"email\":7,\"exp\":12.5,\"https://api.openai.com/auth\":[\"plus\"]}";
    let auth = auth_with_id_token(format!("h.{}.s", url_safe(payload)));
    let (email, plan, end, exp) = extract_info_from_auth(&auth);
    assert_eq!((email.as_str(), plan.as_str(), end, exp), ("未知", "unknown", None, None));
}

#[test]
fn decode_returns_the_payload_bytes() {
    let payload = b"[1,2,3]";
    let token = format!("x.{}.y", url_safe(payload));
    assert_eq!(decode_jwt_payload(&token), Some(payload.to_vec()));
}
