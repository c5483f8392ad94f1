use myswitch::refresh::{
    apply_refresh, classify_refresh_failure, read_refresh_reply, refresh_credentials, refresh_failure_message,
    refresh_request_body, RefreshSettings, RefreshedTokens,
};
use myswitch::{CodexAuthFile, CodexTokens};

fn auth() -> CodexAuthFile {
    CodexAuthFile {
        openai_api_key: Some("sk-test".to_string()),
        last_refresh: "2025-01-01T00:00:00Z".to_string(),
        tokens: CodexTokens {
            access_token: "old-access".to_string(),
            account_id: "acct".to_string(),
            id_token: "old-id".to_string(),
            refresh_token: "old-refresh".to_string(),
        },
    }
}

#[test]
fn expired_refresh_token_asks_for_sign_in() {
    let body = "{\"error\":{\"message\":\"Your refresh token has expired.\",\"type\":\"invalid_request_error\",\"code\":\"refresh_token_expired\"}}";
    let r = refresh_credentials(auth(), 401, body);
    assert_eq!(r.err().as_deref(), Some("Refresh Token 已过期，请重新登录 Codex CLI"));
}

#[test]
fn reused_and_invalidated_codes() {
    let reused = "{\"error\":{\"code\":\"refresh_token_reused\"}}";
    assert_eq!(classify_refresh_failure(400, reused), "Refresh Token 已被使用，请重新登录 Codex CLI");
    let revoked = "{\"error\":\"invalid_grant\",\"code\":\"refresh_token_invalidated\"}";
    assert_eq!(classify_refresh_failure(400, revoked), "Refresh Token 已被撤销，请重新登录 Codex CLI");
}

#[test]
fn unknown_failures_keep_status_and_body() {
    assert_eq!(classify_refresh_failure(500, "oops"), "刷新失败: HTTP 500 - oops");
    let other = "{\"error\":{\"code\":\"server_busy\"}}";
    assert_eq!(classify_refresh_failure(503, other), format!("刷新失败: HTTP 503 - {}", other));
    let no_code = "{\"error\":{}}";
    assert_eq!(classify_refresh_failure(400, no_code), format!("刷新失败: HTTP 400 - {}", no_code));
    assert_eq!(refresh_failure_message(418, "b", None), "刷新失败: HTTP 418 - b");
}

#[test]
fn granted_refresh_rotates_sent_tokens() {
    let body = "{\"access_token\":\"new-access\",\"id_token\":null,\"refresh_token\":\"new-refresh\"}";
    let a = refresh_credentials(auth(), 200, body).ok().unwrap();
    assert_eq!(a.tokens.access_token, "new-access");
    assert_eq!(a.tokens.id_token, "old-id");
    assert_eq!(a.tokens.refresh_token, "new-refresh");
    assert_eq!(a.tokens.account_id, "acct");
    assert_eq!(a.openai_api_key.as_deref(), Some("sk-test"));
    assert_ne!(a.last_refresh, "2025-01-01T00:00:00Z");
    assert!(a.last_refresh.len() >= 20);
}

#[test]
fn unreadable_grant_is_a_failure() {
    assert!(refresh_credentials(auth(), 200, "not json").is_err());
    assert!(read_refresh_reply("{\"access_token\":5}").is_none());
    let t = read_refresh_reply("{}").unwrap();
    assert!(t.access_token.is_none() && t.id_token.is_none() && t.refresh_token.is_none());
}

#[test]
fn apply_refresh_keeps_absent_tokens() {
    let t = RefreshedTokens { access_token: None, id_token: Some("i2".to_string()), refresh_token: None };
    let a = apply_refresh(auth(), t, "2026-10-18T00:00:00+00:00".to_string());
    assert_eq!(a.tokens.access_token, "old-access");
    assert_eq!(a.tokens.id_token, "i2");
    assert_eq!(a.last_refresh, "2026-10-18T00:00:00+00:00");
}

#[test]
fn grant_request_body() {
    let s = RefreshSettings::default();
    let body = refresh_request_body(&s, "r\"t");
    assert_eq!(
        body,
        "{\"client_id\":\"app_EMoamEEZ73f0CkXaXp7hrann\",\"grant_type\":\"refresh_token\",\"refresh_token\":\"r\\\"t\",\"scope\":\"openid profile email\"}"
    );
    let v: serde_json::Value = serde_json::from_str(&body).unwrap();
    assert_eq!(v["refresh_token"], "r\"t");
    assert_eq!(s.token_url, "https://auth.openai.com/oauth/token");
}

#[test]
fn error_code_lookup_order() {
    let top_code = "{\"error\":\"invalid_grant\",\"code\":\"refresh_token_expired\"}";
    assert_eq!(classify_refresh_failure(400, top_code), "Refresh Token 已过期，请重新登录 Codex CLI");
    let inner_wins = "{\"error\":{\"code\":\"refresh_token_reused\"},\"code\":\"refresh_token_expired\"}";
    assert_eq!(classify_refresh_failure(400, inner_wins), "Refresh Token 已被使用，请重新登录 Codex CLI");
    let inner_not_text = "{\"error\":{\"code\":5},\"code\":\"refresh_token_expired\"}";
    assert_eq!(classify_refresh_failure(400, inner_not_text), format!("刷新失败: HTTP 400 - {}", inner_not_text));
    let no_error = "{\"code\":\"refresh_token_expired\"}";
    assert_eq!(classify_refresh_failure(400, no_error), format!("刷新失败: HTTP 400 - {}", no_error));
}
