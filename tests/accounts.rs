use base64::Engine;
use myswitch::accounts::{
    account_file_stem, account_info, prompt_document, skill_document, usage_failure, usage_headers, usage_urls,
    usage_window_minutes,
};
use myswitch::{CodexAuthFile, CodexTokens};

fn auth(id_token: String) -> CodexAuthFile {
    CodexAuthFile {
        openai_api_key: None,
        last_refresh: "t0".to_string(),
        tokens: CodexTokens {
            access_token: "a".to_string(),
            account_id: "acct-9".to_string(),
            id_token,
            refresh_token: "r".to_string(),
        },
    }
}

#[test]
fn account_entry_of_a_credential_file() {
    let payload = base64::engine::general_purpose::URL_SAFE_NO_PAD.encode(b"{\"email\":\"me@x.io\"}");
    let a = auth(format!("h.{}.s", payload));
    let info = account_info(&a, "work".to_string(), "/acc/work.json".to_string(), &Some("acct-9".to_string()));
    assert_eq!(info.id, "acct-9");
    assert_eq!(info.email, "me@x.io");
    assert_eq!(info.plan_type, "unknown");
    assert!(info.is_active);
    assert_eq!(info.file_path, "/acc/work.json");
    assert_eq!(info.last_refresh, "t0");
    let other = account_info(&a, "work".to_string(), "p".to_string(), &Some("acct-1".to_string()));
    assert!(!other.is_active);
    assert!(!account_info(&a, "w".to_string(), "p".to_string(), &None).is_active);
}

#[test]
fn new_account_file_names() {
    assert_eq!(account_file_stem("  home ", "me@x.io", 7), "home");
    assert_eq!(account_file_stem("   ", "me@x.io", 7), "me@x.io");
    assert_eq!(account_file_stem("", "未知", 1700000000), "account_1700000000");
    assert_eq!(account_file_stem("", "未知", 0), "account_0");
}

#[test]
fn new_prompt_and_skill_texts() {
    assert_eq!(prompt_document("Explain code", "Body"), "---\ndescription: Explain code\n---\n\nBody");
    let s = skill_document("lint", "Runs the linter");
    assert!(s.starts_with("---\nname: lint\ndescription: Runs the linter\n---\n\n# lint\n\n## When to Use\n"));
    assert!(s.ends_with("## Workflow\n1. \n"));
}

#[test]
fn window_minutes_round_up() {
    assert_eq!(usage_window_minutes(0), 0);
    assert_eq!(usage_window_minutes(1), 1);
    assert_eq!(usage_window_minutes(60), 1);
    assert_eq!(usage_window_minutes(61), 2);
    assert_eq!(usage_window_minutes(18000), 300);
    assert_eq!(usage_window_minutes(-120), -1);
}

#[test]
fn usage_query_parts() {
    let urls = usage_urls();
    assert_eq!(urls.len(), 4);
    assert_eq!(urls[0], "https://chatgpt.com/backend-api/wham/usage");
    let h = usage_headers("tok", "acct");
    assert_eq!(h[0], ("Authorization".to_string(), "Bearer tok".to_string()));
    assert_eq!(h[3], ("ChatGPT-Account-Id".to_string(), "acct".to_string()));
    assert_eq!(usage_headers("tok", "").len(), 3);
    assert_eq!(usage_failure("Status: 403"), "所有 API 请求失败。最后尝试错误: Status: 403");
}
