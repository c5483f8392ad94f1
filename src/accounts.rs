//! What the account list shows of a credential file, and the names and texts that new
//! accounts, prompts and skills get.

use vstd::prelude::*;
use crate::jwt::{extract_info_from_auth, token_identity, unknown_email};
use crate::model::{AccountInfo, CodexAuthFile};
use crate::text::{chars_of, decimal, decimal_text, push_text, same_chars, string_of, trim_text, trimmed};

verus! {

/// Whether the account of `auth` is the one in use, given the account id in use.
pub open spec fn is_active_account(auth: CodexAuthFile, active: Option<String>) -> bool {
    match active {
        Some(a) => a@ == auth.tokens.account_id@,
        None => false,
    }
}

/// The list entry of the credential file `auth`, stored as `file_path` under the name
/// `name`, when the account in use has the id `active`.
pub fn account_info(auth: &CodexAuthFile, name: String, file_path: String, active: &Option<String>) -> (r: AccountInfo)
    ensures
        r.id@ == auth.tokens.account_id@,
        r.name@ == name@,
        r.file_path@ == file_path@,
        r.last_refresh@ == auth.last_refresh@,
        r.is_active == is_active_account(*auth, *active),
        token_identity(auth.tokens.id_token@, (r.email, r.plan_type, r.subscription_end, r.expires_at)),
{
    let (email, plan_type, subscription_end, expires_at) = extract_info_from_auth(auth);
    let is_active = match active {
        Some(a) => *a == auth.tokens.account_id,
        None => false,
    };
    AccountInfo {
        id: auth.tokens.account_id.clone(),
        name,
        email,
        plan_type,
        subscription_end,
        is_active,
        file_path,
        expires_at,
        last_refresh: auth.last_refresh.clone(),
    }
}

/// The file name, without extension, that a new account is saved under: the given name
/// trimmed, else the account's email if the token names one, else `account_` and the time.
pub open spec fn account_stem(name: Seq<char>, email: Seq<char>, now_secs: nat) -> Seq<char> {
    if trimmed(name).len() > 0 {
        trimmed(name)
    } else if email != unknown_email() {
        email
    } else {
        "account_"@ + decimal(now_secs)
    }
}

/// The file name, without extension, for a new account named `name` whose token shows
/// `email`, saved at `now_secs` seconds after the epoch.
pub fn account_file_stem(name: &str, email: &str, now_secs: u64) -> (r: String)
    ensures
        r@ == account_stem(name@, email@, now_secs as nat),
{
    let t = trim_text(name);
    if !t.is_empty() {
        return t.to_owned();
    }
    let e = chars_of(email);
    let unknown = chars_of("未知");
    if !same_chars(e.as_slice(), unknown.as_slice()) {
        return email.to_owned();
    }
    let mut out: Vec<char> = Vec::new();
    push_text(&mut out, "account_");
    let mut d = decimal_text(now_secs);
    out.append(&mut d);
    string_of(out.as_slice())
}

/// The text of a new prompt: front matter with its description, then its content.
pub open spec fn prompt_text(description: Seq<char>, content: Seq<char>) -> Seq<char> {
    "---\ndescription: "@ + description + "\n---\n\n"@ + content
}

/// The text of a new prompt file.
pub fn prompt_document(description: &str, content: &str) -> (r: String)
    ensures
        r@ == prompt_text(description@, content@),
{
    let mut out: Vec<char> = Vec::new();
    push_text(&mut out, "---\ndescription: ");
    push_text(&mut out, description);
    push_text(&mut out, "\n---\n\n");
    push_text(&mut out, content);
    string_of(out.as_slice())
}

/// The text of a new skill's `SKILL.md`: front matter with its name and description, then
/// an outline to fill in.
pub open spec fn skill_text(name: Seq<char>, description: Seq<char>) -> Seq<char> {
    "---\nname: "@ + name + "\ndescription: "@ + description + "\n---\n\n# "@ + name
        + "\n\n## When to Use\n- \n\n## When NOT to Use\n- \n\n## Workflow\n1. \n"@
}

/// The text of a new skill's `SKILL.md`.
pub fn skill_document(name: &str, description: &str) -> (r: String)
    ensures
        r@ == skill_text(name@, description@),
{
    let mut out: Vec<char> = Vec::new();
    push_text(&mut out, "---\nname: ");
    push_text(&mut out, name);
    push_text(&mut out, "\ndescription: ");
    push_text(&mut out, description);
    push_text(&mut out, "\n---\n\n# ");
    push_text(&mut out, name);
    push_text(&mut out, "\n\n## When to Use\n- \n\n## When NOT to Use\n- \n\n## Workflow\n1. \n");
    string_of(out.as_slice())
}

/// The length in minutes, rounded up, of a rate-limit window of `seconds` seconds.
pub open spec fn window_minutes(seconds: int) -> int {
    let n = seconds + 59;
    if n >= 0 {
        n / 60
    } else {
        -((-n) / 60)
    }
}

/// The length in minutes of a rate-limit window given in seconds.
pub fn usage_window_minutes(seconds: i32) -> (r: i64)
    ensures
        r == window_minutes(seconds as int),
{
    let n: i64 = seconds as i64 + 59;
    if n >= 0 {
        n / 60
    } else {
        -((-n) / 60)
    }
}

/// The endpoints asked for an account's usage, in the order they are tried.
pub fn usage_urls() -> (r: Vec<String>)
    ensures
        r@.len() == 4,
        r@[0]@ == "https://chatgpt.com/backend-api/wham/usage"@,
        r@[1]@ == "https://api.openai.com/backend-api/wham/usage"@,
        r@[2]@ == "https://api.openai.com/api/codex/usage"@,
        r@[3]@ == "https://chat.openai.com/backend-api/wham/usage"@,
{
    vec![
        "https://chatgpt.com/backend-api/wham/usage".to_owned(),
        "https://api.openai.com/backend-api/wham/usage".to_owned(),
        "https://api.openai.com/api/codex/usage".to_owned(),
        "https://chat.openai.com/backend-api/wham/usage".to_owned(),
    ]
}

/// The headers of a usage query: the bearer token, a browser's user agent and origin, and
/// the account id where the credential file has one.
pub fn usage_headers(access_token: &str, account_id: &str) -> (r: Vec<(String, String)>)
    ensures
        r@.len() == (if account_id@.len() > 0 { 4int } else { 3int }),
        r@[0].0@ == "Authorization"@,
        r@[0].1@ == "Bearer "@ + access_token@,
        account_id@.len() > 0 ==> r@[3].0@ == "ChatGPT-Account-Id"@ && r@[3].1@ == account_id@,
{
    let mut bearer = chars_of("Bearer ");
    push_text(&mut bearer, access_token);
    let mut r: Vec<(String, String)> = vec![
        ("Authorization".to_owned(), string_of(bearer.as_slice())),
        (
            "User-Agent".to_owned(),
            "Mozilla/5.0 (Windows NT 10.0; Win64; x64) AppleWebKit/537.36 (KHTML, like Gecko) Chrome/120.0.0.0 Safari/537.36".to_owned(),
        ),
        ("Origin".to_owned(), "https://chatgpt.com".to_owned()),
    ];
    if !account_id.is_empty() {
        r.push(("ChatGPT-Account-Id".to_owned(), account_id.to_owned()));
    }
    r
}

/// The message when no usage endpoint answered with success.
pub fn usage_failure(last_error: &str) -> (r: String)
    ensures
        r@ == "所有 API 请求失败。最后尝试错误: "@ + last_error@,
{
    let mut out = chars_of("所有 API 请求失败。最后尝试错误: ");
    push_text(&mut out, last_error);
    string_of(out.as_slice())
}

} // verus!
