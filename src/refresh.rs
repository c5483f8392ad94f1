//! The OAuth refresh-token grant: the request, what the provider's reply means, and the
//! credential record that a granted refresh leaves. Sending the request and writing the
//! file are left to the caller, which writes only a granted record.

use vstd::prelude::*;
use vstd::utf8::encode_utf8;
use crate::jwt::opt_text;
use crate::json::{
    json_accepts, json_is_document, json_null, json_null_at, json_present, json_present_at, json_quoted, json_text,
    json_text_at, quote_json,
};
use crate::model::{CodexAuthFile, CodexTokens};
use crate::text::{chars_of, decimal, decimal_text, push_text, same_chars, string_of};
use crate::webdav::is_success;

verus! {

/// Where and as whom the refresh is asked for.
pub struct RefreshSettings {
    pub client_id: String,
    pub token_url: String,
    pub scope: String,
}

impl Default for RefreshSettings {
    /// The identity provider and public client identifier of the command-line tool.
    fn default() -> (r: Self)
        ensures
            r.client_id@ == "app_EMoamEEZ73f0CkXaXp7hrann"@,
            r.token_url@ == "https://auth.openai.com/oauth/token"@,
            r.scope@ == "openid profile email"@,
    {
        RefreshSettings {
            client_id: "app_EMoamEEZ73f0CkXaXp7hrann".to_owned(),
            token_url: "https://auth.openai.com/oauth/token".to_owned(),
            scope: "openid profile email".to_owned(),
        }
    }
}

/// The JSON body of a refresh-token grant.
pub open spec fn grant_body(client_id: Seq<char>, refresh_token: Seq<char>, scope: Seq<char>) -> Seq<char> {
    "{\"client_id\":"@ + json_quoted(client_id) + ",\"grant_type\":\"refresh_token\",\"refresh_token\":"@
        + json_quoted(refresh_token) + ",\"scope\":"@ + json_quoted(scope) + "}"@
}

/// The JSON body that asks for new tokens with `refresh_token`.
pub fn refresh_request_body(settings: &RefreshSettings, refresh_token: &str) -> (r: String)
    ensures
        r@ == grant_body(settings.client_id@, refresh_token@, settings.scope@),
{
    let mut out: Vec<char> = Vec::new();
    push_text(&mut out, "{\"client_id\":");
    push_text(&mut out, quote_json(settings.client_id.as_str()).as_str());
    push_text(&mut out, ",\"grant_type\":\"refresh_token\",\"refresh_token\":");
    push_text(&mut out, quote_json(refresh_token).as_str());
    push_text(&mut out, ",\"scope\":");
    push_text(&mut out, quote_json(settings.scope.as_str()).as_str());
    push_text(&mut out, "}");
    string_of(out.as_slice())
}

/// The message for an error code that means the user has to sign in again.
pub open spec fn rejection_message(code: Seq<char>) -> Option<Seq<char>> {
    if code == "refresh_token_expired"@ {
        Some("Refresh Token 已过期，请重新登录 Codex CLI"@)
    } else if code == "refresh_token_reused"@ {
        Some("Refresh Token 已被使用，请重新登录 Codex CLI"@)
    } else if code == "refresh_token_invalidated"@ {
        Some("Refresh Token 已被撤销，请重新登录 Codex CLI"@)
    } else {
        None
    }
}

/// The message for a refused refresh: the sign-in message for a known code, else the
/// status and the body as they came.
pub open spec fn failure_message(status: u16, body: Seq<char>, code: Option<Seq<char>>) -> Seq<char> {
    match code {
        Some(c) => match rejection_message(c) {
            Some(m) => m,
            None => "刷新失败: HTTP "@ + decimal(status as nat) + " - "@ + body,
        },
        None => "刷新失败: HTTP "@ + decimal(status as nat) + " - "@ + body,
    }
}

fn same_text(a: &str, b: &str) -> (r: bool)
    ensures
        r == (a@ == b@),
{
    let x = chars_of(a);
    let y = chars_of(b);
    same_chars(x.as_slice(), y.as_slice())
}

/// The message for a refused refresh with reply `status` and `body`, whose error code, if
/// the body names one, is `code`.
pub fn refresh_failure_message(status: u16, body: &str, code: Option<String>) -> (r: String)
    ensures
        r@ == failure_message(status, body@, opt_text(code)),
{
    if let Some(c) = code {
        if same_text(c.as_str(), "refresh_token_expired") {
            return "Refresh Token 已过期，请重新登录 Codex CLI".to_owned();
        } else if same_text(c.as_str(), "refresh_token_reused") {
            return "Refresh Token 已被使用，请重新登录 Codex CLI".to_owned();
        } else if same_text(c.as_str(), "refresh_token_invalidated") {
            return "Refresh Token 已被撤销，请重新登录 Codex CLI".to_owned();
        }
    }
    let mut out: Vec<char> = Vec::new();
    push_text(&mut out, "刷新失败: HTTP ");
    let mut d = decimal_text(status as u64);
    out.append(&mut d);
    push_text(&mut out, " - ");
    push_text(&mut out, body);
    string_of(out.as_slice())
}

/// A text, or `unknown` where there is none.
pub open spec fn text_or_unknown(t: Option<Seq<char>>) -> Seq<char> {
    match t {
        Some(c) => c,
        None => "unknown"@,
    }
}

/// The error code of a refusal body: a JSON document with an `error` member names the
/// code at `error.code` if that member exists, else at `code`, or `unknown` where that is
/// no string; any other body names none.
pub open spec fn error_code_of(b: Seq<u8>) -> Option<Seq<char>> {
    if json_accepts(b) && json_present_at(b, "/error"@) {
        if json_present_at(b, "/error/code"@) {
            Some(text_or_unknown(json_text_at(b, "/error/code"@)))
        } else {
            Some(text_or_unknown(json_text_at(b, "/code"@)))
        }
    } else {
        None
    }
}

fn error_code(body: &str) -> (r: Option<String>)
    ensures
        opt_text(r) == error_code_of(encode_utf8(body@)),
{
    let b = body.as_bytes();
    if !(json_is_document(b) && json_present(b, "/error")) {
        return None;
    }
    let code = if json_present(b, "/error/code") {
        json_text(b, "/error/code")
    } else {
        json_text(b, "/code")
    };
    match code {
        Some(t) => Some(t),
        None => Some("unknown".to_owned()),
    }
}

/// The message for a refused refresh with reply `status` and `body`, for the error code
/// that the body names.
pub fn classify_refresh_failure(status: u16, body: &str) -> (r: String)
    ensures
        r@ == failure_message(status, body@, error_code_of(encode_utf8(body@))),
{
    let code = error_code(body);
    refresh_failure_message(status, body, code)
}

/// The tokens of a granted refresh; each one the provider sent replaces the stored one.
pub struct RefreshedTokens {
    pub access_token: Option<String>,
    pub id_token: Option<String>,
    pub refresh_token: Option<String>,
}

/// A token field of the reply at `pointer`: absent or null is no token, a string is one,
/// anything else makes the reply unreadable (none).
pub open spec fn token_field(b: Seq<u8>, pointer: Seq<char>) -> Option<Option<Seq<char>>> {
    if !json_present_at(b, pointer) || json_null_at(b, pointer) {
        Some(None)
    } else {
        match json_text_at(b, pointer) {
            Some(t) => Some(Some(t)),
            None => None,
        }
    }
}

/// The tokens a reply holds, in the order access, identity, refresh.
pub type TokensView = (Option<Seq<char>>, Option<Seq<char>>, Option<Seq<char>>);

/// The view of refreshed tokens.
pub open spec fn tokens_view(t: RefreshedTokens) -> TokensView {
    (opt_text(t.access_token), opt_text(t.id_token), opt_text(t.refresh_token))
}

/// The tokens of a granted refresh's reply: a JSON document whose `access_token`,
/// `id_token` and `refresh_token` are each a string, null or absent; none for any other reply.
pub open spec fn reply_tokens(b: Seq<u8>) -> Option<TokensView> {
    if !json_accepts(b) {
        None
    } else {
        match (token_field(b, "/access_token"@), token_field(b, "/id_token"@), token_field(b, "/refresh_token"@)) {
            (Some(a), Some(i), Some(r)) => Some((a, i, r)),
            _ => None,
        }
    }
}

fn read_token_field(b: &[u8], pointer: &str) -> (r: Result<Option<String>, ()>)
    ensures
        match r {
            Ok(t) => token_field(b@, pointer@) == Some(opt_text(t)),
            Err(_) => token_field(b@, pointer@) is None,
        },
{
    if !json_present(b, pointer) || json_null(b, pointer) {
        return Ok(None);
    }
    match json_text(b, pointer) {
        Some(t) => Ok(Some(t)),
        None => Err(()),
    }
}

/// The tokens of a granted refresh's reply, if the reply can be read.
pub fn read_refresh_reply(body: &str) -> (r: Option<RefreshedTokens>)
    ensures
        match r {
            Some(t) => reply_tokens(encode_utf8(body@)) == Some(tokens_view(t)),
            None => reply_tokens(encode_utf8(body@)) is None,
        },
{
    let b = body.as_bytes();
    if !json_is_document(b) {
        return None;
    }
    let access_token = match read_token_field(b, "/access_token") {
        Ok(t) => t,
        Err(_) => return None,
    };
    let id_token = match read_token_field(b, "/id_token") {
        Ok(t) => t,
        Err(_) => return None,
    };
    let refresh_token = match read_token_field(b, "/refresh_token") {
        Ok(t) => t,
        Err(_) => return None,
    };
    Some(RefreshedTokens { access_token, id_token, refresh_token })
}

/// A stored token after a refresh: the new one if sent, else the old one.
pub open spec fn rotated(old: Seq<char>, new: Option<Seq<char>>) -> Seq<char> {
    match new {
        Some(t) => t,
        None => old,
    }
}

/// `a` is the record `old` after the refresh `t` at time `now`: the sent tokens replace
/// the stored ones, the account and key stay, and the refresh time is `now`.
pub open spec fn refreshed_record(old: CodexAuthFile, t: TokensView, now: Seq<char>, a: CodexAuthFile) -> bool {
    &&& a.tokens.access_token@ == rotated(old.tokens.access_token@, t.0)
    &&& a.tokens.id_token@ == rotated(old.tokens.id_token@, t.1)
    &&& a.tokens.refresh_token@ == rotated(old.tokens.refresh_token@, t.2)
    &&& a.tokens.account_id@ == old.tokens.account_id@
    &&& opt_text(a.openai_api_key) == opt_text(old.openai_api_key)
    &&& a.last_refresh@ == now
}

fn keep_or_replace(old: String, new: Option<String>) -> (r: String)
    ensures
        r@ == rotated(old@, opt_text(new)),
{
    match new {
        Some(t) => t,
        None => old,
    }
}

/// The record after the refresh `t`, made at time `now`.
pub fn apply_refresh(auth: CodexAuthFile, t: RefreshedTokens, now: String) -> (r: CodexAuthFile)
    ensures
        refreshed_record(auth, tokens_view(t), now@, r),
{
    let CodexAuthFile { openai_api_key, last_refresh: _, tokens } = auth;
    let CodexTokens { access_token, account_id, id_token, refresh_token } = tokens;
    CodexAuthFile {
        openai_api_key,
        last_refresh: now,
        tokens: CodexTokens {
            access_token: keep_or_replace(access_token, t.access_token),
            account_id,
            id_token: keep_or_replace(id_token, t.id_token),
            refresh_token: keep_or_replace(refresh_token, t.refresh_token),
        },
    }
}

/// Relies on chrono's `From<SystemTime> for DateTime<Utc>` and `DateTime::to_rfc3339`: the
/// system clock as an RFC 3339 text. Unlike `Utc::now`, the conversion also takes a clock
/// set before 1970.
#[verifier::external_body]
fn now_rfc3339() -> (r: String) {
    chrono::DateTime::<chrono::Utc>::from(std::time::SystemTime::now()).to_rfc3339()
}

/// The record that the provider's reply to a refresh of `auth` leaves: on a 2xx reply that
/// reads as tokens, `auth` with those tokens and the refresh time set to now; on a 2xx reply
/// that does not, a parse failure; on any other status, the message for the error code the
/// body names. On a failure the caller leaves the file as it is.
pub fn refresh_credentials(auth: CodexAuthFile, status: u16, body: &str) -> (r: Result<CodexAuthFile, String>)
    ensures
        !is_success(status) ==> (r matches Err(m) && m@ == failure_message(
            status,
            body@,
            error_code_of(encode_utf8(body@)),
        )),
        is_success(status) && reply_tokens(encode_utf8(body@)) is None ==> (r matches Err(m) && m@
            == "解析响应失败: "@ + body@),
        is_success(status) && reply_tokens(encode_utf8(body@)) is Some ==> (r matches Ok(a) && refreshed_record(
            auth,
            reply_tokens(encode_utf8(body@))->0,
            a.last_refresh@,
            a,
        )),
{
    if !(200 <= status && status < 300) {
        return Err(classify_refresh_failure(status, body));
    }
    match read_refresh_reply(body) {
        Some(t) => {
            let now = now_rfc3339();
            Ok(apply_refresh(auth, t, now))
        },
        None => {
            let mut out: Vec<char> = Vec::new();
            push_text(&mut out, "解析响应失败: ");
            push_text(&mut out, body);
            proof {
                assert(out@ =~= "解析响应失败: "@ + body@);
            }
            Err(string_of(out.as_slice()))
        },
    }
}

} // verus!
