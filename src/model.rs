//! The records that the engine reads, writes and reports.

use vstd::prelude::*;

verus! {

/// The OAuth tokens of one account.
pub struct CodexTokens {
    pub access_token: String,
    pub account_id: String,
    pub id_token: String,
    pub refresh_token: String,
}

/// A credential file: an optional API key, the time of the last refresh, and the tokens.
pub struct CodexAuthFile {
    pub openai_api_key: Option<String>,
    pub last_refresh: String,
    pub tokens: CodexTokens,
}

/// What the account list shows of one credential file.
pub struct AccountInfo {
    pub id: String,
    pub name: String,
    pub email: String,
    pub plan_type: String,
    pub subscription_end: Option<String>,
    pub is_active: bool,
    pub file_path: String,
    pub expires_at: Option<i64>,
    pub last_refresh: String,
}

/// The accounts found in the accounts directory.
pub struct ScanResult {
    pub accounts: Vec<AccountInfo>,
    pub accounts_dir: String,
}

/// The application's own settings.
pub struct AppConfig {
    pub accounts_dir: Option<String>,
}

/// A prompt file and what its front matter says.
pub struct PromptInfo {
    pub name: String,
    pub description: String,
    pub argument_hint: Option<String>,
    pub file_path: String,
    pub content: String,
}

/// A skill directory and what its `SKILL.md` says.
pub struct SkillInfo {
    pub name: String,
    pub description: String,
    pub compatibility: Option<String>,
    pub dir_path: String,
    pub has_scripts: bool,
    pub has_assets: bool,
    pub has_references: bool,
}

/// The sync policy: which parts of the configuration directory take part in a sync, and
/// which classes of settings of the configuration document.
pub struct CodexSyncConfig {
    pub sync_prompts: bool,
    pub sync_skills: bool,
    pub sync_agents_md: bool,
    pub sync_config_toml: bool,
    /// Top-level settings whose key starts with `model`.
    pub sync_model_config: bool,
    /// The sections of the MCP server registry.
    pub sync_mcp_servers: bool,
    /// Every other setting and section.
    pub sync_other_config: bool,
}

impl Default for CodexSyncConfig {
    fn default() -> (r: Self)
        ensures
            r.sync_prompts && r.sync_skills && r.sync_agents_md && !r.sync_config_toml,
            r.sync_model_config && r.sync_mcp_servers && !r.sync_other_config,
    {
        CodexSyncConfig {
            sync_prompts: true,
            sync_skills: true,
            sync_agents_md: true,
            sync_config_toml: false,
            sync_model_config: true,
            sync_mcp_servers: true,
            sync_other_config: false,
        }
    }
}

/// A remote endpoint: the server, the credentials, and a directory on it.
pub struct WebDavConfig {
    pub url: String,
    pub username: String,
    pub password: String,
    pub remote_path: String,
}

/// The abstract value of an endpoint: its four texts.
pub struct WebDavConfigView {
    pub url: Seq<char>,
    pub username: Seq<char>,
    pub password: Seq<char>,
    pub remote_path: Seq<char>,
}

impl View for WebDavConfig {
    type V = WebDavConfigView;

    open spec fn view(&self) -> WebDavConfigView {
        WebDavConfigView {
            url: self.url@,
            username: self.username@,
            password: self.password@,
            remote_path: self.remote_path@,
        }
    }
}

/// The record of one sync run: what was uploaded, what was downloaded, what failed.
pub struct SyncResult {
    pub uploaded: Vec<String>,
    pub downloaded: Vec<String>,
    pub errors: Vec<String>,
}

/// The texts of a vector of strings.
pub open spec fn texts(v: Seq<String>) -> Seq<Seq<char>> {
    v.map_values(|s: String| s@)
}

/// The abstract value of a sync record: its three lists of texts.
pub struct SyncResultView {
    pub uploaded: Seq<Seq<char>>,
    pub downloaded: Seq<Seq<char>>,
    pub errors: Seq<Seq<char>>,
}

impl View for SyncResult {
    type V = SyncResultView;

    open spec fn view(&self) -> SyncResultView {
        SyncResultView {
            uploaded: texts(self.uploaded@),
            downloaded: texts(self.downloaded@),
            errors: texts(self.errors@),
        }
    }
}

impl SyncResult {
    /// A record with nothing in it.
    pub fn new() -> (r: SyncResult)
        ensures
            r@.uploaded.len() == 0,
            r@.downloaded.len() == 0,
            r@.errors.len() == 0,
    {
        SyncResult { uploaded: Vec::new(), downloaded: Vec::new(), errors: Vec::new() }
    }

    /// Records an uploaded item.
    pub fn add_uploaded(&mut self, item: String)
        ensures
            final(self)@ == (SyncResultView { uploaded: old(self)@.uploaded.push(item@), ..old(self)@ }),
    {
        let ghost before = self.uploaded@;
        self.uploaded.push(item);
        proof {
            assert(texts(self.uploaded@) =~= texts(before).push(item@));
        }
    }

    /// Records a downloaded item.
    pub fn add_downloaded(&mut self, item: String)
        ensures
            final(self)@ == (SyncResultView { downloaded: old(self)@.downloaded.push(item@), ..old(self)@ }),
    {
        let ghost before = self.downloaded@;
        self.downloaded.push(item);
        proof {
            assert(texts(self.downloaded@) =~= texts(before).push(item@));
        }
    }

    /// Records a failure.
    pub fn add_error(&mut self, message: String)
        ensures
            final(self)@ == (SyncResultView { errors: old(self)@.errors.push(message@), ..old(self)@ }),
    {
        let ghost before = self.errors@;
        self.errors.push(message);
        proof {
            assert(texts(self.errors@) =~= texts(before).push(message@));
        }
    }
}

} // verus!
