//! Credential and configuration synchronisation against a WebDAV server,
//! with the OAuth token-refresh workflow that keeps a credential file valid.

pub mod text;
pub mod urlcodec;
pub mod listing;
pub mod model;
pub mod webdav;
pub mod sync;
pub mod json;
pub mod jwt;
pub mod refresh;
pub mod config_doc;
pub mod paths;
pub mod accounts;
pub mod frontmatter;

pub use model::{
    AccountInfo, AppConfig, CodexAuthFile, CodexSyncConfig, CodexTokens, PromptInfo, ScanResult, SkillInfo,
    SyncResult, WebDavConfig,
};
pub use jwt::{decode_jwt_payload, extract_info_from_auth};
pub use webdav::normalize_remote_path;
pub use paths::{get_prompts_dir, get_skills_dir};

