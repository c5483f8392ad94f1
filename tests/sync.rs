use myswitch::listing::parse_listing;
use myswitch::sync::{
    accounts_endpoint, download_targets, is_hidden, local_account_files, plan_download, plan_skills, plan_upload,
    record_download, record_listing_failure, record_optional_failure, record_upload, remote_account_files,
    upload_targets, vet_download, DownloadOutcome, LocalEntry, SyncStep, UploadOutcome,
};
use myswitch::webdav::DavError;
use myswitch::{CodexSyncConfig, SyncResult, WebDavConfig};

fn cfg(path: &str) -> WebDavConfig {
    WebDavConfig {
        url: "https://h".to_string(),
        username: "u".to_string(),
        password: "p".to_string(),
        remote_path: path.to_string(),
    }
}

fn entry(name: &str, is_dir: bool) -> LocalEntry {
    LocalEntry { name: name.to_string(), is_dir }
}

fn describe(steps: &[SyncStep]) -> Vec<String> {
    steps
        .iter()
        .map(|s| match s {
            SyncStep::Descend { name, remote } => format!("dir {} -> {}", name, remote.remote_path),
            SyncStep::Transfer { name, item } => format!("file {} as {}", name, item),
        })
        .collect()
}

#[test]
fn upload_plan_skips_hidden_and_descends() {
    let es = vec![entry("a.md", false), entry(".git", true), entry("__pycache__", true), entry("sub", true), entry("_x.md", false)];
    let steps = plan_upload(&cfg("/r/prompts"), &es);
    assert_eq!(
        describe(&steps),
        vec!["file a.md as /r/prompts/a.md", "dir sub -> /r/prompts/sub/", "file _x.md as /r/prompts/_x.md"]
    );
}

#[test]
fn download_plan_follows_listing() {
    let body = "<href>/r/</href><href>/r/one/</href><href>/r/two.md</href>";
    let steps = plan_download(&cfg("r"), &parse_listing(body));
    assert_eq!(describe(&steps), vec!["dir one -> /r/one/", "file two.md as /r/two.md"]);
}

#[test]
fn hidden_names() {
    assert!(is_hidden(".env"));
    assert!(is_hidden("__init__"));
    assert!(!is_hidden("_a"));
    assert!(!is_hidden(""));
}

#[test]
fn upload_run_with_one_unreadable_file() {
    let mut r = SyncResult::new();
    let names = ["a.json", "b.json", "c.json", "d.json"];
    for (k, n) in names.iter().enumerate() {
        let o = if k == 1 { UploadOutcome::Unreadable("permission denied".to_string()) } else { UploadOutcome::Uploaded };
        record_upload(&mut r, n, n.to_string(), o);
    }
    assert_eq!(r.uploaded, vec!["a.json", "c.json", "d.json"]);
    assert_eq!(r.errors, vec!["b.json: 读取失败 permission denied"]);
    assert!(r.downloaded.is_empty());
}

#[test]
fn upload_rejection_is_recorded() {
    let mut r = SyncResult::new();
    record_upload(&mut r, "a.md", "/x/a.md".to_string(), UploadOutcome::Rejected(DavError::Status(507)));
    assert_eq!(r.errors, vec!["a.md: HTTP 507"]);
}

#[test]
fn download_outcomes_are_recorded() {
    let mut r = SyncResult::new();
    record_download(&mut r, "a.json", "a.json".to_string(), DownloadOutcome::Written);
    record_download(&mut r, "b.json", "b.json".to_string(), DownloadOutcome::Invalid);
    record_download(&mut r, "c.json", "c.json".to_string(), DownloadOutcome::WriteFailed("disk full".to_string()));
    record_download(&mut r, "d.json", "d.json".to_string(), DownloadOutcome::Failed(DavError::Transport("timeout".to_string())));
    assert_eq!(r.downloaded, vec!["a.json"]);
    assert_eq!(r.errors, vec!["b.json: 无效的 JSON", "c.json: 写入失败 disk full", "d.json: timeout"]);
}

#[test]
fn vetting_downloads() {
    assert_eq!(vet_download(Ok("{\"a\":1}".to_string()), true).ok().as_deref(), Some("{\"a\":1}"));
    assert!(matches!(vet_download(Ok("{\"a\":".to_string()), true), Err(DownloadOutcome::Invalid)));
    assert_eq!(vet_download(Ok("# notes".to_string()), false).ok().as_deref(), Some("# notes"));
    assert!(matches!(vet_download(Err(DavError::Status(500)), true), Err(DownloadOutcome::Failed(DavError::Status(500)))));
}

#[test]
fn absent_optional_files_are_no_error() {
    let mut r = SyncResult::new();
    record_optional_failure(&mut r, "AGENTS.MD", DavError::Status(404));
    record_listing_failure(&mut r, DavError::Status(404));
    assert!(r.errors.is_empty());
    record_optional_failure(&mut r, "config.toml", DavError::Status(500));
    record_listing_failure(&mut r, DavError::Transport("refused".to_string()));
    assert_eq!(r.errors, vec!["config.toml: HTTP 500", "列目录失败: refused"]);
}

#[test]
fn account_file_selection() {
    let es = vec![entry("a.json", false), entry(".b.json", false), entry("c.txt", false), entry("d.json", true), entry(".json", false)];
    assert_eq!(local_account_files(&es), vec!["a.json"]);
    let body = "<href>/r/accounts/</href><href>/r/accounts/x.json</href><href>/r/accounts/y/</href><href>/r/accounts/z.md</href>";
    assert_eq!(remote_account_files(&parse_listing(body)), vec!["x.json"]);
}

#[test]
fn skill_directories() {
    let es = vec![entry("tool", true), entry(".system", true), entry("dist", true), entry("README.md", false), entry("__x", true)];
    assert_eq!(describe(&plan_skills(&cfg("/r/skills/"), &es)), vec!["dir tool -> /r/skills/tool/", "dir __x -> /r/skills/__x/"]);
}

#[test]
fn targets_by_policy() {
    let mut p = CodexSyncConfig::default();
    let up = upload_targets(&cfg("/backup"), &p);
    assert_eq!(up.agents_md.map(|c| c.remote_path).as_deref(), Some("/backup"));
    assert!(up.config_toml.is_none());
    assert_eq!(up.prompts.map(|c| c.remote_path).as_deref(), Some("/backup/prompts/"));
    assert_eq!(up.skills.map(|c| c.remote_path).as_deref(), Some("/backup/skills/"));
    p.sync_config_toml = true;
    p.sync_skills = false;
    let down = download_targets(&cfg("/backup"), &p);
    assert_eq!(down.config_toml.map(|c| c.remote_path).as_deref(), Some("/backup"));
    assert_eq!(down.prompts.map(|c| c.remote_path).as_deref(), Some("/backup/prompts/"));
    assert!(down.skills.is_none());
    assert_eq!(accounts_endpoint(&cfg("/backup")).remote_path, "/backup/accounts/");
}

#[test]
fn default_policy() {
    let p = CodexSyncConfig::default();
    assert!(p.sync_prompts && p.sync_skills && p.sync_agents_md && !p.sync_config_toml);
    assert!(p.sync_model_config && p.sync_mcp_servers && !p.sync_other_config);
}

#[test]
fn upload_and_download_share_one_tree() {
    let p = CodexSyncConfig { sync_config_toml: true, ..CodexSyncConfig::default() };
    for path in ["/", "backup", "/a/b/"] {
        let up = upload_targets(&cfg(path), &p);
        let down = download_targets(&cfg(path), &p);
        let paths = |t: myswitch::sync::SyncTargets| {
            [t.agents_md, t.config_toml, t.prompts, t.skills].map(|c| c.map(|c| c.remote_path))
        };
        assert_eq!(paths(up), paths(down));
    }
}
