use myswitch::paths::{get_accounts_dir, get_codex_auth_file, get_codex_dir, get_config_file, join_path};
use myswitch::{get_prompts_dir, get_skills_dir};

#[test]
fn joining_paths() {
    assert_eq!(join_path("/home/u", ".codex"), "/home/u/.codex");
    assert_eq!(join_path("/home/u/", ".codex"), "/home/u/.codex");
    assert_eq!(join_path("", "x"), "x");
}

#[test]
fn configuration_directories_under_home() {
    if let Some(c) = get_codex_dir() {
        assert!(c.ends_with("/.codex"));
        assert_eq!(get_prompts_dir(), Some(format!("{}/prompts", c)));
        assert_eq!(get_skills_dir(), Some(format!("{}/skills", c)));
        assert_eq!(get_codex_auth_file(), Some(format!("{}/auth.json", c)));
    }
    if let Some(f) = get_config_file() {
        assert!(f.ends_with("/.myswitch/config.json"));
    }
}

#[test]
fn accounts_directory_choice() {
    assert_eq!(get_accounts_dir(Some("/data/acc".to_string()), true).as_deref(), Some("/data/acc"));
    if let Some(d) = get_accounts_dir(Some("/missing".to_string()), false) {
        assert!(d.ends_with("/.myswitch/accounts"));
    }
}
