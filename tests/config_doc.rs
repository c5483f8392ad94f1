use myswitch::config_doc::{filter_config, join_document, merge_config, split_document};
use myswitch::CodexSyncConfig;

fn policy(model: bool, mcp: bool, other: bool) -> CodexSyncConfig {
    CodexSyncConfig {
        sync_prompts: true,
        sync_skills: true,
        sync_agents_md: true,
        sync_config_toml: true,
        sync_model_config: model,
        sync_mcp_servers: mcp,
        sync_other_config: other,
    }
}

const DOC: &str = "# settings\nmodel = \"o3\"\nmodel_reasoning_effort = \"high\"\napproval_policy = \"never\"\n\n[mcp_servers.files]\ncommand = \"npx\"\n\n[notice]\nhide = true\n\n[projects.\"/w\"]\ntrust_level = \"trusted\"\n";

#[test]
fn filter_keeps_model_and_mcp_only() {
    let f = filter_config(DOC, &policy(true, true, false));
    assert_eq!(f, "model = \"o3\"\nmodel_reasoning_effort = \"high\"\n\n[mcp_servers.files]\ncommand = \"npx\"\n");
}

#[test]
fn filter_drops_leading_filler_when_first_part_excluded() {
    let f = filter_config(DOC, &policy(false, true, false));
    assert_eq!(f, "[mcp_servers.files]\ncommand = \"npx\"\n");
}

#[test]
fn filter_never_shares_notices() {
    let f = filter_config(DOC, &policy(true, true, true));
    assert!(!f.contains("[notice]"));
    assert!(!f.contains("hide = true"));
    assert!(f.contains("approval_policy"));
    assert!(f.contains("trust_level"));
}

#[test]
fn filter_is_idempotent() {
    for p in [policy(true, true, false), policy(false, true, false), policy(true, false, true), policy(false, false, false), policy(true, true, true)] {
        let once = filter_config(DOC, &p);
        assert_eq!(filter_config(&once, &p), once);
    }
}

#[test]
fn filter_of_empty_document() {
    assert_eq!(filter_config("", &policy(true, true, true)), "");
}

#[test]
fn split_and_join_round_trip() {
    for d in ["", "a", "a\n", "a\nb", "\n\n", "x\r\ny"] {
        assert_eq!(join_document(&split_document(d)), d);
    }
    assert_eq!(split_document("a\n"), vec!["a", ""]);
}

#[test]
fn merge_replaces_and_prepends_model_settings() {
    let local = "model = \"gpt-4\"\napproval_policy = \"on-request\"\n[profiles.x]\nmodel = \"keep\"\n";
    let remote = "model = \"o3\"\nmodel_provider = \"openai\"\nsandbox = \"none\"\n[other]\nmodel = \"ignored\"\n";
    let m = merge_config(local, remote, &policy(true, false, false));
    assert_eq!(m, "model_provider = \"openai\"\nmodel = \"o3\"\napproval_policy = \"on-request\"\n[profiles.x]\nmodel = \"keep\"\n");
}

#[test]
fn merge_without_model_flag_keeps_local() {
    let local = "model = \"a\"\n";
    assert_eq!(merge_config(local, "model = \"b\"\n", &policy(false, true, true)), local);
}
