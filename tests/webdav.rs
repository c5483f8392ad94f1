use myswitch::webdav::{
    child_config, collection_url_of, created_report, download_outcome, download_request, file_url_of,
    list_request, mkcol_outcome, mkcol_request, mkcol_url_of, probe_reply, upload_outcome, upload_request,
    DavError, DavMethod, ProbeStep,
};
use myswitch::{normalize_remote_path, WebDavConfig};

fn cfg(url: &str, path: &str) -> WebDavConfig {
    WebDavConfig {
        url: url.to_string(),
        username: "user".to_string(),
        password: "pw".to_string(),
        remote_path: path.to_string(),
    }
}

#[test]
fn normalize_adds_slashes() {
    assert_eq!(normalize_remote_path("backup"), "/backup/");
    assert_eq!(normalize_remote_path("  /a/b  "), "/a/b/");
    assert_eq!(normalize_remote_path("/a/"), "/a/");
    assert_eq!(normalize_remote_path(""), "/");
    assert_eq!(normalize_remote_path("   "), "/");
}

#[test]
fn urls_of_an_endpoint() {
    let c = cfg("https://dav.example.com/dav//", "backup");
    assert_eq!(collection_url_of(&c), "https://dav.example.com/dav/backup/");
    assert_eq!(mkcol_url_of(&c), "https://dav.example.com/dav/backup");
    assert_eq!(file_url_of(&c, "账号 1.json"), "https://dav.example.com/dav/backup/%E8%B4%A6%E5%8F%B7%201.json");
    assert_eq!(file_url_of(&c, "a-b_c.~d"), "https://dav.example.com/dav/backup/a-b_c.~d");
}

#[test]
fn upload_and_download_address_the_same_file() {
    let c = cfg("https://h/", " /x ");
    let up = upload_request(&c, "a b.json", "{}");
    let down = download_request(&c, "a b.json");
    assert_eq!(up.url, down.url);
    assert_eq!(up.url, "https://h/x/a%20b.json");
    assert_eq!(up.method, DavMethod::Put);
    assert_eq!(down.method, DavMethod::Get);
    assert_eq!(up.body, "{}");
    assert_eq!((up.username.as_str(), up.password.as_str()), ("user", "pw"));
}

#[test]
fn list_and_mkcol_requests() {
    let c = cfg("https://h", "/x/");
    let l = list_request(&c, 1);
    assert_eq!(l.method, DavMethod::Propfind);
    assert_eq!(l.url, "https://h/x/");
    assert_eq!(l.headers[0], ("Depth".to_string(), "1".to_string()));
    let m = mkcol_request(&c);
    assert_eq!(m.method, DavMethod::Mkcol);
    assert_eq!(m.url, "https://h/x");
}

#[test]
fn child_endpoint_appends_one_segment() {
    let c = cfg("https://h", "backup");
    let k = child_config(&c, "skills");
    assert_eq!(k.remote_path, "/backup/skills/");
    assert_eq!(child_config(&k, "tool").remote_path, "/backup/skills/tool/");
    assert_eq!(k.url, "https://h");
}

#[test]
fn ensure_collection_twice_succeeds() {
    assert!(mkcol_outcome(201).is_ok());
    assert!(mkcol_outcome(405).is_ok());
    assert!(mkcol_outcome(301).is_ok());
    assert!(mkcol_outcome(200).is_ok());
    assert!(matches!(mkcol_outcome(409), Err(DavError::Status(409))));
    assert!(matches!(mkcol_outcome(401), Err(DavError::Status(401))));
}

#[test]
fn upload_and_download_statuses() {
    assert!(upload_outcome(201).is_ok());
    assert!(upload_outcome(204).is_ok());
    assert!(matches!(upload_outcome(403), Err(DavError::Status(403))));
    assert_eq!(download_outcome(200, "x".to_string()).ok().as_deref(), Some("x"));
    assert!(matches!(download_outcome(404, String::new()), Err(DavError::Status(404))));
}

#[test]
fn error_texts() {
    assert_eq!(DavError::Status(404).text(), "HTTP 404");
    assert_eq!(DavError::Transport("timed out".to_string()).text(), "timed out");
}

#[test]
fn connection_probe_steps() {
    assert!(matches!(probe_reply(207), ProbeStep::Finished(Ok(m)) if m == "连接成功"));
    assert!(matches!(probe_reply(404), ProbeStep::CreateCollection));
    assert!(matches!(probe_reply(401), ProbeStep::Finished(Err(m)) if m == "认证失败：请检查用户名和应用密码"));
    assert!(matches!(probe_reply(503), ProbeStep::Finished(Err(m)) if m == "连接失败: HTTP 503"));
    assert_eq!(created_report(Ok(())).ok().as_deref(), Some("连接成功，已创建远程目录"));
    assert_eq!(created_report(Err(DavError::Status(403))).err().as_deref(), Some("创建目录失败: HTTP 403"));
}
