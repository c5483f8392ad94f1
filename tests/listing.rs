use myswitch::listing::parse_listing;
use myswitch::webdav::list_outcome;
use myswitch::webdav::DavError;

fn entries(body: &str) -> Vec<(String, bool)> {
    parse_listing(body).into_iter().map(|e| (e.name, e.is_collection)).collect()
}

#[test]
fn listing_parent_and_two_children() {
    let body = [
        "<?xml version=\"1.0\" encoding=\"utf-8\"?>",
        "<d:multistatus xmlns:d=\"DAV:\">",
        "<d:response><d:href>/dav/backup/</d:href><d:propstat><d:prop>",
        "<d:resourcetype><d:collection/></d:resourcetype></d:prop></d:propstat></d:response>",
        "<d:response><d:href>/dav/backup/skills/</d:href><d:propstat><d:prop>",
        "<d:resourcetype><d:collection/></d:resourcetype></d:prop></d:propstat></d:response>",
        "<d:response><d:href>/dav/backup/work.json</d:href><d:propstat><d:prop>",
        "<d:resourcetype/></d:prop></d:propstat></d:response>",
        "</d:multistatus>",
    ]
    .join("");
    let body = body.as_str();
    assert_eq!(entries(body), vec![("skills".to_string(), true), ("work.json".to_string(), false)]);
}

#[test]
fn listing_decodes_percent_escapes() {
    let body = "<D:href>/r/</D:href><D:href>/r/a%20b%E4%B8%AD.md</D:href>";
    assert_eq!(entries(body), vec![("a b中.md".to_string(), false)]);
}

#[test]
fn listing_keeps_undecodable_href_as_is() {
    let body = "<href>/r/</href><href>/r/x%FF.md</href>";
    assert_eq!(entries(body), vec![("x%FF.md".to_string(), false)]);
}

#[test]
fn listing_marker_without_trailing_slash() {
    let body = "<d:href>/r/</d:href><d:href>/r/prompts</d:href><d:resourcetype><d:collection/></d:resourcetype>";
    assert_eq!(entries(body), vec![("prompts".to_string(), true)]);
}

#[test]
fn listing_drops_dotfiles_and_repeats() {
    let body = "<href>/r/</href><href>/r/.hidden</href><href>/r/a.md</href><href>/r/a.md</href><href>/r/sub//</href>";
    assert_eq!(entries(body), vec![("a.md".to_string(), false), ("sub".to_string(), true)]);
}

#[test]
fn listing_each_spelling_skips_its_first_href() {
    let body = "<d:href>/r/</d:href><d:href>/r/one.md</d:href><href>/r/</href><href>/r/two.md</href>";
    assert_eq!(entries(body), vec![("one.md".to_string(), false), ("two.md".to_string(), false)]);
}

#[test]
fn listing_unclosed_href_ends_scan() {
    let body = "<href>/r/</href><href>/r/a.md</href><href>/r/b.md";
    assert_eq!(entries(body), vec![("a.md".to_string(), false)]);
}

#[test]
fn listing_empty_body() {
    assert!(entries("").is_empty());
}

#[test]
fn list_outcome_accepts_multistatus() {
    let body = "<href>/r/</href><href>/r/a.md</href>";
    assert_eq!(list_outcome(207, body).ok().map(|v| v.len()), Some(1));
    assert_eq!(list_outcome(200, body).ok().map(|v| v.len()), Some(1));
}

#[test]
fn list_outcome_rejects_other_status() {
    assert!(matches!(list_outcome(404, ""), Err(DavError::Status(404))));
    assert!(matches!(list_outcome(500, ""), Err(DavError::Status(500))));
}
