use myswitch::frontmatter::parse_frontmatter;

#[test]
fn front_matter_entries() {
    let doc = "\n---\nname: \"lint\"\ndescription: 'Runs the linter'\nargument-hint: <path>\nnotes: >\n---\n\n# Body\n";
    let fm = parse_frontmatter(doc).unwrap();
    assert_eq!(fm.get("name").as_deref(), Some("lint"));
    assert_eq!(fm.get("description").as_deref(), Some("Runs the linter"));
    assert_eq!(fm.get("argument-hint").as_deref(), Some("<path>"));
    assert_eq!(fm.get("notes"), None);
    assert_eq!(fm.get("missing"), None);
}

#[test]
fn front_matter_later_entry_wins() {
    let fm = parse_frontmatter("---\na: 1\na: 2\nurl: http://x\n---").unwrap();
    assert_eq!(fm.get("a").as_deref(), Some("2"));
    assert_eq!(fm.get("url").as_deref(), Some("http://x"));
}

#[test]
fn front_matter_absent() {
    assert!(parse_frontmatter("# Title\n").is_none());
    assert!(parse_frontmatter("---\nname: x\n").is_none());
    assert!(parse_frontmatter("---\njust text\n---\n").is_none());
    assert!(parse_frontmatter("").is_none());
}
