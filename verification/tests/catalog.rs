use qmp_mcp::instance::catalog::{
    catalog_file_labels, is_valid_id, load_catalog, parse_catalog, Catalog, CatalogEntry,
    CatalogError,
};
use qmp_mcp::instance::store_path::assert_valid_store_name;

fn text_of(value: &serde_json::Value, name: &str) -> Option<String> {
    value.get(name).and_then(|v| v.as_str()).map(String::from)
}

fn entry_of(value: &serde_json::Value) -> CatalogEntry {
    CatalogEntry {
        id: text_of(value, "id").unwrap(),
        name: text_of(value, "name").unwrap(),
        edition: text_of(value, "edition"),
        arch: text_of(value, "arch"),
        filename: text_of(value, "filename").unwrap(),
        mirrors: value["mirrors"]
            .as_array()
            .unwrap()
            .iter()
            .map(|m| m.as_str().unwrap().to_string())
            .collect(),
    }
}

/// The entries that a catalog document lists.
fn decode(text: &str) -> Result<Vec<CatalogEntry>, String> {
    let document: serde_json::Value = serde_json::from_str(text).map_err(|e| e.to_string())?;
    Ok(document["isos"].as_array().unwrap().iter().map(entry_of).collect())
}

fn parse(text: &str, source: &str) -> Result<Catalog, CatalogError> {
    parse_catalog(decode(text), source)
}

#[test]
fn rejects_malformed_empty_duplicate_and_unsafe_entries() {
    assert!(parse("{ not json", "t")
        .unwrap_err()
        .0
        .contains("not valid JSON"));
    assert!(parse(r#"{"isos":[]}"#, "t")
        .unwrap_err()
        .0
        .contains("no entries"));
    let dup = r#"{"isos":[
        {"id":"a","name":"A","filename":"a.iso","mirrors":["https://x/a.iso"]},
        {"id":"a","name":"A2","filename":"a2.iso","mirrors":["https://x/a2.iso"]}
    ]}"#;
    assert!(parse(dup, "t").unwrap_err().0.contains("duplicate id"));
    let bad_file = r#"{"isos":[
        {"id":"a","name":"A","filename":"../escape.iso","mirrors":["https://x/a.iso"]}
    ]}"#;
    assert!(parse(bad_file, "t")
        .unwrap_err()
        .0
        .contains("invalid filename"));
    let bad_url = r#"{"isos":[
        {"id":"a","name":"A","filename":"a.iso","mirrors":["file:///etc/passwd"]}
    ]}"#;
    assert!(parse(bad_url, "t")
        .unwrap_err()
        .0
        .contains("invalid mirror URL"));
}

const TWO: &str = r#"{"isos":[
    {"id":"ubuntu","name":"Ubuntu","edition":"24.04","filename":"u.iso","mirrors":["https://x/u.iso"]},
    {"id":"archlinux","name":"Arch Linux","filename":"arch.iso","mirrors":["http://x/a.iso","https://y/a.iso"]}
]}"#;

#[test]
fn find_and_ids_hint() {
    let catalog = parse(TWO, "built-in").unwrap();
    assert_eq!(catalog.source, "built-in");
    assert_eq!(catalog.find("archlinux").unwrap().name, "Arch Linux");
    assert!(catalog.find("nope").is_none());
    assert_eq!(catalog.ids_hint(), "ubuntu, archlinux");
    for e in &catalog.entries {
        assert!(!e.mirrors.is_empty());
        assert!(assert_valid_store_name(&e.filename, &catalog_file_labels()).is_ok());
    }
}

fn one(id: &str, name: &str, mirrors: &[&str]) -> Result<Catalog, CatalogError> {
    parse_catalog(
        Ok(vec![CatalogEntry {
            id: id.to_string(),
            name: name.to_string(),
            edition: None,
            arch: None,
            filename: "a.iso".to_string(),
            mirrors: mirrors.iter().map(|m| m.to_string()).collect(),
        }]),
        "t",
    )
}

#[test]
fn ids_are_quoted_in_the_messages() {
    assert!(is_valid_id("void-linux.2_x"));
    assert!(!is_valid_id(""));
    assert!(!is_valid_id("a b"));
    let e = one("a\"b", "A", &["https://x"]).unwrap_err();
    assert!(e.0.contains(r#""a\"b""#), "{}", e.0);
}

#[test]
fn an_entry_needs_a_name_and_a_mirror() {
    assert!(one("a", "  ", &["https://x"]).is_err());
    assert!(one("a", "A", &[]).is_err());
    assert!(one("a", "A", &["https://x"]).is_ok());
    assert!(one("a", "A", &["http://x"]).is_ok());
    assert!(one("a", "A", &["ftp://x"]).is_err());
}

#[test]
fn a_catalog_is_named_by_where_it_came_from() {
    let from_file = load_catalog(Some("/etc/isos.json"), Ok(decode(TWO))).unwrap();
    assert_eq!(from_file.source, "/etc/isos.json");
    let built_in = load_catalog(None, Ok(decode(TWO))).unwrap();
    assert_eq!(built_in.source, "built-in");
    let unread = load_catalog(Some("/etc/isos.json"), Err("denied".to_string())).unwrap_err();
    assert!(unread.0.contains("/etc/isos.json") && unread.0.contains("denied"));
}
