use lat::error::LatError;
use lat::scanner::{decode_listing, scan_listing, ListingEntry};

fn entry(name: &str, url: Option<&str>) -> ListingEntry {
    ListingEntry { name: name.to_string(), download_url: url.map(|u| u.to_string()) }
}

#[test]
fn scan_finds_import_and_snippets() {
    let entries = vec![
        entry("a.sty", Some("https://raw/a.sty")),
        entry("b.txt", Some("https://raw/b.txt")),
        entry("snippets-x.json", Some("https://raw/snippets-x.json")),
    ];
    let found = scan_listing(&entries).unwrap();
    assert_eq!(found.import_file_name, "a.sty");
    assert_eq!(found.import_url, "https://raw/a.sty");
    assert_eq!(found.import_base_name, "a");
    assert_eq!(found.snippets_url, Some("https://raw/snippets-x.json".to_string()));
}

#[test]
fn scan_without_import_entry_is_not_found() {
    let entries = vec![entry("b.txt", Some("u1")), entry("snippets.json", Some("u2"))];
    assert_eq!(scan_listing(&entries).unwrap_err(), LatError::ResolutionNotFound);
}

#[test]
fn scan_of_empty_listing_is_not_found() {
    assert_eq!(scan_listing(&vec![]).unwrap_err(), LatError::ResolutionNotFound);
}

#[test]
fn scan_without_snippets_leaves_them_empty() {
    let entries = vec![entry("style.sty", Some("u"))];
    let found = scan_listing(&entries).unwrap();
    assert_eq!(found.import_base_name, "style");
    assert_eq!(found.snippets_url, None);
}

#[test]
fn scan_keeps_the_last_match_of_each_kind() {
    let entries = vec![
        entry("snippets-1.json", Some("s1")),
        entry("first.sty", Some("i1")),
        entry("snippets-2.json", Some("s2")),
        entry("second.sty", Some("i2")),
    ];
    let found = scan_listing(&entries).unwrap();
    assert_eq!(found.import_url, "i2");
    assert_eq!(found.import_file_name, "second.sty");
    assert_eq!(found.snippets_url, Some("s2".to_string()));
}

#[test]
fn scan_passes_over_entries_without_download_link() {
    let entries = vec![entry("good.sty", Some("i1")), entry("later.sty", None)];
    let found = scan_listing(&entries).unwrap();
    assert_eq!(found.import_url, "i1");
}

#[test]
fn scan_treats_snippets_named_with_import_suffix_as_snippets() {
    let entries = vec![entry("snippets.sty", Some("s")), entry("x.txt", Some("t"))];
    assert_eq!(scan_listing(&entries).unwrap_err(), LatError::ResolutionNotFound);
}

#[test]
fn decode_reads_names_and_links() {
    let body = r#"[
        {"name": "a.sty", "download_url": "https://raw/a.sty", "size": 10},
        {"name": "dir", "download_url": null, "type": "dir"},
        {"size": 3}
    ]"#;
    let entries = decode_listing(body).unwrap();
    assert_eq!(entries.len(), 2);
    assert_eq!(entries[0].name, "a.sty");
    assert_eq!(entries[0].download_url, Some("https://raw/a.sty".to_string()));
    assert_eq!(entries[1].name, "dir");
    assert_eq!(entries[1].download_url, None);
}

#[test]
fn decode_rejects_text_that_is_not_json() {
    assert_eq!(decode_listing("not json").unwrap_err(), LatError::DecodeFailure);
}

#[test]
fn decode_rejects_an_object() {
    assert_eq!(decode_listing(r#"{"message": "Not Found"}"#).unwrap_err(), LatError::DecodeFailure);
}
