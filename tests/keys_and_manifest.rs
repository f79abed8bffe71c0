use stockpile::errors::JobErr;
use stockpile::keys::{decode_object_keys, parse_manifest, CrateKey};
use stockpile::text::split_lines;

fn key(name: &str, version: &str) -> CrateKey {
    CrateKey { name: name.to_string(), version: version.to_string() }
}

#[test]
fn file_name_and_manifest_line() {
    let k = key("serde", "1.0.0");
    assert_eq!(k.file_name(), "serde-1.0.0.crate".to_string());
    assert_eq!(k.to_key_text(), "serde:1.0.0".to_string());
    assert_eq!(k.manifest_line(), "serde:1.0.0\n".to_string());
}

#[test]
fn key_text_round_trip() {
    let k = key("example", "1.0.0");
    assert_eq!(CrateKey::from_key_text(&k.to_key_text()), Some(k));
}

#[test]
fn malformed_key_texts_are_refused() {
    assert_eq!(CrateKey::from_key_text("nocolon"), None);
    assert_eq!(CrateKey::from_key_text("a:b:c"), None);
    assert_eq!(CrateKey::from_key_text(""), None);
}

#[test]
fn key_texts_with_empty_parts_are_read() {
    assert_eq!(CrateKey::from_key_text(":1.0.0"), Some(key("", "1.0.0")));
    assert_eq!(CrateKey::from_key_text("name:"), Some(key("name", "")));
    assert_eq!(decode_object_keys("bucket", &vec![":1.0".to_string()]), Ok(vec![key("", "1.0")]));
}

#[test]
fn empty_manifest_has_no_keys() {
    assert_eq!(parse_manifest(""), Ok(Vec::new()));
}

#[test]
fn manifest_lines_become_keys_in_order() {
    let text = "example:1.0.0\n\nother:0.2.0\n";
    assert_eq!(parse_manifest(text), Ok(vec![key("example", "1.0.0"), key("other", "0.2.0")]));
}

#[test]
fn manifest_without_final_break() {
    assert_eq!(parse_manifest("a:1"), Ok(vec![key("a", "1")]));
}

#[test]
fn malformed_manifest_line_fails_the_listing() {
    match parse_manifest("a:1\nbroken\n") {
        Err(JobErr::ParseErr { path, line }) => {
            assert_eq!(path, "index.txt".to_string());
            assert_eq!(line, "broken".to_string());
        }
        other => panic!("unexpected {:?}", other),
    }
}

#[test]
fn split_lines_keeps_blank_lines() {
    assert_eq!(split_lines("a\n\nb"), vec!["a".to_string(), "".to_string(), "b".to_string()]);
    assert_eq!(split_lines("a\n"), vec!["a".to_string()]);
    assert_eq!(split_lines(""), Vec::<String>::new());
}

#[test]
fn appended_manifest_lines_read_back() {
    let keys = vec![key("example", "1.0.0"), key("Other", "0.2.0-beta")];
    let mut text = String::new();
    for k in keys.iter() {
        text.push_str(&k.manifest_line());
    }
    assert_eq!(parse_manifest(&text), Ok(keys));
}

#[test]
fn object_listing_decodes_or_fails_whole() {
    let ok = vec!["a:1".to_string(), "b:2".to_string()];
    assert_eq!(decode_object_keys("bucket", &ok), Ok(vec![key("a", "1"), key("b", "2")]));
    let bad = vec!["a:1".to_string(), "junk".to_string()];
    assert_eq!(
        decode_object_keys("bucket", &bad),
        Err(JobErr::ParseErr { path: "bucket".to_string(), line: "junk".to_string() })
    );
}

#[test]
fn storage_path_and_mirror_url() {
    assert_eq!(key("Serde", "1.0.0").storage_path(), "se/rd/serde/Serde-1.0.0.crate".to_string());
    assert_eq!(key("a", "0.1.0").storage_path(), "1/a/a-0.1.0.crate".to_string());
    assert_eq!(
        key("serde", "1.0.0").mirror_url("http://mirror/crates"),
        "http://mirror/crates/serde/serde-1.0.0.crate".to_string()
    );
}

#[test]
fn content_lines_drop_empty_lines() {
    assert_eq!(
        stockpile::text::content_lines("{\"a\":1}\n\n{\"b\":2}\n"),
        vec!["{\"a\":1}".to_string(), "{\"b\":2}".to_string()]
    );
    assert_eq!(stockpile::text::content_lines("\n\n"), Vec::<String>::new());
}
