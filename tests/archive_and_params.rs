use std::io::Write;
use stockpile::archive::{check_manifest_bytes, inspect_crate_archive, locate_manifest, TarMember};
use stockpile::errors::JobErr;
use stockpile::index::GenericIndexParams;
use stockpile::keys::CrateKey;

fn key(name: &str, version: &str) -> CrateKey {
    CrateKey { name: name.to_string(), version: version.to_string() }
}

fn crate_archive(files: &[(&str, &[u8])]) -> Vec<u8> {
    let mut builder = tar::Builder::new(Vec::new());
    for (path, data) in files {
        let mut header = tar::Header::new_gnu();
        header.set_size(data.len() as u64);
        header.set_mode(0o644);
        header.set_cksum();
        builder.append_data(&mut header, path, *data).unwrap();
    }
    let tarball = builder.into_inner().unwrap();
    let mut gz = flate2::write::GzEncoder::new(Vec::new(), flate2::Compression::default());
    gz.write_all(&tarball).unwrap();
    gz.finish().unwrap()
}

#[test]
fn archive_with_manifest_passes() {
    let bytes = crate_archive(&[("src/lib.rs", b"// code"), ("Cargo.toml", b"[package]\nname = \"example\"\n")]);
    assert_eq!(inspect_crate_archive(&key("example", "1.0.0"), &bytes), Ok(()));
}

#[test]
fn manifest_below_the_top_does_not_count() {
    let bytes = crate_archive(&[("example-1.0.0/Cargo.toml", b"[package]\nname = \"example\"\n")]);
    assert_eq!(
        inspect_crate_archive(&key("example", "1.0.0"), &bytes),
        Err(JobErr::OtherErr("example:1.0.0 did not have a valid Cargo.toml".to_string()))
    );
}

#[test]
fn archive_without_manifest_fails() {
    let bytes = crate_archive(&[("example-1.0.0/src/lib.rs", b"// code")]);
    assert_eq!(
        inspect_crate_archive(&key("example", "1.0.0"), &bytes),
        Err(JobErr::OtherErr("example:1.0.0 did not have a valid Cargo.toml".to_string()))
    );
}

#[test]
fn archive_with_empty_manifest_fails() {
    let bytes = crate_archive(&[("Cargo.toml", b"")]);
    assert_eq!(
        inspect_crate_archive(&key("example", "1.0.0"), &bytes),
        Err(JobErr::OtherErr("example:1.0.0 has a Cargo.toml but it is empty".to_string()))
    );
}

#[test]
fn archive_with_malformed_manifest_fails() {
    let bytes = crate_archive(&[("Cargo.toml", b"[package\nname = ")]);
    assert!(matches!(inspect_crate_archive(&key("example", "1.0.0"), &bytes), Err(JobErr::ParseErr { .. })));
}

#[test]
fn bytes_that_are_not_gzip_fail() {
    assert!(matches!(inspect_crate_archive(&key("example", "1.0.0"), &b"plain".to_vec()), Err(JobErr::IoErr(_))));
}

#[test]
fn manifest_is_located_by_path() {
    let members = vec![
        TarMember { path: "other-1.0.0/Cargo.toml".to_string(), contents: b"x".to_vec() },
        TarMember { path: "example-1.0.0/Cargo.toml".to_string(), contents: b"y".to_vec() },
        TarMember { path: "Cargo.toml".to_string(), contents: b"z".to_vec() },
    ];
    assert_eq!(locate_manifest(&key("example", "1.0.0"), &members), Some(2));
    assert_eq!(locate_manifest(&key("example", "1.0.0"), &members[..2].iter().map(|m| TarMember { path: m.path.clone(), contents: m.contents.clone() }).collect()), None);
}

#[test]
fn manifest_bytes_are_judged() {
    let k = key("a", "1");
    let empty = TarMember { path: "Cargo.toml".to_string(), contents: Vec::new() };
    assert_eq!(check_manifest_bytes(&k, &empty, true), Err(JobErr::OtherErr("a:1 has a Cargo.toml but it is empty".to_string())));
    let full = TarMember { path: "Cargo.toml".to_string(), contents: b"x = 1".to_vec() };
    assert_eq!(check_manifest_bytes(&k, &full, true), Ok(()));
    assert!(matches!(check_manifest_bytes(&k, &full, false), Err(JobErr::ParseErr { .. })));
}

#[test]
fn index_params_parse_the_url() {
    let p = GenericIndexParams::new("http://not-resolvable", None).unwrap();
    assert_eq!(p.url, "http://not-resolvable/".to_string());
    assert_eq!(p.pre_pulled_index_path, None);
    assert_eq!(GenericIndexParams::new("not a url", None).err(), Some(JobErr::ConfigErr("not a url".to_string())));
}

#[test]
fn index_params_from_a_parsed_url() {
    let p = GenericIndexParams::from_parsed_url("x", Some("http://a/".to_string()), Some("/tmp/i".to_string())).unwrap();
    assert_eq!(p.url, "http://a/".to_string());
    assert_eq!(p.pre_pulled_index_path, Some("/tmp/i".to_string()));
    assert_eq!(GenericIndexParams::from_parsed_url("x", None, None).err(), Some(JobErr::ConfigErr("x".to_string())));
}
