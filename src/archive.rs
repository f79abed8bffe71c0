//! Looking inside a downloaded artifact: a gzip-compressed tar archive that
//! must hold a non-empty, well-formed `Cargo.toml`.
use crate::errors::JobErr;
use crate::keys::{crate_file_name, key_text, CrateKey};
use crate::text::{push_str, string_of};
use vstd::prelude::*;
use vstd::string::*;

verus! {

/// One file of a tar archive: its path and its bytes.
#[derive(Debug)]
pub struct TarMember {
    pub path: String,
    pub contents: Vec<u8>,
}

/// The paths and bytes of a sequence of archive members.
pub open spec fn member_views(s: Seq<TarMember>) -> Seq<(Seq<char>, Seq<u8>)> {
    s.map_values(|m: TarMember| (m.path@, m.contents@))
}

/// What gzip decompression makes of a byte string; none if it is not a
/// valid gzip stream.
pub uninterp spec fn gunzip_of(b: Seq<u8>) -> Option<Seq<u8>>;

/// The members of a tar archive held in a byte string; none if it is not a
/// readable archive.
pub uninterp spec fn tar_members_of(b: Seq<u8>) -> Option<Seq<(Seq<char>, Seq<u8>)>>;

/// Whether a byte string is a TOML document.
pub uninterp spec fn toml_accepts(b: Seq<u8>) -> bool;

/// Relies on `flate2::read::GzDecoder`: the decompressed bytes of a gzip
/// stream, which depend on the compressed bytes alone.
#[verifier::external_body]
fn gunzip(bytes: &[u8]) -> (r: Option<Vec<u8>>)
    ensures
        r matches Some(v) ==> gunzip_of(bytes@) == Some(v@),
        r is None ==> gunzip_of(bytes@) is None,
{
    let mut out = Vec::new();
    match std::io::Read::read_to_end(&mut flate2::read::GzDecoder::new(bytes), &mut out) {
        Ok(_) => Some(out),
        Err(_) => None,
    }
}

/// Relies on `tar::Archive::entries` and `Entry::path_bytes`: the raw path,
/// read as UTF-8, and the bytes of each member, in archive order; none if any
/// member cannot be read or its path is not UTF-8. All of it depends on the
/// archive's bytes alone.
#[verifier::external_body]
fn tar_members(bytes: &[u8]) -> (r: Option<Vec<TarMember>>)
    ensures
        r matches Some(v) ==> tar_members_of(bytes@) == Some(member_views(v@)),
        r is None ==> tar_members_of(bytes@) is None,
{
    let mut archive = tar::Archive::new(bytes);
    let mut out = Vec::new();
    for entry in archive.entries().ok()? {
        let mut entry = entry.ok()?;
        let path = String::from_utf8(entry.path_bytes().into_owned()).ok()?;
        let mut contents = Vec::new();
        std::io::Read::read_to_end(&mut entry, &mut contents).ok()?;
        out.push(TarMember { path, contents });
    }
    Some(out)
}

/// Relies on `toml::from_slice` into a `toml::Table`: whether the bytes are
/// a UTF-8 TOML document.
#[verifier::external_body]
fn is_toml_document(bytes: &[u8]) -> (r: bool)
    ensures
        r == toml_accepts(bytes@),
{
    toml::from_slice::<toml::Table>(bytes).is_ok()
}

/// The path at which an artifact's archive holds its manifest: `Cargo.toml`
/// at the top.
pub open spec fn is_manifest_path(k: (Seq<char>, Seq<char>), path: Seq<char>) -> bool {
    path == "Cargo.toml"@
}

/// The first member that is the artifact's manifest, if any.
pub open spec fn first_manifest(k: (Seq<char>, Seq<char>), members: Seq<(Seq<char>, Seq<u8>)>) -> Option<int> {
    if exists|i: int| 0 <= i < members.len() && is_manifest_path(k, members[i].0) {
        Some(choose|i: int| 0 <= i < members.len() && is_manifest_path(k, members[i].0) && forall|j: int| 0 <= j < i ==> !is_manifest_path(k, #[trigger] members[j].0))
    } else {
        None
    }
}

/// The error of an archive without a manifest.
pub open spec fn no_manifest_message(k: (Seq<char>, Seq<char>)) -> Seq<char> {
    key_text(k) + " did not have a valid Cargo.toml"@
}

/// The error of an archive whose manifest is empty.
pub open spec fn empty_manifest_message(k: (Seq<char>, Seq<char>)) -> Seq<char> {
    key_text(k) + " has a Cargo.toml but it is empty"@
}

/// Whether `path` is a manifest path of `key`.
pub fn manifest_path_matches(key: &CrateKey, path: &String) -> (r: bool)
    ensures
        r == is_manifest_path(key@, path@),
{
    let top = string_of("Cargo.toml");
    *path == top
}

/// Where the members hold the artifact's manifest: the first member at a
/// manifest path.
pub fn locate_manifest(key: &CrateKey, members: &Vec<TarMember>) -> (r: Option<usize>)
    ensures
        r matches Some(i) ==> i < members.len(),
        match r {
            Some(i) => first_manifest(key@, member_views(members@)) == Some(i as int),
            None => first_manifest(key@, member_views(members@)) is None,
        },
{
    let ghost ms = member_views(members@);
    let mut i: usize = 0;
    while i < members.len()
        invariant
            i <= members.len(),
            ms == member_views(members@),
            forall|j: int| 0 <= j < i ==> !is_manifest_path(key@, #[trigger] ms[j].0),
        decreases members.len() - i,
    {
        if manifest_path_matches(key, &members[i].path) {
            proof {
                assert(ms[i as int].0 == members@[i as int].path@);
                let c = choose|c: int| 0 <= c < ms.len() && is_manifest_path(key@, ms[c].0) && forall|j: int| 0 <= j < c ==> !is_manifest_path(key@, #[trigger] ms[j].0);
                if c < i {
                } else if c > i {
                    assert(!is_manifest_path(key@, ms[i as int].0));
                }
            }
            return Some(i);
        }
        assert(ms[i as int].0 == members@[i as int].path@);
        i = i + 1;
    }
    None
}

/// Checks a manifest's bytes, given whether they are a TOML document: empty
/// bytes, or bytes that are no TOML document, are errors.
pub fn check_manifest_bytes(key: &CrateKey, member: &TarMember, is_toml: bool) -> (r: Result<(), JobErr>)
    ensures
        member.contents@.len() == 0 ==> (r matches Err(JobErr::OtherErr(m)) && m@ == empty_manifest_message(key@)),
        member.contents@.len() > 0 && !is_toml ==> (r matches Err(JobErr::ParseErr { path, .. }) && path@ == member.path@),
        member.contents@.len() > 0 && is_toml ==> r is Ok,
{
    if member.contents.len() == 0 {
        proof {
            reveal_strlit(" has a Cargo.toml but it is empty");
        }
        let mut m = key.to_key_text();
        push_str(&mut m, " has a Cargo.toml but it is empty");
        return Err(JobErr::OtherErr(m));
    }
    if !is_toml {
        return Err(JobErr::ParseErr { path: member.path.clone(), line: string_of("") });
    }
    Ok(())
}

/// Looks inside a downloaded artifact: it must be a gzip stream of a tar
/// archive that holds a manifest (see [`first_manifest`]) which is a
/// non-empty TOML document.
pub fn inspect_crate_archive(key: &CrateKey, archive: &Vec<u8>) -> (r: Result<(), JobErr>)
    ensures
        match gunzip_of(archive@) {
            None => r matches Err(JobErr::IoErr(_)),
            Some(t) => match tar_members_of(t) {
                None => r matches Err(JobErr::IoErr(_)),
                Some(ms) => match first_manifest(key@, ms) {
                    None => (r matches Err(JobErr::OtherErr(m)) && m@ == no_manifest_message(key@)),
                    Some(i) => if ms[i].1.len() == 0 {
                        (r matches Err(JobErr::OtherErr(m)) && m@ == empty_manifest_message(key@))
                    } else if toml_accepts(ms[i].1) {
                        r is Ok
                    } else {
                        r matches Err(JobErr::ParseErr { .. })
                    },
                },
            },
        },
{
    let tarball = match gunzip(archive.as_slice()) {
        Some(t) => t,
        None => {
            let f = key.file_name();
            return Err(JobErr::IoErr(f));
        },
    };
    let members = match tar_members(tarball.as_slice()) {
        Some(ms) => ms,
        None => {
            let f = key.file_name();
            return Err(JobErr::IoErr(f));
        },
    };
    match locate_manifest(key, &members) {
        None => {
            proof {
                reveal_strlit(" did not have a valid Cargo.toml");
            }
            let mut m = key.to_key_text();
            push_str(&mut m, " did not have a valid Cargo.toml");
            Err(JobErr::OtherErr(m))
        },
        Some(i) => {
            let member = &members[i];
            assert(member_views(members@)[i as int] == (member.path@, member.contents@));
            let is_toml = is_toml_document(member.contents.as_slice());
            check_manifest_bytes(key, member, is_toml)
        },
    }
}

} // verus!
