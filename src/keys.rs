//! Artifact keys and their text forms: file names, manifest lines, object
//! keys, storage paths and mirror URLs.
use crate::errors::JobErr;
use crate::shard::{get_path_for_crate, shard_path};
use crate::text::{joined, lower_of, push_str, single_line, split_lines, splits_into, string_of, views};
use vstd::prelude::*;
use vstd::string::*;

verus! {

/// A unique key for one published artifact: its name and exact version.
#[derive(Debug, Eq, Hash)]
pub struct CrateKey {
    pub name: String,
    pub version: String,
}

impl View for CrateKey {
    type V = (Seq<char>, Seq<char>);

    open spec fn view(&self) -> (Seq<char>, Seq<char>) {
        (self.name@, self.version@)
    }
}

impl CrateKey {
    /// Builds a key from its two parts.
    pub fn new(name: &str, version: &str) -> (r: CrateKey)
        ensures
            r@ == (name@, version@),
    {
        CrateKey { name: String::from_str(name), version: String::from_str(version) }
    }
}

impl Clone for CrateKey {
    fn clone(&self) -> (r: Self)
        ensures
            r == *self,
    {
        CrateKey { name: self.name.clone(), version: self.version.clone() }
    }
}

impl PartialEq for CrateKey {
    fn eq(&self, other: &CrateKey) -> (r: bool)
        ensures
            r == (self@ == other@),
    {
        self.name == other.name && self.version == other.version
    }
}

impl vstd::std_specs::cmp::PartialEqSpecImpl for CrateKey {
    open spec fn obeys_eq_spec() -> bool {
        true
    }

    open spec fn eq_spec(&self, other: &CrateKey) -> bool {
        self@ == other@
    }
}

/// No colon in `s`.
pub open spec fn colon_free(s: Seq<char>) -> bool {
    forall|i: int| 0 <= i < s.len() ==> s[i] != ':'
}

/// A key that its text form `name:version` gives back: neither part holds a
/// colon, so the text holds exactly one.
pub open spec fn well_formed(k: (Seq<char>, Seq<char>)) -> bool {
    colon_free(k.0) && colon_free(k.1)
}

/// The text form of a key, as manifests and object stores hold it.
pub open spec fn key_text(k: (Seq<char>, Seq<char>)) -> Seq<char> {
    k.0 + seq![':'] + k.1
}

/// The key whose text form is `s`, if any.
pub open spec fn decode_key(s: Seq<char>) -> Option<(Seq<char>, Seq<char>)> {
    if exists|k: (Seq<char>, Seq<char>)| well_formed(k) && s == key_text(k) {
        Some(choose|k: (Seq<char>, Seq<char>)| well_formed(k) && s == key_text(k))
    } else {
        None
    }
}

/// The canonical file name of an artifact: `name-version.crate`.
pub open spec fn crate_file_name(k: (Seq<char>, Seq<char>)) -> Seq<char> {
    k.0 + seq!['-'] + k.1 + seq!['.', 'c', 'r', 'a', 't', 'e']
}

/// The keys that the lines of a manifest name, skipping blank lines; none if
/// any other line is not the text form of a key.
pub open spec fn decode_lines(lines: Seq<Seq<char>>) -> Option<Seq<(Seq<char>, Seq<char>)>>
    decreases lines.len(),
{
    if lines.len() == 0 {
        Some(Seq::empty())
    } else {
        match decode_lines(lines.drop_last()) {
            None => None,
            Some(ks) => if lines.last().len() == 0 {
                Some(ks)
            } else {
                match decode_key(lines.last()) {
                    None => None,
                    Some(k) => Some(ks.push(k)),
                }
            },
        }
    }
}

/// The views of a vector of keys.
pub open spec fn key_views(v: Seq<CrateKey>) -> Seq<(Seq<char>, Seq<char>)> {
    v.map_values(|k: CrateKey| k@)
}

/// Two well-formed keys with one text form are one key.
pub proof fn lemma_key_text_unique(a: (Seq<char>, Seq<char>), b: (Seq<char>, Seq<char>))
    requires
        well_formed(a),
        well_formed(b),
        key_text(a) == key_text(b),
    ensures
        a == b,
{
    let s = key_text(a);
    if a.0.len() < b.0.len() {
        assert(s[a.0.len() as int] == ':');
        assert(s[a.0.len() as int] == b.0[a.0.len() as int]);
    } else if b.0.len() < a.0.len() {
        assert(s[b.0.len() as int] == ':');
        assert(s[b.0.len() as int] == a.0[b.0.len() as int]);
    }
    assert(a.0 =~= s.subrange(0, a.0.len() as int));
    assert(b.0 =~= s.subrange(0, b.0.len() as int));
    assert(a.1 =~= s.subrange(a.0.len() as int + 1, s.len() as int));
    assert(b.1 =~= s.subrange(b.0.len() as int + 1, s.len() as int));
}

impl CrateKey {
    /// The canonical file name of this artifact: `name-version.crate`.
    pub fn file_name(&self) -> (r: String)
        ensures
            r@ == crate_file_name(self@),
    {
        proof {
            reveal_strlit("-");
            reveal_strlit(".crate");
        }
        let mut r = string_of(self.name.as_str());
        push_str(&mut r, "-");
        push_str(&mut r, self.version.as_str());
        push_str(&mut r, ".crate");
        r
    }

    /// The text form `name:version`.
    pub fn to_key_text(&self) -> (r: String)
        ensures
            r@ == key_text(self@),
    {
        proof {
            reveal_strlit(":");
        }
        let mut r = string_of(self.name.as_str());
        push_str(&mut r, ":");
        push_str(&mut r, self.version.as_str());
        r
    }

    /// The manifest line of this key: its text form and a line break.
    pub fn manifest_line(&self) -> (r: String)
        ensures
            r@ == key_text(self@) + seq!['\n'],
    {
        proof {
            reveal_strlit("\n");
        }
        let mut r = self.to_key_text();
        push_str(&mut r, "\n");
        r
    }

    /// Reads a key back from its text form `name:version`.
    pub fn from_key_text(s: &str) -> (r: Option<CrateKey>)
        ensures
            r matches Some(k) ==> decode_key(s@) == Some(k@),
            r is None ==> decode_key(s@) is None,
    {
        let n = s.unicode_len();
        let mut p: usize = 0;
        while p < n && s.get_char(p) != ':'
            invariant
                n == s@.len(),
                p <= n,
                forall|j: int| 0 <= j < p ==> s@[j] != ':',
            decreases n - p,
        {
            p = p + 1;
        }
        if p == n {
            proof {
                lemma_no_key_without_colon(s@);
            }
            return None;
        }
        let mut q: usize = p + 1;
        let mut clean = true;
        while q < n
            invariant
                n == s@.len(),
                p < q,
                p < n,
                clean ==> forall|j: int| p < j < q && j < n ==> s@[j] != ':',
                !clean ==> exists|j: int| p < j < n && s@[j] == ':',
            decreases n - q,
        {
            if s.get_char(q) == ':' {
                clean = false;
            }
            q = q + 1;
        }
        if !clean {
            proof {
                if exists|k: (Seq<char>, Seq<char>)| well_formed(k) && s@ == key_text(k) {
                    let k = choose|k: (Seq<char>, Seq<char>)| well_formed(k) && s@ == key_text(k);
                    assert(s@[k.0.len() as int] == ':');
                    assert forall|j: int| 0 <= j < k.0.len() implies s@[j] != ':' by {
                        assert(s@[j] == k.0[j]);
                    }
                    assert forall|j: int| k.0.len() < j < n implies s@[j] != ':' by {
                        assert(s@[j] == k.1[j - k.0.len() - 1]);
                    }
                    assert(p == k.0.len());
                }
            }
            return None;
        }
        let name = string_of(s.substring_char(0, p));
        let version = string_of(s.substring_char(p + 1, n));
        let r = CrateKey { name, version };
        proof {
            assert forall|j: int| 0 <= j < r@.0.len() implies r@.0[j] != ':' by {
                assert(r@.0[j] == s@[j]);
            }
            assert forall|j: int| 0 <= j < r@.1.len() implies r@.1[j] != ':' by {
                assert(r@.1[j] == s@[j + p + 1]);
            }
            assert(s@ =~= key_text(r@));
            let c = choose|k: (Seq<char>, Seq<char>)| well_formed(k) && s@ == key_text(k);
            lemma_key_text_unique(c, r@);
        }
        Some(r)
    }
}

/// A text without a colon is no key's text form.
pub proof fn lemma_no_key_without_colon(s: Seq<char>)
    requires
        colon_free(s),
    ensures
        decode_key(s) is None,
{
    if exists|k: (Seq<char>, Seq<char>)| well_formed(k) && s == key_text(k) {
        let k = choose|k: (Seq<char>, Seq<char>)| well_formed(k) && s == key_text(k);
        assert(s[k.0.len() as int] == ':');
    }
}

/// Reads the keys of a manifest: one `name:version` line per key, blank
/// lines skipped. A malformed line fails the whole manifest.
pub fn parse_manifest(contents: &str) -> (r: Result<Vec<CrateKey>, JobErr>)
    ensures
        exists|lines: Seq<Seq<char>>|
            splits_into(contents@, lines) && match r {
                Ok(keys) => decode_lines(lines) == Some(key_views(keys@)),
                Err(e) => decode_lines(lines) is None && e is ParseErr,
            },
{
    let lines = split_lines(contents);
    let mut keys: Vec<CrateKey> = Vec::new();
    let mut i: usize = 0;
    while i < lines.len()
        invariant
            i <= lines.len(),
            splits_into(contents@, views(lines@)),
            decode_lines(views(lines@).subrange(0, i as int)) == Some(key_views(keys@)),
        decreases lines.len() - i,
    {
        let ghost done = views(lines@).subrange(0, i as int);
        assert(views(lines@).subrange(0, i + 1).drop_last() =~= done);
        let line = &lines[i];
        if line.unicode_len() > 0 {
            match CrateKey::from_key_text(line.as_str()) {
                Some(k) => {
                    let ghost before = keys@;
                    keys.push(k);
                    assert(key_views(keys@) =~= key_views(before).push(k@));
                },
                None => {
                    let path = string_of(MANIFEST_NAME);
                    proof {
                        assert(splits_into(contents@, views(lines@)));
                        lemma_decode_lines_prefix_none(views(lines@), i + 1);
                        assert(views(lines@).subrange(0, lines@.len() as int) =~= views(lines@));
                    }
                    return Err(JobErr::ParseErr { path, line: line.clone() });
                },
            }
        }
        i = i + 1;
    }
    assert(views(lines@).subrange(0, lines@.len() as int) =~= views(lines@));
    assert(splits_into(contents@, views(lines@)));
    Ok(keys)
}

/// Once a prefix of the lines fails to decode, so does every longer prefix.
pub proof fn lemma_decode_lines_prefix_none(lines: Seq<Seq<char>>, n: int)
    requires
        0 <= n <= lines.len(),
        decode_lines(lines.subrange(0, n)) is None,
    ensures
        decode_lines(lines.subrange(0, lines.len() as int)) is None,
    decreases lines.len() - n,
{
    if n < lines.len() {
        assert(lines.subrange(0, n + 1).drop_last() =~= lines.subrange(0, n));
        lemma_decode_lines_prefix_none(lines, n + 1);
    }
}

/// The name of the manifest file of a local artifact store.
pub const MANIFEST_NAME: &'static str = "index.txt";

/// The keys of a bucket listing, one object key each; none if any object key
/// is not the text form of a key.
pub open spec fn decode_all(objects: Seq<Seq<char>>) -> Option<Seq<(Seq<char>, Seq<char>)>>
    decreases objects.len(),
{
    if objects.len() == 0 {
        Some(Seq::empty())
    } else {
        match decode_all(objects.drop_last()) {
            None => None,
            Some(ks) => match decode_key(objects.last()) {
                None => None,
                Some(k) => Some(ks.push(k)),
            },
        }
    }
}

/// Reads the keys of an object-storage listing. One malformed object key
/// fails the whole listing.
pub fn decode_object_keys(bucket: &str, objects: &Vec<String>) -> (r: Result<Vec<CrateKey>, JobErr>)
    ensures
        match r {
            Ok(keys) => decode_all(views(objects@)) == Some(key_views(keys@)),
            Err(e) => decode_all(views(objects@)) is None && e is ParseErr,
        },
{
    let mut keys: Vec<CrateKey> = Vec::new();
    let mut i: usize = 0;
    while i < objects.len()
        invariant
            i <= objects.len(),
            decode_all(views(objects@).subrange(0, i as int)) == Some(key_views(keys@)),
        decreases objects.len() - i,
    {
        assert(views(objects@).subrange(0, i + 1).drop_last() =~= views(objects@).subrange(0, i as int));
        match CrateKey::from_key_text(objects[i].as_str()) {
            Some(k) => {
                let ghost before = keys@;
                keys.push(k);
                assert(key_views(keys@) =~= key_views(before).push(k@));
            },
            None => {
                proof {
                    lemma_decode_all_prefix_none(views(objects@), i + 1);
                    assert(views(objects@).subrange(0, objects@.len() as int) =~= views(objects@));
                }
                return Err(JobErr::ParseErr { path: string_of(bucket), line: objects[i].clone() });
            },
        }
        i = i + 1;
    }
    assert(views(objects@).subrange(0, objects@.len() as int) =~= views(objects@));
    Ok(keys)
}

/// Once a prefix of a listing fails to decode, so does every longer prefix.
pub proof fn lemma_decode_all_prefix_none(objects: Seq<Seq<char>>, n: int)
    requires
        0 <= n <= objects.len(),
        decode_all(objects.subrange(0, n)) is None,
    ensures
        decode_all(objects.subrange(0, objects.len() as int)) is None,
    decreases objects.len() - n,
{
    if n < objects.len() {
        assert(objects.subrange(0, n + 1).drop_last() =~= objects.subrange(0, n));
        lemma_decode_all_prefix_none(objects, n + 1);
    }
}

/// A well-formed key is read back from its text form.
pub proof fn lemma_key_text_round_trip(k: (Seq<char>, Seq<char>))
    requires
        well_formed(k),
    ensures
        decode_key(key_text(k)) == Some(k),
{
    let s = key_text(k);
    assert(well_formed(k) && s == key_text(k));
    let c = choose|c: (Seq<char>, Seq<char>)| well_formed(c) && s == key_text(c);
    lemma_key_text_unique(c, k);
}

/// The manifest lines of a sequence of keys.
pub open spec fn manifest_lines(keys: Seq<(Seq<char>, Seq<char>)>) -> Seq<Seq<char>> {
    keys.map_values(|k: (Seq<char>, Seq<char>)| key_text(k))
}

/// A manifest written one line per well-formed key without line breaks, in
/// order, reads back as exactly those keys: the text is those lines, each
/// followed by a break, and they decode to the keys.
pub proof fn lemma_manifest_round_trip(keys: Seq<(Seq<char>, Seq<char>)>)
    requires
        forall|i: int|
            0 <= i < keys.len() ==> well_formed(#[trigger] keys[i]) && single_line(keys[i].0)
                && single_line(keys[i].1),
    ensures
        splits_into(joined(manifest_lines(keys)), manifest_lines(keys)),
        decode_lines(manifest_lines(keys)) == Some(keys),
    decreases keys.len(),
{
    let lines = manifest_lines(keys);
    assert forall|i: int| 0 <= i < lines.len() implies single_line(#[trigger] lines[i]) by {
        let k = keys[i];
        assert(well_formed(k));
        assert forall|j: int| 0 <= j < lines[i].len() implies lines[i][j] != '\n' by {
            if j < k.0.len() {
                assert(lines[i][j] == k.0[j]);
            } else if j > k.0.len() {
                assert(lines[i][j] == k.1[j - k.0.len() - 1]);
            }
        }
    }
    if keys.len() > 0 {
        let rest = keys.drop_last();
        assert forall|i: int| 0 <= i < rest.len() implies well_formed(#[trigger] rest[i])
            && single_line(rest[i].0) && single_line(rest[i].1) by {
            assert(rest[i] == keys[i]);
        }
        lemma_manifest_round_trip(rest);
        assert(lines.drop_last() =~= manifest_lines(rest));
        lemma_key_text_round_trip(keys.last());
        assert(lines.last().len() > 0);
        assert(keys =~= rest.push(keys.last()));
    } else {
        assert(lines =~= Seq::<Seq<char>>::empty());
    }
}

impl CrateKey {
    /// Where a local store keeps this artifact: below the shard path of its
    /// lower-cased name, under its file name.
    pub fn storage_path(&self) -> (r: String)
        requires
            self.name@.len() > 0,
        ensures
            r@ == shard_path(lower_of(self.name@)) + seq!['/'] + crate_file_name(self@),
    {
        proof {
            reveal_strlit("/");
        }
        let mut r = get_path_for_crate(self.name.as_str());
        push_str(&mut r, "/");
        let f = self.file_name();
        push_str(&mut r, f.as_str());
        r
    }

    /// The URL of this artifact on an HTTP mirror below `prefix`:
    /// `prefix/name/name-version.crate`.
    pub fn mirror_url(&self, prefix: &str) -> (r: String)
        ensures
            r@ == prefix@ + seq!['/'] + self.name@ + seq!['/'] + crate_file_name(self@),
    {
        proof {
            reveal_strlit("/");
        }
        let mut r = string_of(prefix);
        push_str(&mut r, "/");
        push_str(&mut r, self.name.as_str());
        push_str(&mut r, "/");
        let f = self.file_name();
        push_str(&mut r, f.as_str());
        r
    }
}

} // verus!
