//! The in-memory index: the records of every leaf file of an index tree,
//! reachable by key. Reading the tree is the caller's work; each leaf arrives
//! here parsed.
use crate::entries::{AugmentedIndexEntry, IndexEntry, KeyedRecord};
use crate::errors::JobErr;
use crate::keys::{key_views, CrateKey};
use crate::reconcile::contains_key;
use crate::text::string_of;
use vstd::prelude::*;
use vstd::string::*;

verus! {

/// Whether the tree walk passes over a directory entry of this name: the
/// repository's own `.git` and the index's `config.json` are no leaves.
pub fn skipped_in_index(name: &str) -> (r: bool)
    ensures
        r == (name@ == ".git"@ || name@ == "config.json"@),
{
    let n = string_of(name);
    n == string_of(".git") || n == string_of("config.json")
}

/// The parsed records of one leaf file: every version of one artifact name.
#[derive(Debug)]
pub struct IndexLeaf<T> {
    /// Where the leaf was read from.
    pub path: String,
    /// Its records, in file order.
    pub entries: Vec<T>,
}

/// The records of `leaves`, the last leaf's first and each leaf's in file
/// order.
pub open spec fn records_of<T>(leaves: Seq<IndexLeaf<T>>) -> Seq<T>
    decreases leaves.len(),
{
    if leaves.len() == 0 {
        Seq::empty()
    } else {
        leaves.last().entries@ + records_of(leaves.drop_last())
    }
}

/// The keys of a sequence of records.
pub open spec fn record_keys<T: KeyedRecord>(records: Seq<T>) -> Seq<(Seq<char>, Seq<char>)> {
    records.map_values(|e: T| e.key_view())
}

/// In records whose keys are unique, a key names one record: what a lookup
/// by the key of a loaded record returns is that record, unchanged.
pub proof fn lemma_key_names_one_record<T: KeyedRecord>(records: Seq<T>, a: T, b: T)
    requires
        record_keys(records).no_duplicates(),
        records.contains(a),
        records.contains(b),
        a.key_view() == b.key_view(),
    ensures
        a == b,
{
    let i = choose|i: int| 0 <= i < records.len() && records[i] == a;
    let j = choose|j: int| 0 <= j < records.len() && records[j] == b;
    assert(record_keys(records)[i] == record_keys(records)[j]);
}

/// A loaded index: every record, and the key of each, no key twice.
pub struct GenericIndex<T> {
    entries: Vec<T>,
    keys: Vec<CrateKey>,
}

/// The upstream index, of [`IndexEntry`] records.
pub type CratesIoIndex = GenericIndex<IndexEntry>;

/// The augmented index, of [`AugmentedIndexEntry`] records.
pub type AugmentedIndex = GenericIndex<AugmentedIndexEntry>;

impl<T: KeyedRecord> GenericIndex<T> {
    /// The records of the index.
    pub closed spec fn records(&self) -> Seq<T> {
        self.entries@
    }

    /// Each key stands for its record and no key stands twice.
    pub closed spec fn well_formed(&self) -> bool {
        &&& key_views(self.keys@) == record_keys(self.entries@)
        &&& key_views(self.keys@).no_duplicates()
    }

    /// A well-formed index holds each key once.
    pub proof fn lemma_keys_unique(&self)
        requires
            self.well_formed(),
        ensures
            record_keys(self.records()).no_duplicates(),
    {
    }

    /// Builds the index from the parsed leaves of an index tree. A key that
    /// two records share marks a corrupt index and fails the whole load.
    #[verifier::loop_isolation(false)]
    pub fn from_leaves(leaves: Vec<IndexLeaf<T>>) -> (r: Result<GenericIndex<T>, JobErr>)
        ensures
            match r {
                Ok(index) => index.well_formed() && index.records() == records_of(leaves@),
                Err(e) => !record_keys(records_of(leaves@)).no_duplicates() && e is OtherErr,
            },
    {
        let ghost all = records_of(leaves@);
        let mut leaves = leaves;
        let mut entries: Vec<T> = Vec::new();
        let mut keys: Vec<CrateKey> = Vec::new();
        while leaves.len() > 0
            invariant
                all == entries@ + records_of(leaves@),
                key_views(keys@) == record_keys(entries@),
                key_views(keys@).no_duplicates(),
            decreases leaves.len(),
        {
            let ghost rest = leaves@;
            let mut leaf = leaves.pop().unwrap();
            assert(rest.drop_last() == leaves@);
            let ghost added = leaf.entries@;
            let ghost base = entries@;
            assert(all =~= base + added + records_of(leaves@));
            let mut j: usize = 0;
            while j < leaf.entries.len()
                invariant
                    j <= leaf.entries.len(),
                    leaf.entries@ == added,
                    entries@ == base,
                    all == base + added + records_of(leaves@),
                    key_views(keys@) == record_keys(base) + record_keys(added.subrange(0, j as int)),
                    key_views(keys@).no_duplicates(),
                decreases leaf.entries.len() - j,
            {
                let k = leaf.entries[j].crate_key();
                if contains_key(&keys, &k) {
                    proof {
                        let ks = record_keys(all);
                        let pos = choose|t: int| 0 <= t < keys.len() && key_views(keys@)[t] == k@;
                        assert(ks[pos] == record_keys(base + added)[pos]);
                        assert(ks[pos] == k@);
                        assert(ks[base.len() + j] == k@);
                        assert(pos != base.len() + j);
                        assert(!ks.no_duplicates());
                    }
                    return Err(JobErr::OtherErr(leaf.path));
                }
                let ghost kb = keys@;
                keys.push(k);
                proof {
                    assert(key_views(keys@) =~= key_views(kb).push(k@));
                    assert(added.subrange(0, j + 1) =~= added.subrange(0, j as int).push(added[j as int]));
                    assert(record_keys(added.subrange(0, j + 1)) =~= record_keys(added.subrange(0, j as int)).push(k@));
                    assert(key_views(keys@) =~= record_keys(base) + record_keys(added.subrange(0, j + 1)));
                }
                j = j + 1;
            }
            entries.append(&mut leaf.entries);
            proof {
                assert(added.subrange(0, added.len() as int) =~= added);
                assert(record_keys(base + added) =~= record_keys(base) + record_keys(added));
                assert(all =~= entries@ + records_of(leaves@));
            }
        }
        assert(all =~= entries@);
        Ok(GenericIndex { entries, keys })
    }

    /// Every key of the index, once each.
    pub fn get_crate_keys(&self) -> (r: Vec<CrateKey>)
        requires
            self.well_formed(),
        ensures
            key_views(r@) == record_keys(self.records()),
    {
        let mut r: Vec<CrateKey> = Vec::new();
        let mut i: usize = 0;
        while i < self.keys.len()
            invariant
                i <= self.keys.len(),
                key_views(r@) == key_views(self.keys@).subrange(0, i as int),
            decreases self.keys.len() - i,
        {
            let ghost before = key_views(r@);
            let k = self.keys[i].clone();
            r.push(k);
            assert(key_views(r@) =~= before.push(k@));
            assert(key_views(r@) =~= key_views(self.keys@).subrange(0, i + 1));
            i = i + 1;
        }
        assert(key_views(self.keys@).subrange(0, i as int) =~= key_views(self.keys@));
        r
    }

    /// The record stored under `key`, if any.
    pub fn get_entry(&self, key: &CrateKey) -> (r: Option<&T>)
        requires
            self.well_formed(),
        ensures
            r matches Some(e) ==> self.records().contains(*e) && e.key_view() == key@,
            r is None ==> !record_keys(self.records()).contains(key@),
    {
        assert(key_views(self.keys@).len() == self.keys@.len());
        let mut i: usize = 0;
        while i < self.keys.len()
            invariant
                i <= self.keys.len(),
                self.well_formed(),
                forall|j: int| 0 <= j < i ==> key_views(self.keys@)[j] != key@,
            decreases self.keys.len() - i,
        {
            assert(key_views(self.keys@).len() == self.keys@.len());
            assert(record_keys(self.entries@).len() == self.entries@.len());
            if self.keys[i] == *key {
                assert(key_views(self.keys@)[i as int] == record_keys(self.entries@)[i as int]);
                assert(self.entries@[i as int] == self.records()[i as int]);
                return Some(&self.entries[i]);
            }
            i = i + 1;
        }
        None
    }

    /// The number of records.
    pub fn len(&self) -> (r: usize)
        ensures
            r == self.records().len(),
    {
        self.entries.len()
    }
}

/// The keys of the records that lack their development dependencies.
pub open spec fn incomplete_of(records: Seq<AugmentedIndexEntry>) -> Seq<(Seq<char>, Seq<char>)> {
    record_keys(records.filter(|e: AugmentedIndexEntry| e.dev_dependencies is None))
}

impl GenericIndex<AugmentedIndexEntry> {
    /// The keys whose records lack their development dependencies: left so
    /// by an earlier backfill that did not finish.
    pub fn incomplete_keys(&self) -> (r: Vec<CrateKey>)
        ensures
            key_views(r@) == incomplete_of(self.records()),
    {
        let ghost pred = |e: AugmentedIndexEntry| e.dev_dependencies is None;
        let mut r: Vec<CrateKey> = Vec::new();
        let mut i: usize = 0;
        while i < self.entries.len()
            invariant
                i <= self.entries.len(),
                pred == (|e: AugmentedIndexEntry| e.dev_dependencies is None),
                key_views(r@) == incomplete_of(self.entries@.subrange(0, i as int)),
            decreases self.entries.len() - i,
        {
            let ghost before = key_views(r@);
            let ghost e = self.entries@[i as int];
            proof {
                assert(self.entries@.subrange(0, i + 1) =~= self.entries@.subrange(0, i as int).push(e));
                self.entries@.subrange(0, i as int).lemma_filter_push(e, pred);
            }
            if self.entries[i].dev_dependencies.is_none() {
                let k = self.entries[i].crate_key();
                r.push(k);
                assert(key_views(r@) =~= before.push(k@));
                assert(key_views(r@) =~= incomplete_of(self.entries@.subrange(0, i + 1)));
            } else {
                assert(key_views(r@) =~= incomplete_of(self.entries@.subrange(0, i + 1)));
            }
            i = i + 1;
        }
        assert(self.entries@.subrange(0, i as int) =~= self.entries@);
        r
    }
}

/// The serialization of the URL that `url::Url::parse` reads from a text;
/// none if it reads no absolute URL there.
pub uninterp spec fn parsed_url(s: Seq<char>) -> Option<Seq<char>>;

/// Relies on `url::Url::parse` and the URL's serialization: both depend on
/// the text alone.
#[verifier::external_body]
fn parse_url(s: &str) -> (r: Option<String>)
    ensures
        r matches Some(u) ==> parsed_url(s@) == Some(u@),
        r is None ==> parsed_url(s@) is None,
{
    match url::Url::parse(s) {
        Ok(u) => Some(u.to_string()),
        Err(_) => None,
    }
}

/// Where an index is loaded from: an already checked-out working tree if
/// there is one, else a fresh clone of the remote.
#[derive(Debug, Clone)]
pub struct GenericIndexParams {
    /// The remote repository, as a parsed URL.
    pub url: String,
    /// A local working tree to open instead of cloning.
    pub pre_pulled_index_path: Option<String>,
}

impl GenericIndexParams {
    /// The parameters for a remote whose URL text parsed to `parsed` (none if
    /// it did not): an unparsable URL is a configuration error that names the
    /// text.
    pub fn from_parsed_url(
        url_text: &str,
        parsed: Option<String>,
        pre_pulled_index_path: Option<String>,
    ) -> (r: Result<GenericIndexParams, JobErr>)
        ensures
            match parsed {
                Some(u) => r matches Ok(p) && p.url@ == u@ && p.pre_pulled_index_path
                    == pre_pulled_index_path,
                None => r matches Err(JobErr::ConfigErr(m)) && m@ == url_text@,
            },
    {
        match parsed {
            Some(u) => Ok(GenericIndexParams { url: u, pre_pulled_index_path }),
            None => Err(JobErr::ConfigErr(string_of(url_text))),
        }
    }

    /// The parameters for the remote at `url`, read as an absolute URL.
    pub fn new(url: &str, pre_pulled_index_path: Option<String>) -> (r: Result<
        GenericIndexParams,
        JobErr,
    >)
        ensures
            match parsed_url(url@) {
                Some(u) => r matches Ok(p) && p.url@ == u && p.pre_pulled_index_path
                    == pre_pulled_index_path,
                None => r matches Err(JobErr::ConfigErr(m)) && m@ == url@,
            },
    {
        let parsed = parse_url(url);
        GenericIndexParams::from_parsed_url(url, parsed, pre_pulled_index_path)
    }
}

} // verus!
