//! The records that index files hold, one JSON object per line.
use crate::keys::CrateKey;
use std::collections::HashMap;
use vstd::prelude::*;
use vstd::string::*;

verus! {

/// One published version of an artifact, as the upstream index lists it.
/// Only `extra` is local: it is kept across upstream re-syncs.
#[derive(Debug, Clone, PartialEq, Eq)]
pub struct IndexEntry {
    pub name: String,
    pub vers: String,
    pub deps: Vec<DependencyEntry>,
    pub cksum: String,
    pub features: HashMap<String, Vec<String>>,
    pub yanked: Option<bool>,
    pub extra: Option<ExtraEntry>,
}

/// One dependency of an index entry.
#[derive(Debug, PartialEq, Eq)]
pub struct DependencyEntry {
    pub name: String,
    pub req: String,
    pub features: Vec<String>,
    pub optional: bool,
    pub default_features: bool,
    pub target: Option<String>,
    pub kind: Option<String>,
}

/// Registry-local metadata attached to an index entry.
#[derive(Debug, PartialEq, Eq)]
pub struct ExtraEntry {
    pub dev_dependencies: Option<Vec<DependencyEntry>>,
}

/// An entry of the augmented index, keyed like an [`IndexEntry`] and filled
/// in by the backfill.
#[derive(Debug, Clone, PartialEq, Eq)]
pub struct AugmentedIndexEntry {
    pub name: String,
    pub vers: String,
    pub dev_dependencies: Option<Vec<DependencyEntry>>,
}

/// A record of an index that is keyed by name and version.
pub trait KeyedRecord: Sized {
    /// The key of the record.
    spec fn key_view(&self) -> (Seq<char>, Seq<char>);

    /// Builds the key of the record.
    fn crate_key(&self) -> (r: CrateKey)
        ensures
            r@ == self.key_view(),
    ;
}

impl KeyedRecord for IndexEntry {
    open spec fn key_view(&self) -> (Seq<char>, Seq<char>) {
        (self.name@, self.vers@)
    }

    fn crate_key(&self) -> (r: CrateKey) {
        CrateKey::new(self.name.as_str(), self.vers.as_str())
    }
}

impl KeyedRecord for AugmentedIndexEntry {
    open spec fn key_view(&self) -> (Seq<char>, Seq<char>) {
        (self.name@, self.vers@)
    }

    fn crate_key(&self) -> (r: CrateKey) {
        CrateKey::new(self.name.as_str(), self.vers.as_str())
    }
}

/// `a` and `b` hold the same dependency.
pub open spec fn same_dep(a: DependencyEntry, b: DependencyEntry) -> bool {
    &&& a.name == b.name
    &&& a.req == b.req
    &&& a.features@ == b.features@
    &&& a.optional == b.optional
    &&& a.default_features == b.default_features
    &&& a.target == b.target
    &&& a.kind == b.kind
}

/// `a` and `b` hold the same dependencies, in the same order.
pub open spec fn same_deps(a: Seq<DependencyEntry>, b: Seq<DependencyEntry>) -> bool {
    a.len() == b.len() && forall|i: int| 0 <= i < a.len() ==> same_dep(#[trigger] a[i], b[i])
}

/// `a` and `b` hold the same local metadata.
pub open spec fn same_extra(a: Option<ExtraEntry>, b: Option<ExtraEntry>) -> bool {
    match (a, b) {
        (None, None) => true,
        (Some(x), Some(y)) => match (x.dev_dependencies, y.dev_dependencies) {
            (None, None) => true,
            (Some(p), Some(q)) => same_deps(p@, q@),
            _ => false,
        },
        _ => false,
    }
}

/// A copy of a vector of strings.
fn clone_strings(v: &Vec<String>) -> (r: Vec<String>)
    ensures
        r@ == v@,
{
    let mut r: Vec<String> = Vec::new();
    let mut i: usize = 0;
    while i < v.len()
        invariant
            i <= v.len(),
            r@ == v@.subrange(0, i as int),
        decreases v.len() - i,
    {
        r.push(v[i].clone());
        assert(r@ =~= v@.subrange(0, i + 1));
        i = i + 1;
    }
    assert(v@.subrange(0, i as int) =~= v@);
    r
}

/// A copy of an optional string.
fn clone_opt_string(o: &Option<String>) -> (r: Option<String>)
    ensures
        r == *o,
{
    match o {
        Some(s) => Some(s.clone()),
        None => None,
    }
}

impl Clone for DependencyEntry {
    fn clone(&self) -> (r: Self)
        ensures
            same_dep(r, *self),
    {
        DependencyEntry {
            name: self.name.clone(),
            req: self.req.clone(),
            features: clone_strings(&self.features),
            optional: self.optional,
            default_features: self.default_features,
            target: clone_opt_string(&self.target),
            kind: clone_opt_string(&self.kind),
        }
    }
}

/// A copy of a vector of dependencies.
fn clone_deps(v: &Vec<DependencyEntry>) -> (r: Vec<DependencyEntry>)
    ensures
        same_deps(r@, v@),
{
    let mut r: Vec<DependencyEntry> = Vec::new();
    let mut i: usize = 0;
    while i < v.len()
        invariant
            i <= v.len(),
            same_deps(r@, v@.subrange(0, i as int)),
        decreases v.len() - i,
    {
        r.push(v[i].clone());
        i = i + 1;
    }
    r
}

impl Clone for ExtraEntry {
    fn clone(&self) -> (r: Self)
        ensures
            same_extra(Some(r), Some(*self)),
    {
        let dev_dependencies = match &self.dev_dependencies {
            Some(d) => Some(clone_deps(d)),
            None => None,
        };
        ExtraEntry { dev_dependencies }
    }
}

} // verus!
