//! Re-syncing the local index with upstream: upstream's entries replace the
//! local ones, but each keeps the local metadata (`extra`) that the local
//! entry of the same version had. Upstream never supplies that metadata.
use crate::entries::{same_extra, ExtraEntry, IndexEntry};
use crate::text::views;
use vstd::prelude::*;
use vstd::string::*;

verus! {

/// The local metadata of the first of `old` whose version is `vers`; none if
/// no entry has that version.
pub open spec fn carried_extra(old: Seq<IndexEntry>, vers: Seq<char>) -> Option<ExtraEntry>
    decreases old.len(),
{
    if old.len() == 0 {
        None
    } else if old[0].vers@ == vers {
        old[0].extra
    } else {
        carried_extra(old.drop_first(), vers)
    }
}

/// `r` is the upstream entry `e` with the local metadata that `old` holds
/// for its version.
pub open spec fn resynced(old: Seq<IndexEntry>, e: IndexEntry, r: IndexEntry) -> bool {
    &&& r.name == e.name
    &&& r.vers == e.vers
    &&& r.deps == e.deps
    &&& r.cksum == e.cksum
    &&& r.features == e.features
    &&& r.yanked == e.yanked
    &&& same_extra(r.extra, carried_extra(old, e.vers@))
}

/// The local metadata that `old` holds for version `vers`.
pub fn find_extra(old: &Vec<IndexEntry>, vers: &String) -> (r: Option<ExtraEntry>)
    ensures
        same_extra(r, carried_extra(old@, vers@)),
{
    let mut i: usize = 0;
    assert(old@.skip(0) =~= old@);
    while i < old.len()
        invariant
            i <= old.len(),
            carried_extra(old@, vers@) == carried_extra(old@.skip(i as int), vers@),
        decreases old.len() - i,
    {
        if old[i].vers == *vers {
            return match &old[i].extra {
                Some(x) => Some(x.clone()),
                None => None,
            };
        }
        assert(old@.skip(i as int).drop_first() =~= old@.skip(i + 1));
        i = i + 1;
    }
    None
}

/// The upstream entries `new`, in order, each with the local metadata that
/// `old` holds for its version.
pub fn carry_extras(old: &Vec<IndexEntry>, new: Vec<IndexEntry>) -> (r: Vec<IndexEntry>)
    ensures
        r.len() == new.len(),
        forall|i: int| 0 <= i < r.len() ==> resynced(old@, new@[i], #[trigger] r@[i]),
{
    let ghost n0 = new@;
    let n = new.len();
    let mut src = new;
    let mut rev: Vec<IndexEntry> = Vec::new();
    while src.len() > 0
        invariant
            src@ == n0.subrange(0, src.len() as int),
            rev.len() + src.len() == n,
            n == n0.len(),
            forall|j: int| 0 <= j < rev.len() ==> #[trigger] rev@[j] == n0[n - 1 - j],
        decreases src.len(),
    {
        let e = src.pop().unwrap();
        rev.push(e);
    }
    let mut out: Vec<IndexEntry> = Vec::new();
    while rev.len() > 0
        invariant
            out.len() + rev.len() == n,
            n == n0.len(),
            forall|j: int| 0 <= j < rev.len() ==> #[trigger] rev@[j] == n0[n - 1 - j],
            forall|j: int| 0 <= j < out.len() ==> resynced(old@, n0[j], #[trigger] out@[j]),
        decreases rev.len(),
    {
        let mut e = rev.pop().unwrap();
        e.extra = find_extra(old, &e.vers);
        out.push(e);
    }
    out
}

/// Every version of one artifact name: the contents of one index leaf.
#[derive(Debug)]
pub struct IndexPackage {
    pub name: String,
    pub entries: Vec<IndexEntry>,
}

/// The names of a sequence of packages.
pub open spec fn package_names(s: Seq<IndexPackage>) -> Seq<Seq<char>> {
    s.map_values(|p: IndexPackage| p.name@)
}

/// The entries that `cur` holds under `name`; none if it has no such
/// package.
pub open spec fn local_entries(cur: Seq<IndexPackage>, name: Seq<char>) -> Seq<IndexEntry> {
    if exists|i: int| 0 <= i < cur.len() && cur[i].name@ == name {
        cur[choose|i: int| 0 <= i < cur.len() && cur[i].name@ == name].entries@
    } else {
        Seq::empty()
    }
}

/// `p` is the upstream package `u` re-synced against the local packages
/// `cur`.
pub open spec fn resynced_package(cur: Seq<IndexPackage>, u: IndexPackage, p: IndexPackage) -> bool {
    &&& p.name == u.name
    &&& p.entries.len() == u.entries.len()
    &&& forall|t: int|
        0 <= t < p.entries.len() ==> resynced(
            local_entries(cur, u.name@),
            u.entries@[t],
            #[trigger] p.entries@[t],
        )
}

/// Some package of `r` is the upstream package `u` re-synced against `cur`.
pub open spec fn holds_resynced(cur: Seq<IndexPackage>, u: IndexPackage, r: Seq<IndexPackage>) -> bool {
    exists|j: int| 0 <= j < r.len() && resynced_package(cur, u, #[trigger] r[j])
}

/// `p` is a package of `src` whose name `names` lacks.
pub open spec fn kept_from(p: IndexPackage, src: Seq<IndexPackage>, names: Seq<Seq<char>>) -> bool {
    exists|i: int| 0 <= i < src.len() && src[i] == p && !names.contains(src[i].name@)
}

/// `p` is some upstream package re-synced against `cur`.
pub open spec fn from_upstream(cur: Seq<IndexPackage>, up: Seq<IndexPackage>, p: IndexPackage) -> bool {
    exists|i: int| 0 <= i < up.len() && resynced_package(cur, up[i], p)
}

/// Where `cur` holds the package `name`.
fn find_package(cur: &Vec<IndexPackage>, name: &String) -> (r: Option<usize>)
    requires
        package_names(cur@).no_duplicates(),
    ensures
        r matches Some(i) ==> i < cur.len() && cur@[i as int].name@ == name@ && local_entries(
            cur@,
            name@,
        ) == cur@[i as int].entries@,
        r is None ==> local_entries(cur@, name@) == Seq::<IndexEntry>::empty()
            && !package_names(cur@).contains(name@),
{
    let mut i: usize = 0;
    while i < cur.len()
        invariant
            i <= cur.len(),
            package_names(cur@).no_duplicates(),
            forall|j: int| 0 <= j < i ==> cur@[j].name@ != name@,
        decreases cur.len() - i,
    {
        if cur[i].name == *name {
            proof {
                let c = choose|c: int| 0 <= c < cur.len() && cur@[c].name@ == name@;
                assert(package_names(cur@)[c] == cur@[c].name@);
                assert(package_names(cur@)[i as int] == cur@[i as int].name@);
                assert(c == i);
            }
            return Some(i);
        }
        i = i + 1;
    }
    proof {
        if package_names(cur@).contains(name@) {
            let c = choose|c: int| 0 <= c < cur.len() && package_names(cur@)[c] == name@;
            assert(cur@[c].name@ == name@);
        }
    }
    None
}

/// Whether `names` holds `name`.
fn contains_name(names: &Vec<String>, name: &String) -> (r: bool)
    ensures
        r == views(names@).contains(name@),
{
    let mut i: usize = 0;
    while i < names.len()
        invariant
            i <= names.len(),
            forall|j: int| 0 <= j < i ==> views(names@)[j] != name@,
        decreases names.len() - i,
    {
        if names[i] == *name {
            assert(views(names@)[i as int] == name@);
            return true;
        }
        i = i + 1;
    }
    false
}

/// The packages of `cur` whose names `names` lacks.
fn unsynced(packages: Vec<IndexPackage>, names: &Vec<String>) -> (r: Vec<IndexPackage>)
    requires
        package_names(packages@).no_duplicates(),
    ensures
        forall|k: int| 0 <= k < r.len() ==> kept_from(#[trigger] r@[k], packages@, views(names@)),
        forall|i: int|
            0 <= i < packages.len() && !views(names@).contains(#[trigger] packages@[i].name@)
                ==> r@.contains(packages@[i]),
        forall|k: int| 0 <= k < r.len() ==> !views(names@).contains(#[trigger] r@[k].name@),
        package_names(r@).no_duplicates(),
{
    let ghost c0 = packages@;
    let m = packages.len();
    let mut cur = packages;
    let mut out: Vec<IndexPackage> = Vec::new();
    let ghost mut kept: Seq<int> = Seq::empty();
    while cur.len() > 0
        invariant
            cur.len() <= m,
            m == c0.len(),
            cur@ == c0.subrange(0, cur.len() as int),
            package_names(c0).no_duplicates(),
            out.len() == kept.len(),
            forall|k: int| 0 <= k < kept.len() ==> cur.len() <= #[trigger] kept[k] < m,
            forall|k: int|
                0 <= k < kept.len() ==> out@[k] == c0[#[trigger] kept[k]] && !views(
                    names@,
                ).contains(c0[kept[k]].name@),
            forall|i: int|
                cur.len() <= i < m && !views(names@).contains(#[trigger] c0[i].name@) ==> exists|k: int|
                    0 <= k < kept.len() && kept[k] == i,
            package_names(out@).no_duplicates(),
        decreases cur.len(),
    {
        let c = cur.pop().unwrap();
        let ghost ci = cur.len() as int;
        assert(cur@ =~= c0.subrange(0, ci));
        assert(c == c0[ci]);
        let ghost old_kept = kept;
        let ghost before = out@;
        if !contains_name(names, &c.name) {
            out.push(c);
            proof {
                kept = kept.push(ci);
                assert forall|k: int| 0 <= k < kept.len() implies out@[k] == c0[#[trigger] kept[k]] by {
                    if k < old_kept.len() {
                        assert(out@[k] == before[k]);
                    }
                }
                assert forall|x: int, y: int|
                    0 <= x < out.len() && 0 <= y < out.len() && x != y implies package_names(out@)[x]
                    != package_names(out@)[y] by {
                    if x < before.len() && y < before.len() {
                        assert(package_names(out@)[x] == package_names(before)[x]);
                        assert(package_names(out@)[y] == package_names(before)[y]);
                    } else {
                        assert(out@[x] == c0[kept[x]]);
                        assert(out@[y] == c0[kept[y]]);
                        assert(kept[x] != kept[y]);
                        assert(package_names(out@)[x] == package_names(c0)[kept[x]]);
                        assert(package_names(out@)[y] == package_names(c0)[kept[y]]);
                    }
                }
            }
        }
        proof {
            assert forall|i: int|
                ci <= i < m && !views(names@).contains(#[trigger] c0[i].name@) implies exists|k: int|
                0 <= k < kept.len() && kept[k] == i by {
                if i == ci {
                    assert(kept[kept.len() - 1] == ci);
                } else {
                    let k = choose|k: int| 0 <= k < old_kept.len() && old_kept[k] == i;
                    assert(kept[k] == i);
                }
            }
        }
    }
    proof {
        assert(c0 == packages@);
        assert forall|k: int| 0 <= k < out.len() implies kept_from(
            #[trigger] out@[k],
            packages@,
            views(names@),
        ) by {
            assert(out@[k] == c0[kept[k]]);
        }
        assert forall|k: int| 0 <= k < out.len() implies !views(names@).contains(
            #[trigger] out@[k].name@,
        ) by {
            assert(out@[k] == c0[kept[k]]);
        }
        assert forall|i: int| 0 <= i < m && !views(names@).contains(#[trigger] c0[i].name@) implies out@.contains(
            c0[i],
        ) by {
            let k = choose|k: int| 0 <= k < kept.len() && kept[k] == i;
            assert(out@[k] == c0[i]);
        }
    }
    out
}

/// Each upstream package re-synced against `current`, last first, and the
/// names of the upstream packages in the same order.
fn resync_all(current: &Vec<IndexPackage>, upstream: Vec<IndexPackage>) -> (r: (
    Vec<IndexPackage>,
    Vec<String>,
))
    requires
        package_names(current@).no_duplicates(),
        package_names(upstream@).no_duplicates(),
    ensures
        r.0.len() == upstream.len(),
        r.1.len() == upstream.len(),
        forall|j: int|
            0 <= j < r.0.len() ==> resynced_package(
                current@,
                upstream@[upstream.len() - 1 - j],
                #[trigger] r.0@[j],
            ),
        forall|x: Seq<char>| views(r.1@).contains(x) <==> package_names(upstream@).contains(x),
        forall|j: int| 0 <= j < r.0.len() ==> views(r.1@).contains(#[trigger] r.0@[j].name@),
        package_names(r.0@).no_duplicates(),
{
    let ghost c0 = current@;
    let ghost u0 = upstream@;
    let n = upstream.len();
    let mut up = upstream;
    let mut out: Vec<IndexPackage> = Vec::new();
    let mut up_names: Vec<String> = Vec::new();
    while up.len() > 0
        invariant
            up@ == u0.subrange(0, up.len() as int),
            out.len() + up.len() == n,
            n == u0.len(),
            up_names.len() == out.len(),
            c0 == current@,
            package_names(current@).no_duplicates(),
            forall|j: int|
                0 <= j < out.len() ==> resynced_package(c0, u0[n - 1 - j], #[trigger] out@[j]),
            forall|j: int| 0 <= j < up_names.len() ==> #[trigger] views(up_names@)[j] == u0[n - 1 - j].name@,
        decreases up.len(),
    {
        let u = up.pop().unwrap();
        let empty: Vec<IndexEntry> = Vec::new();
        let entries = match find_package(&current, &u.name) {
            Some(i) => carry_extras(&current[i].entries, u.entries),
            None => carry_extras(&empty, u.entries),
        };
        let ghost before = views(up_names@);
        up_names.push(u.name.clone());
        assert(views(up_names@) =~= before.push(u.name@));
        out.push(IndexPackage { name: u.name, entries });
    }
    proof {
        assert forall|x: Seq<char>| views(up_names@).contains(x) <==> package_names(u0).contains(x) by {
            if views(up_names@).contains(x) {
                let j = choose|j: int| 0 <= j < up_names.len() && views(up_names@)[j] == x;
                assert(package_names(u0)[n - 1 - j] == x);
            }
            if package_names(u0).contains(x) {
                let i = choose|i: int| 0 <= i < n && package_names(u0)[i] == x;
                assert(views(up_names@)[n - 1 - i] == x);
            }
        }
        assert forall|j: int| 0 <= j < out.len() implies views(up_names@).contains(
            #[trigger] out@[j].name@,
        ) by {
            assert(views(up_names@)[j] == out@[j].name@);
        }
        assert forall|a: int, b: int|
            0 <= a < out.len() && 0 <= b < out.len() && a != b implies package_names(out@)[a]
            != package_names(out@)[b] by {
            assert(package_names(out@)[a] == package_names(u0)[n - 1 - a]);
            assert(package_names(out@)[b] == package_names(u0)[n - 1 - b]);
        }
    }
    (out, up_names)
}

/// Whether no two of `packages` share a name.
pub fn unique_package_names(packages: &Vec<IndexPackage>) -> (r: bool)
    ensures
        r == package_names(packages@).no_duplicates(),
{
    let ghost names = package_names(packages@);
    let mut i: usize = 0;
    while i < packages.len()
        invariant
            i <= packages.len(),
            names == package_names(packages@),
            forall|a: int, b: int| 0 <= a < b < packages.len() && a < i ==> names[a] != names[b],
        decreases packages.len() - i,
    {
        let mut j: usize = i + 1;
        while j < packages.len()
            invariant
                i < j <= packages.len(),
                names == package_names(packages@),
                forall|a: int, b: int| 0 <= a < b < packages.len() && a < i ==> names[a] != names[b],
                forall|b: int| i < b < j ==> names[i as int] != names[b],
            decreases packages.len() - j,
        {
            if packages[i].name == packages[j].name {
                assert(names[i as int] == names[j as int]);
                return false;
            }
            j = j + 1;
        }
        i = i + 1;
    }
    true
}

/// Re-syncs the local packages `current` with the `upstream` ones: each
/// upstream package replaces the local one of its name, keeping the local
/// metadata of each version it shares with it; local packages that upstream
/// lacks stay as they are; nothing else is in the result, and no name twice.
pub fn merge_upstream(current: Vec<IndexPackage>, upstream: Vec<IndexPackage>) -> (r: Vec<
    IndexPackage,
>)
    requires
        package_names(current@).no_duplicates(),
        package_names(upstream@).no_duplicates(),
    ensures
        forall|i: int|
            0 <= i < upstream.len() ==> holds_resynced(current@, #[trigger] upstream@[i], r@),
        forall|i: int|
            0 <= i < current.len() && !package_names(upstream@).contains(#[trigger] current@[i].name@)
                ==> r@.contains(current@[i]),
        forall|j: int|
            0 <= j < r.len() ==> from_upstream(current@, upstream@, #[trigger] r@[j]) || kept_from(
                r@[j],
                current@,
                package_names(upstream@),
            ),
        package_names(r@).no_duplicates(),
{
    let ghost c0 = current@;
    let ghost u0 = upstream@;
    let n = upstream.len();
    let (mut out, up_names) = resync_all(&current, upstream);
    let ghost first = out@;
    let mut rest = unsynced(current, &up_names);
    let ghost tail = rest@;
    out.append(&mut rest);
    proof {
        assert(out@.subrange(0, n as int) =~= first);
        assert(out@.subrange(n as int, out.len() as int) =~= tail);
        let r = out@;
        assert(r.subrange(0, n as int) == first);
        assert forall|i: int| 0 <= i < u0.len() implies holds_resynced(c0, #[trigger] u0[i], r) by {
            assert(r.subrange(0, n as int)[n - 1 - i] == r[n - 1 - i]);
            assert(r[n - 1 - i] == first[n - 1 - i]);
            assert(resynced_package(c0, u0[i], r[n - 1 - i]));
        }
        assert forall|j: int| 0 <= j < r.len() implies from_upstream(c0, u0, #[trigger] r[j])
            || kept_from(r[j], c0, package_names(u0)) by {
            if j < n {
                assert(r.subrange(0, n as int)[j] == r[j]);
                assert(r[j] == first[j]);
                assert(resynced_package(c0, u0[n - 1 - j], r[j]));
            } else {
                assert(r[j] == tail[j - n]);
                assert(kept_from(tail[j - n], c0, views(up_names@)));
                let i = choose|i: int|
                    0 <= i < c0.len() && c0[i] == tail[j - n] && !views(up_names@).contains(
                        c0[i].name@,
                    );
                assert(!package_names(u0).contains(c0[i].name@));
            }
        }
        assert(c0 == current@ && u0 == upstream@);
        assert forall|a: int, b: int|
            0 <= a < r.len() && 0 <= b < r.len() && a != b implies package_names(r)[a]
            != package_names(r)[b] by {
            if a < n && b < n {
                assert(r[a] == first[a] && r[b] == first[b]);
                assert(package_names(first)[a] != package_names(first)[b]);
            } else if a >= n && b >= n {
                assert(r[a] == tail[a - n] && r[b] == tail[b - n]);
                assert(package_names(tail)[a - n] != package_names(tail)[b - n]);
            } else if a < n {
                assert(r[a] == first[a] && r[b] == tail[b - n]);
                assert(views(up_names@).contains(first[a].name@));
                assert(!views(up_names@).contains(tail[b - n].name@));
            } else {
                assert(r[b] == first[b] && r[a] == tail[a - n]);
                assert(views(up_names@).contains(first[b].name@));
                assert(!views(up_names@).contains(tail[a - n].name@));
            }
        }
    }
    out
}

} // verus!
