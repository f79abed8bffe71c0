//! Which keys a backfill works on: those the upstream holds and the
//! destination lacks, in a fixed order, at most a batch of them.
use crate::keys::{key_views, CrateKey};
use crate::order::{key_lt, sort_keys, strictly_sorted};
use vstd::prelude::*;

verus! {

/// How much one backfill run does.
#[derive(Debug, Clone, Copy, PartialEq, Eq)]
pub struct BackfillParams {
    /// At most this many keys per run; `None` for no bound.
    pub max_batch_size: Option<usize>,
    /// Work on every upstream key, whatever the destination holds.
    pub force_full_resync: bool,
}

/// The keys a run is owed: with a forced resync every upstream key; else each
/// upstream key the destination lacks, and each key the destination holds
/// only incompletely.
pub open spec fn candidate_set(
    upstream: Seq<(Seq<char>, Seq<char>)>,
    existing: Seq<(Seq<char>, Seq<char>)>,
    incomplete: Seq<(Seq<char>, Seq<char>)>,
    force: bool,
) -> Set<(Seq<char>, Seq<char>)> {
    if force {
        upstream.to_set()
    } else {
        upstream.to_set().filter(|k: (Seq<char>, Seq<char>)| !existing.contains(k)).union(
            incomplete.to_set(),
        )
    }
}

/// `r` is the first keys of `set` in key order, all of them or `max` of them.
pub open spec fn is_batch_of(
    r: Seq<(Seq<char>, Seq<char>)>,
    set: Set<(Seq<char>, Seq<char>)>,
    max: Option<usize>,
) -> bool {
    &&& strictly_sorted(r)
    &&& r.to_set().subset_of(set)
    &&& match max {
        None => r.to_set() == set,
        Some(m) => r.len() <= m && (r.len() == m || r.to_set() == set),
    }
    &&& forall|k: (Seq<char>, Seq<char>), i: int|
        #![trigger set.contains(k), r[i]]
        set.contains(k) && !r.to_set().contains(k) && 0 <= i < r.len() ==> key_lt(r[i], k)
}

/// Whether `v` holds a key equal to `k`.
pub fn contains_key(v: &Vec<CrateKey>, k: &CrateKey) -> (r: bool)
    ensures
        r == key_views(v@).contains(k@),
{
    let mut i: usize = 0;
    while i < v.len()
        invariant
            i <= v.len(),
            forall|j: int| 0 <= j < i ==> key_views(v@)[j] != k@,
        decreases v.len() - i,
    {
        if v[i] == *k {
            assert(key_views(v@)[i as int] == k@);
            return true;
        }
        i = i + 1;
    }
    false
}

/// Appends to `out` each key of `from` that `skip` does not hold (or every
/// key, if `keep_all`).
fn gather(out: &mut Vec<CrateKey>, from: &Vec<CrateKey>, skip: &Vec<CrateKey>, keep_all: bool)
    ensures
        key_views(final(out)@).to_set() == key_views(old(out)@).to_set().union(
            key_views(from@).to_set().filter(
                |k: (Seq<char>, Seq<char>)| keep_all || !key_views(skip@).contains(k),
            ),
        ),
{
    let ghost start = key_views(out@).to_set();
    let ghost pred = |k: (Seq<char>, Seq<char>)| keep_all || !key_views(skip@).contains(k);
    let mut i: usize = 0;
    while i < from.len()
        invariant
            i <= from.len(),
            pred == (|k: (Seq<char>, Seq<char>)| keep_all || !key_views(skip@).contains(k)),
            key_views(out@).to_set() == start.union(
                key_views(from@).subrange(0, i as int).to_set().filter(pred),
            ),
        decreases from.len() - i,
    {
        let ghost s = key_views(from@);
        let ghost old_out = key_views(out@);
        assert(s.subrange(0, i + 1) =~= s.subrange(0, i as int).push(s[i as int]));
        proof {
            s.subrange(0, i as int).lemma_push_to_set_commute(s[i as int]);
        }
        if keep_all || !contains_key(skip, &from[i]) {
            out.push(from[i].clone());
            assert(key_views(out@) =~= old_out.push(s[i as int]));
            proof {
                old_out.lemma_push_to_set_commute(s[i as int]);
            }
            assert(key_views(out@).to_set() =~= start.union(
                s.subrange(0, i + 1).to_set().filter(pred),
            ));
        } else {
            assert(key_views(out@).to_set() =~= start.union(
                s.subrange(0, i + 1).to_set().filter(pred),
            ));
        }
        i = i + 1;
    }
    assert(key_views(from@).subrange(0, from.len() as int) =~= key_views(from@));
}

/// The keys a backfill run works on, in order: see [`candidate_set`] and
/// [`is_batch_of`]. Without a forced resync none is in `existing` unless
/// `incomplete` names it, and each comes from `upstream` or `incomplete`.
pub fn select_candidates(
    upstream: &Vec<CrateKey>,
    existing: &Vec<CrateKey>,
    incomplete: &Vec<CrateKey>,
    params: &BackfillParams,
) -> (r: Vec<CrateKey>)
    ensures
        is_batch_of(
            key_views(r@),
            candidate_set(
                key_views(upstream@),
                key_views(existing@),
                key_views(incomplete@),
                params.force_full_resync,
            ),
            params.max_batch_size,
        ),
        !params.force_full_resync ==> forall|i: int|
            0 <= i < r.len() ==> {
                ||| key_views(incomplete@).contains(#[trigger] key_views(r@)[i])
                ||| (key_views(upstream@).contains(key_views(r@)[i]) && !key_views(
                    existing@,
                ).contains(key_views(r@)[i]))
            },
        params.force_full_resync && params.max_batch_size is None ==> key_views(r@).to_set()
            == key_views(upstream@).to_set(),
{
    let ghost set = candidate_set(
        key_views(upstream@),
        key_views(existing@),
        key_views(incomplete@),
        params.force_full_resync,
    );
    let mut gathered: Vec<CrateKey> = Vec::new();
    gather(&mut gathered, upstream, existing, params.force_full_resync);
    if !params.force_full_resync {
        gather(&mut gathered, incomplete, existing, true);
    }
    assert(key_views(gathered@).to_set() =~= set);
    let mut sorted = sort_keys(&gathered);
    let ghost full = key_views(sorted@);
    match params.max_batch_size {
        Some(m) => {
            if m < sorted.len() {
                sorted.truncate(m);
            }
        },
        None => {},
    }
    proof {
        let r = key_views(sorted@);
        assert(r =~= full.subrange(0, r.len() as int));
        assert forall|i: int, j: int| 0 <= i < j < r.len() implies key_lt(
            #[trigger] r[i],
            #[trigger] r[j],
        ) by {
            assert(r[i] == full[i] && r[j] == full[j]);
        }
        assert forall|k: (Seq<char>, Seq<char>)| r.to_set().contains(k) implies set.contains(k) by {
            let t = choose|t: int| 0 <= t < r.len() && r[t] == k;
            assert(full[t] == k);
        }
        if r.len() == full.len() {
            assert(r =~= full);
        }
        assert forall|k: (Seq<char>, Seq<char>), i: int|
            #![trigger set.contains(k), r[i]]
            set.contains(k) && !r.to_set().contains(k) && 0 <= i < r.len() implies key_lt(
            r[i],
            k,
        ) by {
            assert(full.to_set().contains(k));
            let t = choose|t: int| 0 <= t < full.len() && full[t] == k;
            if t < r.len() {
                assert(r[t] == k);
            }
            assert(r[i] == full[i]);
        }
        assert forall|i: int| 0 <= i < r.len() implies set.contains(#[trigger] r[i]) by {
            assert(r.to_set().contains(r[i]));
        }
    }
    sorted
}

/// Resuming a backfill: once a run has put `uploaded` into the destination,
/// the next run (no forced resync) is owed exactly what the first was owed,
/// less what it uploaded.
pub proof fn lemma_resume_owes_the_rest(
    upstream: Seq<(Seq<char>, Seq<char>)>,
    existing: Seq<(Seq<char>, Seq<char>)>,
    uploaded: Seq<(Seq<char>, Seq<char>)>,
)
    ensures
        candidate_set(upstream, existing + uploaded, Seq::empty(), false) == candidate_set(
            upstream,
            existing,
            Seq::empty(),
            false,
        ).difference(uploaded.to_set()),
{
    let after = candidate_set(upstream, existing + uploaded, Seq::empty(), false);
    let before = candidate_set(upstream, existing, Seq::empty(), false);
    assert forall|k: (Seq<char>, Seq<char>)| #[trigger] after.contains(k) == before.difference(
        uploaded.to_set(),
    ).contains(k) by {
        if (existing + uploaded).contains(k) {
            let t = choose|t: int| 0 <= t < (existing + uploaded).len() && (existing
                + uploaded)[t] == k;
            if t < existing.len() {
                assert(existing[t] == k);
            } else {
                assert(uploaded[t - existing.len()] == k);
            }
        }
        if existing.contains(k) {
            let t = choose|t: int| 0 <= t < existing.len() && existing[t] == k;
            assert((existing + uploaded)[t] == k);
        }
        if uploaded.contains(k) {
            let t = choose|t: int| 0 <= t < uploaded.len() && uploaded[t] == k;
            assert((existing + uploaded)[existing.len() + t] == k);
        }
    }
    assert(after =~= before.difference(uploaded.to_set()));
}

/// The batch of the next run starts where the previous batch ended: each key
/// of it comes after every key that the previous batch held.
pub proof fn lemma_next_batch_follows(
    first: Seq<(Seq<char>, Seq<char>)>,
    second: Seq<(Seq<char>, Seq<char>)>,
    owed: Set<(Seq<char>, Seq<char>)>,
    max_first: Option<usize>,
    max_second: Option<usize>,
)
    requires
        is_batch_of(first, owed, max_first),
        is_batch_of(second, owed.difference(first.to_set()), max_second),
    ensures
        forall|i: int, j: int|
            0 <= i < first.len() && 0 <= j < second.len() ==> key_lt(
                #[trigger] first[i],
                #[trigger] second[j],
            ),
{
    assert forall|i: int, j: int| 0 <= i < first.len() && 0 <= j < second.len() implies key_lt(
        #[trigger] first[i],
        #[trigger] second[j],
    ) by {
        assert(second.to_set().contains(second[j]));
        assert(owed.difference(first.to_set()).contains(second[j]));
    }
}

} // verus!
