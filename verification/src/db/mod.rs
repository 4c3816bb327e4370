//! The database schema's migrations, as data. Applying them to a database
//! happens outside the library.

use vstd::prelude::*;

verus! {

/// A single ordered schema migration.
#[derive(Debug, Clone, Copy)]
pub struct Migration {
    pub version: i64,
    pub name: &'static str,
    pub sql: &'static str,
}

/// The migrations of `ms` whose version is not among `applied`, in order.
pub open spec fn pending(ms: Seq<Migration>, applied: Seq<i64>) -> Seq<Migration>
    decreases ms.len(),
{
    if ms.len() == 0 {
        seq![]
    } else if applied.contains(ms.last().version) {
        pending(ms.drop_last(), applied)
    } else {
        pending(ms.drop_last(), applied).push(ms.last())
    }
}

/// The migrations of `migrations` not yet applied, in order: those whose
/// version is not among `applied`.
pub fn pending_migrations(migrations: &[Migration], applied: &[i64]) -> (r: Vec<Migration>)
    ensures
        r@ == pending(migrations@, applied@),
{
    let mut r: Vec<Migration> = Vec::new();
    let mut i: usize = 0;
    while i < migrations.len()
        invariant
            i <= migrations@.len(),
            r@ == pending(migrations@.take(i as int), applied@),
        decreases migrations.len() - i,
    {
        let m = migrations[i];
        let mut seen = false;
        let mut k: usize = 0;
        while k < applied.len()
            invariant
                k <= applied@.len(),
                seen <==> exists|q: int| 0 <= q < k && applied@[q] == m.version,
            decreases applied.len() - k,
        {
            if applied[k] == m.version {
                seen = true;
            }
            k = k + 1;
        }
        proof {
            assert(seen == applied@.contains(m.version));
            let pre = migrations@.take(i as int);
            assert(migrations@.take(i + 1).drop_last() =~= pre);
            assert(migrations@.take(i + 1).last() == m);
        }
        if !seen {
            r.push(m);
        }
        i = i + 1;
    }
    assert(migrations@.take(migrations@.len() as int) =~= migrations@);
    r
}


/// The versions of a list of migrations.
pub open spec fn versions(ms: Seq<Migration>) -> Seq<i64> {
    ms.map_values(|m: Migration| m.version)
}

proof fn lemma_nothing_pending(ms: Seq<Migration>, applied: Seq<i64>)
    requires
        forall|i: int| 0 <= i < ms.len() ==> applied.contains(#[trigger] ms[i].version),
    ensures
        pending(ms, applied) == Seq::<Migration>::empty(),
    decreases ms.len(),
{
    if ms.len() > 0 {
        let d = ms.drop_last();
        assert forall|i: int| 0 <= i < d.len() implies applied.contains(#[trigger] d[i].version) by {
            assert(d[i] == ms[i]);
        }
        lemma_nothing_pending(d, applied);
        assert(applied.contains(ms[ms.len() - 1].version));
    }
}

proof fn lemma_pending_covers(ms: Seq<Migration>, applied: Seq<i64>)
    ensures
        forall|i: int|
            0 <= i < ms.len() ==> applied.contains(#[trigger] ms[i].version) || versions(
                pending(ms, applied),
            ).contains(ms[i].version),
    decreases ms.len(),
{
    if ms.len() > 0 {
        let d = ms.drop_last();
        lemma_pending_covers(d, applied);
        let pd = pending(d, applied);
        let p = pending(ms, applied);
        assert forall|i: int| 0 <= i < ms.len() implies applied.contains(#[trigger] ms[i].version)
            || versions(p).contains(ms[i].version) by {
            if i < d.len() {
                assert(d[i] == ms[i]);
                if !applied.contains(ms[i].version) {
                    assert(versions(pd).contains(d[i].version));
                    let k = choose|k: int| 0 <= k < versions(pd).len() && versions(pd)[k] == d[i].version;
                    if !applied.contains(ms.last().version) {
                        assert(p == pd.push(ms.last()));
                        assert(versions(p)[k] == versions(pd)[k]);
                    }
                }
            } else if !applied.contains(ms[i].version) {
                assert(p == pd.push(ms.last()));
                assert(versions(p)[pd.len() as int] == ms[i].version);
            }
        }
    }
}

/// Applying the pending migrations leaves none pending: starting again,
/// with their versions recorded, applies nothing twice.
pub proof fn lemma_migrations_settle(ms: Seq<Migration>, applied: Seq<i64>)
    ensures
        pending(ms, applied + versions(pending(ms, applied))) == Seq::<Migration>::empty(),
{
    let v = versions(pending(ms, applied));
    lemma_pending_covers(ms, applied);
    assert forall|i: int| 0 <= i < ms.len() implies (applied + v).contains(#[trigger] ms[i].version) by {
        if applied.contains(ms[i].version) {
            let k = choose|k: int| 0 <= k < applied.len() && applied[k] == ms[i].version;
            assert((applied + v)[k] == ms[i].version);
        } else {
            let k = choose|k: int| 0 <= k < v.len() && v[k] == ms[i].version;
            assert((applied + v)[applied.len() + k] == ms[i].version);
        }
    }
    lemma_nothing_pending(ms, applied + v);
}

} // verus!
