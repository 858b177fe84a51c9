//! The migration ledger: which of the store's forward-only migrations are
//! still to run.

use vstd::prelude::*;

verus! {

/// Version of the migration that creates the two tables and seeds the
/// master row.
pub const INITIAL_SCHEMA_VERSION: i64 = 1;

/// The migrations of `known` (in their fixed order) that `applied` does not
/// record, in that order.
pub open spec fn pending(known: Seq<i64>, applied: Seq<i64>) -> Seq<i64> {
    known.filter(|v: i64| !applied.contains(v))
}

fn recorded(applied: &Vec<i64>, version: i64) -> (r: bool)
    ensures
        r == applied@.contains(version),
{
    let mut i: usize = 0;
    while i < applied.len()
        invariant
            i <= applied@.len(),
            forall|k: int| 0 <= k < i ==> applied@[k] != version,
        decreases applied@.len() - i,
    {
        if applied[i] == version {
            return true;
        }
        i = i + 1;
    }
    false
}

/// The migrations to run, in order: each known one that the ledger does
/// not yet record, so that each runs at most once.
pub fn pending_migrations(known: &Vec<i64>, applied: &Vec<i64>) -> (r: Vec<i64>)
    ensures
        r@ == pending(known@, applied@),
        forall|k: int| 0 <= k < r@.len() ==> !applied@.contains(#[trigger] r@[k]),
{
    let ghost pred = |v: i64| !applied@.contains(v);
    let mut out: Vec<i64> = Vec::new();
    let mut i: usize = 0;
    proof {
        reveal(Seq::filter);
        assert(known@.take(0) =~= Seq::<i64>::empty());
    }
    while i < known.len()
        invariant
            i <= known@.len(),
            pred == (|v: i64| !applied@.contains(v)),
            out@ == known@.take(i as int).filter(pred),
        decreases known@.len() - i,
    {
        proof {
            reveal(Seq::filter);
            assert(known@.take(i + 1).drop_last() =~= known@.take(i as int));
        }
        let v = known[i];
        if !recorded(applied, v) {
            out.push(v);
        }
        i = i + 1;
    }
    proof {
        assert(known@.take(known@.len() as int) =~= known@);
        assert forall|k: int| 0 <= k < out@.len() implies !applied@.contains(#[trigger] out@[k]) by {
            known@.lemma_filter_pred(pred, k);
        }
    }
    out
}

} // verus!
