//! Rows of a sequence that satisfy a predicate: the first and the last of
//! them, and how a scan from the left finds them.

use vstd::prelude::*;

verus! {

/// The first element of `rows`, if there is one.
pub open spec fn first_of<A>(rows: Seq<A>) -> Option<A> {
    if rows.len() == 0 {
        None
    } else {
        Some(rows[0])
    }
}

/// The last element of `rows`, if there is one.
pub open spec fn last_of<A>(rows: Seq<A>) -> Option<A> {
    if rows.len() == 0 {
        None
    } else {
        Some(rows[rows.len() - 1])
    }
}

/// Extending a prefix by one row extends its matching rows by that row
/// exactly when the row satisfies the predicate.
pub proof fn lemma_scan_step<A>(rows: Seq<A>, pred: spec_fn(A) -> bool, i: int)
    requires
        0 <= i < rows.len(),
    ensures
        rows.take(i + 1).filter(pred) == if pred(rows[i]) {
            rows.take(i).filter(pred).push(rows[i])
        } else {
            rows.take(i).filter(pred)
        },
{
    rows.lemma_take_succ_push(i);
    rows.take(i).lemma_filter_push(rows[i], pred);
}

/// The whole sequence is its own longest prefix.
pub proof fn lemma_scan_done<A>(rows: Seq<A>)
    ensures
        rows.take(rows.len() as int) == rows,
{
}

/// A row that satisfies the predicate, with no such row before it, is the
/// first of the matching rows.
pub proof fn lemma_first_match<A>(rows: Seq<A>, pred: spec_fn(A) -> bool, i: int)
    requires
        0 <= i < rows.len(),
        pred(rows[i]),
        rows.take(i).filter(pred).len() == 0,
    ensures
        first_of(rows.filter(pred)) == Some(rows[i]),
{
    let head = rows.take(i + 1);
    let tail = rows.skip(i + 1);
    lemma_scan_step(rows, pred, i);
    assert(head + tail =~= rows);
    Seq::filter_distributes_over_add(head, tail, pred);
}

/// No row of a sequence without matching rows satisfies the predicate.
pub proof fn lemma_no_match<A>(rows: Seq<A>, pred: spec_fn(A) -> bool)
    requires
        rows.filter(pred).len() == 0,
    ensures
        forall|i: int| 0 <= i < rows.len() ==> !pred(#[trigger] rows[i]),
{
    assert forall|i: int| 0 <= i < rows.len() implies !pred(#[trigger] rows[i]) by {
        if pred(rows[i]) {
            rows.lemma_filter_contains(pred, i);
        }
    }
}

/// A sequence in which no row satisfies the predicate has no matching rows.
pub proof fn lemma_all_fail<A>(rows: Seq<A>, pred: spec_fn(A) -> bool)
    requires
        forall|i: int| 0 <= i < rows.len() ==> !pred(#[trigger] rows[i]),
    ensures
        rows.filter(pred).len() == 0,
    decreases rows.len(),
{
    reveal(Seq::filter);
    if rows.len() > 0 {
        lemma_all_fail(rows.drop_last(), pred);
    }
}

} // verus!
