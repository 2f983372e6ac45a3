//! Facts about filtered sequences that both object stores rest on.

use vstd::prelude::*;

verus! {

/// When the records that satisfy a predicate are exactly the first `at`
/// records, filtering gives those.
pub proof fn lemma_filter_prefix<T>(records: Seq<T>, pred: spec_fn(T) -> bool, at: int)
    requires
        0 <= at <= records.len(),
        forall|i: int| 0 <= i < at ==> pred(#[trigger] records[i]),
        forall|i: int| at <= i < records.len() ==> !pred(#[trigger] records[i]),
    ensures
        records.filter(pred) == records.take(at),
    decreases records.len(),
{
    reveal(Seq::filter);
    if records.len() > 0 {
        let front = records.drop_last();
        if at == records.len() {
            lemma_filter_prefix(front, pred, at - 1);
        } else {
            lemma_filter_prefix(front, pred, at);
        }
    }
}

/// When every record satisfies a predicate, filtering changes nothing.
pub proof fn lemma_filter_keeps_all<T>(records: Seq<T>, pred: spec_fn(T) -> bool)
    requires
        forall|i: int| 0 <= i < records.len() ==> pred(#[trigger] records[i]),
    ensures
        records.filter(pred) == records,
{
    lemma_filter_prefix(records, pred, records.len() as int);
}

/// When the record at `at` is the only one that fails a predicate,
/// filtering removes just that record.
pub proof fn lemma_filter_drops_one<T>(records: Seq<T>, pred: spec_fn(T) -> bool, at: int)
    requires
        0 <= at < records.len(),
        !pred(records[at]),
        forall|i: int| 0 <= i < records.len() && i != at ==> pred(#[trigger] records[i]),
    ensures
        records.filter(pred) == records.remove(at),
{
    let front = records.take(at);
    let one = seq![records[at]];
    let back = records.skip(at + 1);
    assert(records =~= front + one + back);
    lemma_filter_keeps_all(front, pred);
    lemma_filter_keeps_all(back, pred);
    lemma_filter_prefix(one, pred, 0);
}

} // verus!
