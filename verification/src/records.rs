//! Child records: what a container contributes to the index, before a file
//! is chosen.
//!
//! Every child of a container gives one record, which says where the child
//! belongs and which association it adds. A traversal for a file keeps the
//! records that are visible in that file and stores their associations in
//! order.

use crate::dyn_map::{lemma_extend_add, Child, DynMapView};
use crate::syntax::HirFileId;
use vstd::prelude::*;

verus! {

/// One child of a container.
pub struct Record {
    /// The file the child belongs to. `None` for a child that is reported
    /// whatever file is asked for.
    pub file_id: Option<HirFileId>,
    /// The association that the child adds to the index.
    pub child: Child,
}

impl Record {
    /// Whether a traversal for `file_id` reports this child.
    pub open spec fn visible_in(self, file_id: HirFileId) -> bool {
        match self.file_id {
            Some(own) => own == file_id,
            None => true,
        }
    }
}

/// No association is recorded for two files.
pub open spec fn one_file_per_child(records: Seq<Record>) -> bool {
    forall|i: int, j: int|
        0 <= i < records.len() && 0 <= j < records.len() && (#[trigger] records[i]).child == (
        #[trigger] records[j]).child ==> records[i].file_id == records[j].file_id
}

/// The associations of the records that are visible in `file_id`, in order.
pub open spec fn select(records: Seq<Record>, file_id: HirFileId) -> Seq<Child>
    decreases records.len(),
{
    if records.len() == 0 {
        Seq::empty()
    } else if records.last().visible_in(file_id) {
        select(records.drop_last(), file_id).push(records.last().child)
    } else {
        select(records.drop_last(), file_id)
    }
}

/// The records of every element of `xs`, in order, where `f` gives the records
/// of one element.
pub open spec fn gather<X>(xs: Seq<X>, f: spec_fn(X) -> Seq<Record>) -> Seq<Record>
    decreases xs.len(),
{
    if xs.len() == 0 {
        Seq::empty()
    } else {
        gather(xs.drop_last(), f) + f(xs.last())
    }
}

/// Selecting from two lists in a row is selecting from each.
pub proof fn lemma_select_add(a: Seq<Record>, b: Seq<Record>, file_id: HirFileId)
    ensures
        select(a + b, file_id) == select(a, file_id) + select(b, file_id),
    decreases b.len(),
{
    if b.len() == 0 {
        assert(a + b == a);
        assert(select(a, file_id) + Seq::<Child>::empty() == select(a, file_id));
    } else {
        lemma_select_add(a, b.drop_last(), file_id);
        assert((a + b).drop_last() == a + b.drop_last());
        assert((a + b).last() == b.last());
        if b.last().visible_in(file_id) {
            assert((select(a, file_id) + select(b.drop_last(), file_id)).push(b.last().child)
                == select(a, file_id) + select(b.drop_last(), file_id).push(b.last().child));
        }
    }
}

/// The records of `i + 1` elements are those of the first `i`, then those of
/// the next one.
pub proof fn lemma_gather_next<X>(xs: Seq<X>, f: spec_fn(X) -> Seq<Record>, i: int)
    requires
        0 <= i < xs.len(),
    ensures
        gather(xs.take(i + 1), f) == gather(xs.take(i), f) + f(xs[i]),
{
    assert(xs.take(i + 1).drop_last() == xs.take(i));
}

/// One more batch of records: an index that holds what `done` gives, after
/// storing what `more` gives, holds what both give.
pub proof fn lemma_select_extend(
    map: DynMapView,
    done: Seq<Record>,
    more: Seq<Record>,
    file_id: HirFileId,
)
    ensures
        map.extend(select(done, file_id)).extend(select(more, file_id)) == map.extend(
            select(done + more, file_id),
        ),
{
    lemma_select_add(done, more, file_id);
    lemma_extend_add(map, select(done, file_id), select(more, file_id));
}

/// What a single record gives.
pub proof fn lemma_select_one(record: Record, file_id: HirFileId)
    ensures
        select(seq![record], file_id) == if record.visible_in(file_id) {
            seq![record.child]
        } else {
            Seq::<Child>::empty()
        },
{
    reveal_with_fuel(select, 2);
    assert(seq![record].drop_last() == Seq::<Record>::empty());
    if record.visible_in(file_id) {
        assert(Seq::<Child>::empty().push(record.child) == seq![record.child]);
    }
}

/// Nothing is selected from records that all belong to other files.
pub proof fn lemma_select_foreign(records: Seq<Record>, file_id: HirFileId)
    requires
        forall|i: int| 0 <= i < records.len() ==> !(#[trigger] records[i]).visible_in(file_id),
    ensures
        select(records, file_id) == Seq::<Child>::empty(),
    decreases records.len(),
{
    if records.len() > 0 {
        assert(!records[records.len() - 1].visible_in(file_id));
        assert forall|i: int| 0 <= i < records.drop_last().len() implies !(
        #[trigger] records.drop_last()[i]).visible_in(file_id) by {
            assert(!records[i].visible_in(file_id));
        }
        lemma_select_foreign(records.drop_last(), file_id);
    }
}

/// Nothing is selected from a list whose elements each give nothing.
pub proof fn lemma_gather_foreign<X>(
    xs: Seq<X>,
    f: spec_fn(X) -> Seq<Record>,
    file_id: HirFileId,
)
    requires
        forall|i: int|
            0 <= i < xs.len() ==> select(f(#[trigger] xs[i]), file_id) == Seq::<Child>::empty(),
    ensures
        select(gather(xs, f), file_id) == Seq::<Child>::empty(),
    decreases xs.len(),
{
    if xs.len() > 0 {
        assert forall|i: int| 0 <= i < xs.drop_last().len() implies select(
            f(#[trigger] xs.drop_last()[i]),
            file_id,
        ) == Seq::<Child>::empty() by {
            assert(xs.drop_last()[i] == xs[i]);
        }
        lemma_gather_foreign(xs.drop_last(), f, file_id);
        lemma_select_add(gather(xs.drop_last(), f), f(xs.last()), file_id);
        assert(xs.last() == xs[xs.len() - 1]);
    }
}

/// Before the first element of `xs` is handled, nothing of `xs` is stored.
pub proof fn lemma_loop_entry<X>(prefix: Seq<Record>, xs: Seq<X>, f: spec_fn(X) -> Seq<Record>)
    ensures
        prefix + gather(xs.take(0), f) == prefix,
{
    assert(xs.take(0) == Seq::<X>::empty());
    assert(prefix + Seq::<Record>::empty() == prefix);
}

/// What element `i` of `xs` gives, stored on top of what `prefix` and the
/// elements before `i` gave, is what `prefix` and the first `i + 1` elements
/// give.
pub proof fn lemma_loop_step<X>(
    before: DynMapView,
    prefix: Seq<Record>,
    xs: Seq<X>,
    f: spec_fn(X) -> Seq<Record>,
    i: int,
    file_id: HirFileId,
)
    requires
        0 <= i < xs.len(),
    ensures
        before.extend(select(prefix + gather(xs.take(i), f), file_id)).extend(
            select(f(xs[i]), file_id),
        ) == before.extend(select(prefix + gather(xs.take(i + 1), f), file_id)),
{
    lemma_gather_next(xs, f, i);
    lemma_select_extend(before, prefix + gather(xs.take(i), f), f(xs[i]), file_id);
    assert((prefix + gather(xs.take(i), f)) + f(xs[i]) == prefix + (gather(xs.take(i), f) + f(
        xs[i],
    )));
}

/// A visible record's association is selected.
pub proof fn lemma_select_contains(records: Seq<Record>, file_id: HirFileId, record: Record)
    requires
        records.contains(record),
        record.visible_in(file_id),
    ensures
        select(records, file_id).contains(record.child),
    decreases records.len(),
{
    let init = records.drop_last();
    if records.last() == record {
        let chosen = select(records, file_id);
        assert(chosen[chosen.len() - 1] == record.child);
    } else {
        let i = choose|i: int| 0 <= i < records.len() && records[i] == record;
        assert(init[i] == record);
        lemma_select_contains(init, file_id, record);
        let j = choose|j: int|
            0 <= j < select(init, file_id).len() && select(init, file_id)[j] == record.child;
        assert(select(records, file_id)[j] == record.child);
    }
}

/// Every selected association stems from a visible record.
pub proof fn lemma_select_only(records: Seq<Record>, file_id: HirFileId, child: Child)
    requires
        select(records, file_id).contains(child),
    ensures
        exists|i: int|
            0 <= i < records.len() && (#[trigger] records[i]).visible_in(file_id)
                && records[i].child == child,
    decreases records.len(),
{
    if records.len() > 0 {
        let init = records.drop_last();
        let chosen = select(records, file_id);
        let j = choose|j: int| 0 <= j < chosen.len() && chosen[j] == child;
        if records.last().visible_in(file_id) && j == chosen.len() - 1 {
            assert(records[records.len() - 1].child == child);
        } else {
            assert(select(init, file_id)[j] == child);
            lemma_select_only(init, file_id, child);
            let i = choose|i: int|
                0 <= i < init.len() && (#[trigger] init[i]).visible_in(file_id) && init[i].child
                    == child;
            assert(records[i].visible_in(file_id) && records[i].child == child);
        }
    }
}

/// A record is in two lists in a row if it is in one of them.
pub proof fn lemma_add_contains(a: Seq<Record>, b: Seq<Record>, record: Record)
    ensures
        (a + b).contains(record) <==> a.contains(record) || b.contains(record),
{
    if a.contains(record) {
        let i = choose|i: int| 0 <= i < a.len() && a[i] == record;
        assert((a + b)[i] == record);
    }
    if b.contains(record) {
        let i = choose|i: int| 0 <= i < b.len() && b[i] == record;
        assert((a + b)[a.len() + i] == record);
    }
    if (a + b).contains(record) {
        let i = choose|i: int| 0 <= i < (a + b).len() && (a + b)[i] == record;
        if i < a.len() {
            assert(a[i] == record);
        } else {
            assert(b[i - a.len()] == record);
        }
    }
}

/// What one element gives is among what the list gives.
pub proof fn lemma_gather_contains<X>(
    xs: Seq<X>,
    f: spec_fn(X) -> Seq<Record>,
    i: int,
    record: Record,
)
    requires
        0 <= i < xs.len(),
        f(xs[i]).contains(record),
    ensures
        gather(xs, f).contains(record),
    decreases xs.len(),
{
    lemma_add_contains(gather(xs.drop_last(), f), f(xs.last()), record);
    if i < xs.len() - 1 {
        assert(xs.drop_last()[i] == xs[i]);
        lemma_gather_contains(xs.drop_last(), f, i, record);
    }
}

/// What the list gives, one of its elements gives.
pub proof fn lemma_gather_only<X>(xs: Seq<X>, f: spec_fn(X) -> Seq<Record>, record: Record)
    requires
        gather(xs, f).contains(record),
    ensures
        exists|i: int| 0 <= i < xs.len() && f(#[trigger] xs[i]).contains(record),
    decreases xs.len(),
{
    if xs.len() > 0 {
        lemma_add_contains(gather(xs.drop_last(), f), f(xs.last()), record);
        if f(xs.last()).contains(record) {
            assert(f(xs[xs.len() - 1]).contains(record));
        } else {
            lemma_gather_only(xs.drop_last(), f, record);
            let i = choose|i: int|
                0 <= i < xs.drop_last().len() && f(#[trigger] xs.drop_last()[i]).contains(record);
            assert(f(xs[i]).contains(record));
        }
    }
}

} // verus!
