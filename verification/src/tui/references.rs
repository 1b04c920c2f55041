//! The context references of a session, in the order of its messages.

use std::collections::BTreeMap;

use vstd::prelude::*;

use crate::tui::cells::SessionContextReference;
use crate::tui::tables::{cells_of, increasing};

verus! {

/// `list` with a reference put behind those of its message and of earlier ones.
pub open spec fn put_in_order(
    list: Seq<SessionContextReference>,
    reference: SessionContextReference,
) -> Seq<SessionContextReference>
    decreases list.len(),
{
    if list.len() == 0 {
        seq![reference]
    } else if list.last().message_index <= reference.message_index {
        list.push(reference)
    } else {
        put_in_order(list.drop_last(), reference).push(list.last())
    }
}

/// References in the order of their messages; those of one message stay in
/// their order.
pub open spec fn in_message_order(list: Seq<SessionContextReference>) -> Seq<SessionContextReference>
    decreases list.len(),
{
    if list.len() == 0 {
        Seq::empty()
    } else {
        put_in_order(in_message_order(list.drop_last()), list.last())
    }
}

/// The references of the cells below `n`, in the order of the cells.
pub open spec fn references_below(cells: Map<usize, Vec<SessionContextReference>>, n: int) -> Seq<
    SessionContextReference,
>
    decreases n,
{
    if n <= 0 {
        Seq::empty()
    } else if cells.contains_key((n - 1) as usize) {
        references_below(cells, n - 1) + cells[(n - 1) as usize]@
    } else {
        references_below(cells, n - 1)
    }
}

/// The references of a session: those of its cells, in the order of their
/// messages. Those of one message stay in the order of the cells.
pub open spec fn session_references(cells: Map<usize, Vec<SessionContextReference>>) -> Seq<
    SessionContextReference,
> {
    in_message_order(references_below(cells, usize::MAX + 1))
}

/// Cells without references add none.
proof fn lemma_no_references_between(
    cells: Map<usize, Vec<SessionContextReference>>,
    from: int,
    to: int,
)
    requires
        0 <= from <= to <= usize::MAX + 1,
        forall|cell: usize| from <= cell < to ==> !cells.contains_key(cell),
    ensures
        references_below(cells, to) == references_below(cells, from),
    decreases to - from,
{
    if from < to {
        lemma_no_references_between(cells, from, to - 1);
    }
}

/// Ordering references loses none and leaves them in the order of their
/// messages.
pub proof fn ordering_keeps_references(list: Seq<SessionContextReference>)
    ensures
        in_message_order(list).to_multiset() == list.to_multiset(),
        forall|i: int, j: int|
            0 <= i < j < in_message_order(list).len() ==> in_message_order(list)[i].message_index
                <= in_message_order(list)[j].message_index,
    decreases list.len(),
{
    broadcast use vstd::seq_lib::group_to_multiset_ensures;

    if list.len() > 0 {
        ordering_keeps_references(list.drop_last());
        lemma_put_in_order(in_message_order(list.drop_last()), list.last());
        assert(list =~= list.drop_last().push(list.last()));
    }
}

proof fn lemma_put_in_order(
    list: Seq<SessionContextReference>,
    reference: SessionContextReference,
)
    requires
        forall|i: int, j: int|
            0 <= i < j < list.len() ==> list[i].message_index <= list[j].message_index,
    ensures
        put_in_order(list, reference).to_multiset() == list.to_multiset().insert(reference),
        put_in_order(list, reference).len() == list.len() + 1,
        forall|i: int, j: int|
            0 <= i < j < put_in_order(list, reference).len() ==> put_in_order(
                list,
                reference,
            )[i].message_index <= put_in_order(list, reference)[j].message_index,
        put_in_order(list, reference).last() == reference || (list.len() > 0 && put_in_order(
            list,
            reference,
        ).last() == list.last()),
    decreases list.len(),
{
    broadcast use vstd::seq_lib::group_to_multiset_ensures;

    if list.len() == 0 {
        assert(seq![reference] =~= Seq::<SessionContextReference>::empty().push(reference));
        assert(list =~= Seq::<SessionContextReference>::empty());
    } else if list.last().message_index <= reference.message_index {
    } else {
        let front = list.drop_last();
        lemma_put_in_order(front, reference);
        let out = put_in_order(front, reference);
        assert(list =~= front.push(list.last()));
        assert(out.last().message_index <= list.last().message_index) by {
            if front.len() > 0 {
                assert(front.last().message_index <= list.last().message_index);
            }
        }
        assert(out.push(list.last()).to_multiset() =~= list.to_multiset().insert(reference));
    }
}

/// Puts a reference behind those of its message and of earlier ones.
fn put_reference(list: &mut Vec<SessionContextReference>, reference: SessionContextReference)
    ensures
        final(list)@ == put_in_order(old(list)@, reference),
{
    let ghost all = list@;
    let total: usize = list.len();
    let mut p: usize = total;
    proof { assert(all.take(total as int) =~= all); }
    while p > 0 && list[p - 1].message_index > reference.message_index
        invariant
            p <= total == all.len(),
            list@ == all,
            put_in_order(all, reference) == put_in_order(all.take(p as int), reference) + all.skip(
                p as int,
            ),
        decreases p,
    {
        proof {
            let front = all.take(p as int);
            assert(front.drop_last() =~= all.take(p - 1));
            assert(front.last() == all[p - 1]);
            assert(put_in_order(front, reference) == put_in_order(
                all.take(p - 1),
                reference,
            ).push(all[p - 1]));
            assert(put_in_order(all.take(p - 1), reference).push(all[p - 1]) + all.skip(p as int)
                =~= put_in_order(all.take(p - 1), reference) + all.skip(p - 1));
        }
        p -= 1;
    }
    list.insert(p, reference);
    proof {
        let front = all.take(p as int);
        if p > 0 {
            assert(front.last() == all[p - 1]);
        }
        assert(put_in_order(front, reference) =~= front.push(reference));
        assert(list@ =~= front.push(reference) + all.skip(p as int));
    }
}

/// The references of a session.
pub fn collect_references(cells: &BTreeMap<usize, Vec<SessionContextReference>>) -> (res: Vec<
    SessionContextReference,
>)
    ensures
        res@ == session_references(cells@),
{
    let ghost map = cells@;
    let order = cells_of(cells);
    let mut out: Vec<SessionContextReference> = Vec::new();
    let ghost mut next: int = 0;
    let mut i: usize = 0;
    while i < order.len()
        invariant
            i <= order@.len(),
            map == cells@,
            increasing(order@),
            forall|cell: usize| order@.contains(cell) <==> #[trigger] map.contains_key(cell),
            next == (if i == 0 {
                0
            } else {
                order@[i - 1] + 1
            }),
            out@ == in_message_order(references_below(map, next)),
        decreases order@.len() - i,
    {
        let cell: usize = order[i];
        let ghost before = references_below(map, cell as int);
        proof {
            assert(order@.contains(cell));
            assert forall|c: usize| next <= c < cell implies !map.contains_key(c) by {
                if map.contains_key(c) {
                    assert(order@.contains(c));
                    let k = choose|k: int| 0 <= k < order@.len() && order@[k] == c;
                    assert(k < i || k >= i);
                }
            }
            lemma_no_references_between(map, next, cell as int);
        }
        if let Some(records) = cells.get(&cell) {
            proof {
                assert(records@.take(0) =~= Seq::empty());
                assert(before + records@.take(0) =~= before);
            }
            let mut k: usize = 0;
            while k < records.len()
                invariant
                    k <= records@.len(),
                    out@ == in_message_order(before + records@.take(k as int)),
                decreases records@.len() - k,
            {
                let record = records[k].clone();
                proof {
                    let more = before + records@.take(k + 1);
                    assert(more.drop_last() =~= before + records@.take(k as int));
                    assert(more.last() == records@[k as int]);
                }
                put_reference(&mut out, record);
                k += 1;
            }
            proof {
                assert(records@.take(k as int) =~= records@);
                assert(references_below(map, cell + 1) == before + records@);
            }
        }
        proof { next = cell + 1; }
        i += 1;
    }
    proof {
        assert forall|c: usize| next <= c < usize::MAX + 1 implies !map.contains_key(c) by {
            if map.contains_key(c) {
                assert(order@.contains(c));
                let k = choose|k: int| 0 <= k < order@.len() && order@[k] == c;
                assert(order@[k] == c);
            }
        }
        lemma_no_references_between(map, next, usize::MAX + 1);
    }
    out
}

} // verus!
