//! What holds of the catalog across several operations.
//!
//! Every statement here is over [`CatalogView`] and its transitions
//! `created`, `updated`, `removed` and `lookup`, which are what the contracts
//! of the store's operations are written in.

use crate::catalog::CatalogView;
use crate::item::{is_space, valid_fields, ItemView};
use vstd::prelude::*;

verus! {

/// After a successful create, looking up the new identifier gives the item
/// with the name and price that were supplied, and that identifier was
/// neither live nor ever issued before.
pub proof fn law_create_then_get(c: CatalogView, name: Seq<char>, price: int)
    requires
        c.wf(),
        valid_fields(name, price),
    ensures
        c.created(name, price).wf(),
        !c.issued(c.next_id),
        !c.has(c.next_id),
        c.created(name, price).issued(c.next_id),
        c.created(name, price).lookup(c.next_id) == Some(ItemView { id: c.next_id, name, price }),
{
    let d = c.created(name, price);
    let n = c.items.len() as int;
    assert(d.items[n] == ItemView { id: c.next_id, name, price });
    assert(d.wf());
    d.lemma_index_of(n);
}

/// A create leaves every other identifier as it was: what was live stays
/// live and unchanged, what was not stays absent.
pub proof fn law_create_keeps_others(c: CatalogView, name: Seq<char>, price: int, other: int)
    requires
        c.wf(),
        other != c.next_id || !valid_fields(name, price),
    ensures
        c.created(name, price).wf(),
        c.created(name, price).lookup(other) == c.lookup(other),
{
    let d = c.created(name, price);
    if valid_fields(name, price) {
        let n = c.items.len() as int;
        assert(d.items[n] == ItemView { id: c.next_id, name, price });
        assert(d.wf());
        if c.has(other) {
            let k = c.index_of(other);
            assert(d.items[k] == c.items[k]);
            d.lemma_index_of(k);
        } else if d.has(other) {
            let k = d.index_of(other);
            assert(k < n);
            assert(c.items[k] == d.items[k]);
        }
    }
}

/// A create with an empty name, with a name of white space only, or with a
/// negative price has unacceptable fields, and leaves the catalog, and with
/// it the list, exactly as it was.
pub proof fn law_invalid_create_changes_nothing(c: CatalogView, name: Seq<char>, price: int)
    requires
        name.len() == 0 || (forall|i: int| 0 <= i < name.len() ==> is_space(#[trigger] name[i]))
            || price < 0,
    ensures
        !valid_fields(name, price),
        c.created(name, price) == c,
        c.created(name, price).items == c.items,
{
}

/// After a delete, the identifier is not found, whether or not it was live
/// before.
pub proof fn law_delete_then_get(c: CatalogView, id: int)
    requires
        c.wf(),
    ensures
        c.removed(id).wf(),
        c.removed(id).lookup(id) is None,
{
    let d = c.removed(id);
    if c.has(id) {
        let k = c.index_of(id);
        c.lemma_index_of(k);
        assert forall|j: int| 0 <= j < d.items.len() implies (#[trigger] d.items[j]).id != id by {
            if j < k {
                assert(d.items[j] == c.items[j]);
            } else {
                assert(d.items[j] == c.items[j + 1]);
            }
        }
    }
}

/// A delete leaves every other identifier as it was, and takes exactly one
/// item off the list when it succeeds.
pub proof fn law_delete_keeps_others(c: CatalogView, id: int, other: int)
    requires
        c.wf(),
        other != id,
    ensures
        c.removed(id).wf(),
        c.removed(id).lookup(other) == c.lookup(other),
        c.removed(id).items.len() == c.items.len() - (if c.has(id) { 1int } else { 0int }),
{
    let d = c.removed(id);
    if c.has(id) {
        let k = c.index_of(id);
        assert(d.wf());
        if c.has(other) {
            let m = c.index_of(other);
            if m < k {
                assert(d.items[m] == c.items[m]);
                d.lemma_index_of(m);
            } else {
                assert(d.items[m - 1] == c.items[m]);
                d.lemma_index_of(m - 1);
            }
        } else if d.has(other) {
            let m = d.index_of(other);
            if m < k {
                assert(c.items[m] == d.items[m]);
            } else {
                assert(c.items[m + 1] == d.items[m]);
            }
        }
    }
}

/// A successful update keeps the identifier and the place of the item and
/// gives it the new name and price.
pub proof fn law_update_then_get(c: CatalogView, id: int, name: Seq<char>, price: int)
    requires
        c.wf(),
        valid_fields(name, price),
        c.has(id),
    ensures
        c.updated(id, name, price).wf(),
        c.updated(id, name, price).items.len() == c.items.len(),
        c.updated(id, name, price).index_of(id) == c.index_of(id),
        c.updated(id, name, price).lookup(id) == Some(ItemView { id, name, price }),
{
    let d = c.updated(id, name, price);
    let k = c.index_of(id);
    assert(d.items[k] == ItemView { id, name, price });
    assert(d.wf()) by {
        assert forall|i: int| 0 <= i < d.items.len() implies (#[trigger] d.items[i]).valid()
            && d.items[i].id < d.next_id by {
            if i != k {
                assert(d.items[i] == c.items[i]);
            } else {
                assert(c.items[k].valid());
            }
        }
        assert forall|i: int, j: int| 0 <= i < j < d.items.len() implies (#[trigger] d.items[i]).id
            < (#[trigger] d.items[j]).id by {
            assert(d.items[i].id == c.items[i].id);
            assert(d.items[j].id == c.items[j].id);
        }
    }
    d.lemma_index_of(k);
}

/// An update, successful or not, leaves every other identifier as it was.
pub proof fn law_update_keeps_others(
    c: CatalogView,
    id: int,
    name: Seq<char>,
    price: int,
    other: int,
)
    requires
        c.wf(),
        other != id || !valid_fields(name, price) || !c.has(id),
    ensures
        c.updated(id, name, price).wf(),
        c.updated(id, name, price).lookup(other) == c.lookup(other),
{
    let d = c.updated(id, name, price);
    if valid_fields(name, price) && c.has(id) {
        law_update_then_get(c, id, name, price);
        let k = c.index_of(id);
        if c.has(other) {
            let m = c.index_of(other);
            assert(d.items[m] == c.items[m]);
            d.lemma_index_of(m);
        } else if d.has(other) {
            let m = d.index_of(other);
            assert(c.items[m].id == d.items[m].id);
        }
    }
}

/// One operation on the catalog, over mathematical values.
pub enum Op {
    Create { name: Seq<char>, price: int },
    Update { id: int, name: Seq<char>, price: int },
    Delete { id: int },
}

/// The catalog after `op`.
pub open spec fn apply(c: CatalogView, op: Op) -> CatalogView {
    match op {
        Op::Create { name, price } => c.created(name, price),
        Op::Update { id, name, price } => c.updated(id, name, price),
        Op::Delete { id } => c.removed(id),
    }
}

/// No transition ever takes an identifier back: what was issued stays
/// issued, so a later create cannot hand it out again.
pub proof fn law_ids_never_reused(c: CatalogView, op: Op, id: int)
    requires
        c.wf(),
        c.issued(id),
    ensures
        apply(c, op).issued(id),
        apply(c, op).next_id >= c.next_id,
{
}

/// Whether `op` succeeds on `c`.
pub open spec fn succeeds(c: CatalogView, op: Op) -> bool {
    match op {
        Op::Create { name, price } => valid_fields(name, price),
        Op::Update { id, name, price } => valid_fields(name, price) && c.has(id),
        Op::Delete { id } => c.has(id),
    }
}

/// The catalog after running `ops`, in order, on the catalog `start`.
pub open spec fn run(start: CatalogView, ops: Seq<Op>) -> CatalogView
    decreases ops.len(),
{
    if ops.len() == 0 {
        start
    } else {
        apply(run(start, ops.drop_last()), ops.last())
    }
}

/// How many creates in `ops` succeed.
pub open spec fn creates(start: CatalogView, ops: Seq<Op>) -> nat
    decreases ops.len(),
{
    if ops.len() == 0 {
        0
    } else if ops.last() is Create && succeeds(run(start, ops.drop_last()), ops.last()) {
        creates(start, ops.drop_last()) + 1
    } else {
        creates(start, ops.drop_last())
    }
}

/// How many deletes in `ops` succeed.
pub open spec fn deletes(start: CatalogView, ops: Seq<Op>) -> nat
    decreases ops.len(),
{
    if ops.len() == 0 {
        0
    } else if ops.last() is Delete && succeeds(run(start, ops.drop_last()), ops.last()) {
        deletes(start, ops.drop_last()) + 1
    } else {
        deletes(start, ops.drop_last())
    }
}

/// The state that `ops` last gave to the identifier `id`: the fields of the
/// last successful create or update that touched it, nothing if a delete
/// came after, and what `start` held under it if `ops` never touched it.
/// Counting from zero, the k-th successful create is the one that touches
/// the identifier `start.next_id + k`.
pub open spec fn latest(start: CatalogView, ops: Seq<Op>, id: int) -> Option<ItemView>
    decreases ops.len(),
{
    if ops.len() == 0 {
        start.lookup(id)
    } else {
        let earlier = ops.drop_last();
        match ops.last() {
            Op::Create { name, price } => if valid_fields(name, price) && start.next_id + creates(
                start,
                earlier,
            ) == id {
                Some(ItemView { id, name, price })
            } else {
                latest(start, earlier, id)
            },
            Op::Update { id: target, name, price } => if target == id && valid_fields(name, price)
                && latest(start, earlier, id) is Some {
                Some(ItemView { id, name, price })
            } else {
                latest(start, earlier, id)
            },
            Op::Delete { id: target } => if target == id {
                None
            } else {
                latest(start, earlier, id)
            },
        }
    }
}

/// After any run of operations, the list has grown by as many items as
/// creates succeeded less deletes succeeded, successive successful creates
/// got successive identifiers, and every identifier is found in exactly the
/// state that the run last gave it. On an empty catalog the list therefore
/// holds exactly that many items, each as last created or updated.
pub proof fn law_list_after_run(start: CatalogView, ops: Seq<Op>)
    requires
        start.wf(),
    ensures
        run(start, ops).wf(),
        run(start, ops).next_id == start.next_id + creates(start, ops),
        run(start, ops).items.len() == start.items.len() + creates(start, ops) - deletes(
            start,
            ops,
        ),
        forall|id: int| run(start, ops).lookup(id) == #[trigger] latest(start, ops, id),
        forall|i: int|
            0 <= i < run(start, ops).items.len() ==> latest(
                start,
                ops,
                (#[trigger] run(start, ops).items[i]).id,
            ) == Some(run(start, ops).items[i]),
        start == CatalogView::empty() ==> run(start, ops).items.len() == creates(start, ops)
            - deletes(start, ops),
    decreases ops.len(),
{
    let now = run(start, ops);
    if ops.len() > 0 {
        let earlier = ops.drop_last();
        let before = run(start, earlier);
        law_list_after_run(start, earlier);
        match ops.last() {
            Op::Create { name, price } => {
                assert forall|id: int| now.lookup(id) == #[trigger] latest(start, ops, id) by {
                    assert(before.lookup(id) == latest(start, earlier, id));
                    if valid_fields(name, price) && id == before.next_id {
                        law_create_then_get(before, name, price);
                    } else {
                        law_create_keeps_others(before, name, price, id);
                    }
                }
                law_create_keeps_others(before, name, price, before.next_id + 1);
            },
            Op::Update { id: target, name, price } => {
                assert forall|id: int| now.lookup(id) == #[trigger] latest(start, ops, id) by {
                    assert(before.lookup(id) == latest(start, earlier, id));
                    if id == target && valid_fields(name, price) && before.has(target) {
                        law_update_then_get(before, target, name, price);
                    } else {
                        law_update_keeps_others(before, target, name, price, id);
                    }
                }
                law_update_keeps_others(before, target, name, price, target + 1);
                if valid_fields(name, price) && before.has(target) {
                    law_update_then_get(before, target, name, price);
                }
            },
            Op::Delete { id: target } => {
                assert forall|id: int| now.lookup(id) == #[trigger] latest(start, ops, id) by {
                    assert(before.lookup(id) == latest(start, earlier, id));
                    if id == target {
                        law_delete_then_get(before, target);
                    } else {
                        law_delete_keeps_others(before, target, id);
                    }
                }
                law_delete_keeps_others(before, target, target + 1);
            },
        }
    }
    assert forall|i: int| 0 <= i < now.items.len() implies latest(
        start,
        ops,
        (#[trigger] now.items[i]).id,
    ) == Some(now.items[i]) by {
        now.lemma_index_of(i);
    }
}

} // verus!
