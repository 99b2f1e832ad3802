//! The slots that hold the unresolved units, and how to count them.
use crate::model::Domain;
use crate::unit::{Origin, Unit};
use vstd::prelude::*;

verus! {

/// Number of slots that hold a unit.
pub open spec fn occupied<D: Domain>(slots: Seq<Option<Unit<D>>>) -> nat
    decreases slots.len(),
{
    if slots.len() == 0 {
        0
    } else {
        occupied(slots.drop_last()) + if slots.last() is Some {
            1nat
        } else {
            0nat
        }
    }
}

/// Number of slots that hold a unit of the given origin.
pub open spec fn held<D: Domain>(slots: Seq<Option<Unit<D>>>, origin: Origin) -> nat
    decreases slots.len(),
{
    if slots.len() == 0 {
        0
    } else {
        held(slots.drop_last(), origin) + if slots.last() matches Some(unit) && unit.origin()
            == origin {
            1nat
        } else {
            0nat
        }
    }
}

/// The lowest free slot at or after `from`, or the number of slots if all of
/// them are taken.
pub open spec fn first_free<D: Domain>(slots: Seq<Option<Unit<D>>>, from: int) -> int
    decreases slots.len() - from,
{
    if from < 0 || from >= slots.len() {
        slots.len() as int
    } else if slots[from] is None {
        from
    } else {
        first_free(slots, from + 1)
    }
}

/// What a slot's content counts for among the occupied slots.
pub open spec fn weight<D: Domain>(content: Option<Unit<D>>) -> nat {
    if content is Some {
        1
    } else {
        0
    }
}

/// What a slot's content counts for among the units of one origin.
pub open spec fn weight_of<D: Domain>(content: Option<Unit<D>>, origin: Origin) -> nat {
    if content matches Some(unit) && unit.origin() == origin {
        1
    } else {
        0
    }
}

/// Replacing the content of one slot changes the number of occupied slots by
/// what the old and the new content count for.
pub proof fn lemma_occupied_update<D: Domain>(
    slots: Seq<Option<Unit<D>>>,
    at: int,
    content: Option<Unit<D>>,
)
    requires
        0 <= at < slots.len(),
    ensures
        occupied(slots.update(at, content)) + weight(slots[at]) == occupied(slots) + weight(
            content,
        ),
    decreases slots.len(),
{
    let after = slots.update(at, content);
    if at == slots.len() - 1 {
        assert(after.drop_last() =~= slots.drop_last());
    } else {
        assert(after.drop_last() =~= slots.drop_last().update(at, content));
        lemma_occupied_update(slots.drop_last(), at, content);
    }
}

/// The same for the units of one origin.
pub proof fn lemma_held_update<D: Domain>(
    slots: Seq<Option<Unit<D>>>,
    at: int,
    content: Option<Unit<D>>,
    origin: Origin,
)
    requires
        0 <= at < slots.len(),
    ensures
        held(slots.update(at, content), origin) + weight_of(slots[at], origin) == held(
            slots,
            origin,
        ) + weight_of(content, origin),
    decreases slots.len(),
{
    let after = slots.update(at, content);
    if at == slots.len() - 1 {
        assert(after.drop_last() =~= slots.drop_last());
    } else {
        assert(after.drop_last() =~= slots.drop_last().update(at, content));
        lemma_held_update(slots.drop_last(), at, content, origin);
    }
}

/// A new slot at the end adds what its content counts for.
pub proof fn lemma_push<D: Domain>(
    slots: Seq<Option<Unit<D>>>,
    content: Option<Unit<D>>,
    origin: Origin,
)
    ensures
        occupied(slots.push(content)) == occupied(slots) + weight(content),
        held(slots.push(content), origin) == held(slots, origin) + weight_of(content, origin),
{
    assert(slots.push(content).drop_last() =~= slots);
}

/// Slots that are all taken count as many as there are.
pub proof fn lemma_occupied_full<D: Domain>(slots: Seq<Option<Unit<D>>>)
    requires
        forall|i: int| 0 <= i < slots.len() ==> slots[i] is Some,
    ensures
        occupied(slots) == slots.len(),
    decreases slots.len(),
{
    if slots.len() > 0 {
        lemma_occupied_full(slots.drop_last());
    }
}

/// No more slots are occupied than there are, and no more units of one
/// origin are held than slots are occupied.
pub proof fn lemma_count_bounds<D: Domain>(slots: Seq<Option<Unit<D>>>, origin: Origin)
    ensures
        held(slots, origin) <= occupied(slots) <= slots.len(),
    decreases slots.len(),
{
    if slots.len() > 0 {
        lemma_count_bounds(slots.drop_last(), origin);
    }
}

/// A slot that holds a unit of some origin is counted.
pub proof fn lemma_held_positive<D: Domain>(slots: Seq<Option<Unit<D>>>, at: int, origin: Origin)
    requires
        0 <= at < slots.len(),
        weight_of(slots[at], origin) == 1,
    ensures
        held(slots, origin) >= 1,
    decreases slots.len(),
{
    if at < slots.len() - 1 {
        lemma_held_positive(slots.drop_last(), at, origin);
    }
}

/// The search for a free slot ends at a free slot, or behind the last slot
/// when every slot from `from` on is taken.
pub proof fn lemma_first_free<D: Domain>(slots: Seq<Option<Unit<D>>>, from: int)
    requires
        0 <= from <= slots.len(),
    ensures
        from <= first_free(slots, from) <= slots.len(),
        first_free(slots, from) < slots.len() ==> slots[first_free(slots, from)] is None,
        forall|i: int| from <= i < first_free(slots, from) ==> slots[i] is Some,
    decreases slots.len() - from,
{
    if from < slots.len() && slots[from] is Some {
        lemma_first_free(slots, from + 1);
    }
}

/// Every occupied slot holds a unit of exactly one origin.
pub proof fn lemma_held_sum<D: Domain>(slots: Seq<Option<Unit<D>>>)
    ensures
        held(slots, Origin::Poll) + held(slots, Origin::Sentinel) + held(slots, Origin::Fetch)
            == occupied(slots),
    decreases slots.len(),
{
    if slots.len() > 0 {
        lemma_held_sum(slots.drop_last());
    }
}

/// Where units of an origin are held, one of the slots holds one.
pub proof fn lemma_held_witness<D: Domain>(slots: Seq<Option<Unit<D>>>, origin: Origin) -> (at: int)
    requires
        held(slots, origin) > 0,
    ensures
        0 <= at < slots.len(),
        weight_of(slots[at], origin) == 1,
    decreases slots.len(),
{
    if weight_of(slots.last(), origin) == 1 {
        slots.len() - 1
    } else {
        lemma_held_witness(slots.drop_last(), origin)
    }
}

} // verus!
