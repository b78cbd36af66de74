//! What a run of placements and cancellations leaves in the store, whatever
//! the order in which the requests of different callers were served.
//!
//! The service changes its store one request at a time, so every run is a
//! sequence of steps. The statements here hold of every such sequence.

use vstd::prelude::*;
use crate::engine::created_order;
use crate::error::OrderError;
use crate::messages::PlaceOrderRequestView;
use crate::order::{OrderStatus, OrderView, Timestamp};
use crate::records::{is_listing, lookup, owned_by, with_order, without_order, Records};

verus! {

/// One change of the store: what a placement or a cancellation does where
/// the service has no dispatcher.
pub enum Step {
    /// `request` was placed under `id` at `at`.
    Place { id: Seq<char>, at: Timestamp, request: PlaceOrderRequestView },
    /// The order with `id` was cancelled.
    Cancel { id: Seq<char> },
}

impl Step {
    /// The id of the order that the step is about.
    pub open spec fn target(self) -> Seq<char> {
        match self {
            Step::Place { id, .. } => id,
            Step::Cancel { id } => id,
        }
    }
}

/// The store after one step.
pub open spec fn after_step(records: Records, step: Step) -> Records {
    match step {
        Step::Place { id, at, request } => with_order(records, created_order(id, at, request)),
        Step::Cancel { id } => without_order(records, id),
    }
}

/// The store after a run of steps, first to last.
pub open spec fn after_steps(start: Records, steps: Seq<Step>) -> Records
    decreases steps.len(),
{
    if steps.len() == 0 {
        start
    } else {
        after_step(after_steps(start, steps.drop_last()), steps.last())
    }
}

/// The record that a run leaves under `id` in a store that was empty before:
/// that of the last placement under `id`, unless a cancellation of `id`
/// followed it.
pub open spec fn standing(steps: Seq<Step>, id: Seq<char>) -> Option<OrderView>
    decreases steps.len(),
{
    if steps.len() == 0 {
        None
    } else {
        match steps.last() {
            Step::Place { id: placed, at, request } if placed == id => Some(
                created_order(id, at, request),
            ),
            Step::Cancel { id: cancelled } if cancelled == id => None,
            _ => standing(steps.drop_last(), id),
        }
    }
}

/// A step changes the number of records: a placement under an id that the
/// store does not hold, a cancellation of one that it holds.
pub open spec fn takes_effect(records: Records, step: Step) -> bool {
    match step {
        Step::Place { id, .. } => !records.contains_key(id),
        Step::Cancel { id } => records.contains_key(id),
    }
}

/// Every step of the run changes the number of records.
pub open spec fn all_take_effect(start: Records, steps: Seq<Step>) -> bool
    decreases steps.len(),
{
    steps.len() > 0 ==> all_take_effect(start, steps.drop_last()) && takes_effect(
        after_steps(start, steps.drop_last()),
        steps.last(),
    )
}

/// The number of placements in a run.
pub open spec fn placements(steps: Seq<Step>) -> nat
    decreases steps.len(),
{
    if steps.len() == 0 {
        0
    } else {
        placements(steps.drop_last()) + if steps.last() is Place {
            1nat
        } else {
            0nat
        }
    }
}

/// The number of cancellations in a run.
pub open spec fn cancellations(steps: Seq<Step>) -> nat
    decreases steps.len(),
{
    if steps.len() == 0 {
        0
    } else {
        cancellations(steps.drop_last()) + if steps.last() is Cancel {
            1nat
        } else {
            0nat
        }
    }
}

/// An order that was placed is found under its id as it was placed: with
/// what the request asked for, in the entry state, created at the time of
/// placement, never updated and never cancelled.
pub proof fn lemma_placed_order_is_found(
    records: Records,
    id: Seq<char>,
    at: Timestamp,
    request: PlaceOrderRequestView,
)
    ensures
        lookup(with_order(records, created_order(id, at, request)), id) == Ok::<
            OrderView,
            OrderError,
        >(created_order(id, at, request)),
        created_order(id, at, request).id == id,
        created_order(id, at, request).user_id == request.user_id,
        created_order(id, at, request).pair == request.pair,
        created_order(id, at, request).price == request.price,
        created_order(id, at, request).quantity == request.quantity,
        created_order(id, at, request).order_type == request.order_type,
        created_order(id, at, request).status == OrderStatus::Created,
        created_order(id, at, request).create_time == Some(at),
        created_order(id, at, request).update_time is None,
        created_order(id, at, request).cancel_time is None,
{
}

/// A placement leaves every order with another id as it was.
pub proof fn lemma_placement_keeps_others(
    records: Records,
    id: Seq<char>,
    at: Timestamp,
    request: PlaceOrderRequestView,
    other: Seq<char>,
)
    requires
        other != id,
    ensures
        lookup(with_order(records, created_order(id, at, request)), other) == lookup(
            records,
            other,
        ),
{
}

/// An order that was cancelled is found no more, and every order with
/// another id is left as it was.
pub proof fn lemma_cancelled_order_is_gone(records: Records, id: Seq<char>, other: Seq<char>)
    ensures
        lookup(without_order(records, id), id) == Err::<OrderView, OrderError>(
            OrderError::NotFound,
        ),
        other != id ==> lookup(without_order(records, id), other) == lookup(records, other),
{
}

/// After any run on a store that was empty, a lookup finds exactly what
/// stands: the order of the last placement under the id, and nothing once
/// that order was cancelled.
pub proof fn lemma_lookup_finds_what_stands(steps: Seq<Step>, id: Seq<char>)
    ensures
        lookup(after_steps(Records::empty(), steps), id) == match standing(steps, id) {
            Some(order) => Ok::<OrderView, OrderError>(order),
            None => Err::<OrderView, OrderError>(OrderError::NotFound),
        },
    decreases steps.len(),
{
    if steps.len() > 0 {
        lemma_lookup_finds_what_stands(steps.drop_last(), id);
    }
}

/// An id under which no order was ever placed is not found.
pub proof fn lemma_unissued_id_is_not_found(steps: Seq<Step>, id: Seq<char>)
    requires
        forall|i: int| 0 <= i < steps.len() && #[trigger] steps[i] is Place ==> steps[i].target() != id,
    ensures
        lookup(after_steps(Records::empty(), steps), id) == Err::<OrderView, OrderError>(
            OrderError::NotFound,
        ),
    decreases steps.len(),
{
    if steps.len() > 0 {
        let front = steps.drop_last();
        assert forall|i: int| 0 <= i < front.len() && #[trigger] front[i] is Place implies front[i].target()
            != id by {
            assert(front[i] == steps[i]);
        }
        lemma_unissued_id_is_not_found(front, id);
        assert(steps.last() == steps[steps.len() - 1]);
    }
}

/// A listing for a user holds exactly the orders of that user that stand
/// after the run: each entry is the standing order of its id and belongs to
/// the user, and every standing order of the user is an entry.
pub proof fn lemma_listing_is_what_stands(
    steps: Seq<Step>,
    user_id: Seq<char>,
    listing: Seq<OrderView>,
)
    requires
        is_listing(listing, after_steps(Records::empty(), steps), user_id),
    ensures
        forall|i: int|
            0 <= i < listing.len() ==> standing(steps, (#[trigger] listing[i]).id) == Some(
                listing[i],
            ) && listing[i].user_id == user_id,
        forall|i: int, j: int|
            0 <= i < j < listing.len() ==> (#[trigger] listing[i]).id != (#[trigger] listing[j]).id,
        forall|id: Seq<char>|
            (#[trigger] standing(steps, id) matches Some(order) && order.user_id == user_id)
                ==> exists|i: int| 0 <= i < listing.len() && (#[trigger] listing[i]).id == id,
{
    let records = after_steps(Records::empty(), steps);
    assert forall|i: int| 0 <= i < listing.len() implies standing(
        steps,
        (#[trigger] listing[i]).id,
    ) == Some(listing[i]) && listing[i].user_id == user_id by {
        lemma_lookup_finds_what_stands(steps, listing[i].id);
    }
    assert forall|id: Seq<char>|
        (#[trigger] standing(steps, id) matches Some(order) && order.user_id
            == user_id) implies exists|i: int|
        0 <= i < listing.len() && (#[trigger] listing[i]).id == id by {
        lemma_lookup_finds_what_stands(steps, id);
        assert(owned_by(records, user_id).contains(id));
    }
}

/// A listing has as many entries as the store has orders of that user.
pub proof fn lemma_listing_counts_the_owned(
    records: Records,
    user_id: Seq<char>,
    listing: Seq<OrderView>,
)
    requires
        is_listing(listing, records, user_id),
    ensures
        owned_by(records, user_id).finite(),
        listing.len() == owned_by(records, user_id).len(),
{
    let ids = listing.map_values(|o: OrderView| o.id);
    assert(ids.no_duplicates()) by {
        assert forall|i: int, j: int| 0 <= i < ids.len() && 0 <= j < ids.len() && i != j implies ids[i]
            != ids[j] by {
            if i < j {
                assert(listing[i].id != listing[j].id);
            } else {
                assert(listing[j].id != listing[i].id);
            }
        }
    }
    assert forall|id: Seq<char>| ids.to_set().contains(id) implies owned_by(
        records,
        user_id,
    ).contains(id) by {
        let i = choose|i: int| 0 <= i < ids.len() && ids[i] == id;
        assert(listing[i].id == id);
    }
    assert forall|id: Seq<char>| owned_by(records, user_id).contains(id) implies ids.to_set().contains(
        id,
    ) by {
        let i = choose|i: int| 0 <= i < listing.len() && (#[trigger] listing[i]).id == id;
        assert(ids[i] == id);
    }
    assert(ids.to_set() =~= owned_by(records, user_id));
    vstd::seq_lib::seq_to_set_is_finite(ids);
    ids.unique_seq_to_set();
}

/// After a run in which every step takes effect, the store holds as many
/// records as it held before, plus the placements, minus the cancellations.
pub proof fn lemma_size_is_placed_minus_removed(start: Records, steps: Seq<Step>)
    requires
        start.dom().finite(),
        all_take_effect(start, steps),
    ensures
        after_steps(start, steps).dom().finite(),
        after_steps(start, steps).len() == start.len() + placements(steps) - cancellations(steps),
    decreases steps.len(),
{
    if steps.len() > 0 {
        lemma_size_is_placed_minus_removed(start, steps.drop_last());
    }
}

/// Placements under ids that differ from each other, and from those that the
/// store holds, each leave a record of their own: the store grows by one
/// record for each, and each is found under its id as it was placed.
pub proof fn lemma_distinct_ids_give_distinct_records(start: Records, steps: Seq<Step>)
    requires
        start.dom().finite(),
        forall|i: int| 0 <= i < steps.len() ==> #[trigger] steps[i] is Place,
        forall|i: int| 0 <= i < steps.len() ==> !start.contains_key((#[trigger] steps[i]).target()),
        forall|i: int, j: int|
            0 <= i < j < steps.len() ==> (#[trigger] steps[i]).target() != (
            #[trigger] steps[j]).target(),
    ensures
        after_steps(start, steps).dom().finite(),
        after_steps(start, steps).len() == start.len() + steps.len(),
        forall|id: Seq<char>|
            after_steps(start, steps).contains_key(id) <==> start.contains_key(id) || exists|
                i: int,
            |
                0 <= i < steps.len() && (#[trigger] steps[i]).target() == id,
        forall|i: int|
            0 <= i < steps.len() ==> (#[trigger] steps[i] matches Step::Place { id, at, request }
                && lookup(after_steps(start, steps), id) == Ok::<OrderView, OrderError>(
                created_order(id, at, request),
            )),
    decreases steps.len(),
{
    if steps.len() > 0 {
        let front = steps.drop_last();
        let last = steps.last();
        assert forall|i: int| 0 <= i < front.len() implies #[trigger] front[i] == steps[i] by {}
        lemma_distinct_ids_give_distinct_records(start, front);
        let before = after_steps(start, front);
        let after = after_steps(start, steps);
        assert(last == steps[steps.len() - 1]);
        assert(!before.contains_key(last.target())) by {
            if exists|i: int| 0 <= i < front.len() && (#[trigger] front[i]).target() == last.target() {
                let i = choose|i: int|
                    0 <= i < front.len() && (#[trigger] front[i]).target() == last.target();
                assert(steps[i].target() != steps[steps.len() - 1].target());
            }
        }
        assert forall|id: Seq<char>|
            after.contains_key(id) <==> start.contains_key(id) || exists|i: int|
                0 <= i < steps.len() && (#[trigger] steps[i]).target() == id by {
            if after.contains_key(id) && !start.contains_key(id) {
                if id == last.target() {
                    assert(steps[steps.len() - 1].target() == id);
                } else {
                    let i = choose|i: int| 0 <= i < front.len() && (#[trigger] front[i]).target() == id;
                    assert(steps[i].target() == id);
                }
            }
            if exists|i: int| 0 <= i < steps.len() && (#[trigger] steps[i]).target() == id {
                let i = choose|i: int| 0 <= i < steps.len() && (#[trigger] steps[i]).target() == id;
                if i < front.len() {
                    assert(front[i].target() == id);
                }
            }
        }
        assert forall|i: int| 0 <= i < steps.len() implies (#[trigger] steps[i] matches Step::Place {
            id,
            at,
            request,
        } && lookup(after, id) == Ok::<OrderView, OrderError>(created_order(id, at, request))) by {
            if i < front.len() {
                assert(front[i] == steps[i]);
                assert(steps[i].target() != steps[steps.len() - 1].target());
            }
        }
    }
}

} // verus!
