//! The store of order records: the interface of a backend, and the store
//! that keeps its records in memory.

use vstd::prelude::*;
use crate::error::OrderError;
use crate::order::{views_of, Order, OrderView};
use crate::records::{is_listing, keyed_by_id, lookup, with_order, without_order, Records};

verus! {

/// A backend that keeps order records under their ids.
///
/// Each operation is all or nothing: where it reports a failure, what the
/// backend holds is what it held before.
pub trait OrderRepository: Send + Sync {
    /// The records that the backend holds.
    spec fn records(&self) -> Records;

    /// Whether a backend of this type never fails of its own: it takes every
    /// write, removes what it is asked to remove whether or not it is there,
    /// and refuses a lookup only where the id is absent.
    spec fn never_fails() -> bool;

    /// Every record stands under its own id, and there are finitely many.
    proof fn records_are_keyed_by_id(&self)
        ensures
            keyed_by_id(self.records()),
            self.records().dom().finite(),
    ;

    /// Puts `order` under its id, in place of a record with that id, and
    /// hands back what was stored.
    fn place_order(&mut self, order: Order) -> (stored: Result<Order, OrderError>)
        ensures
            match stored {
                Ok(kept) => kept@ == order@ && final(self).records() == with_order(
                    old(self).records(),
                    order@,
                ),
                Err(_) => final(self).records() == old(self).records(),
            },
            Self::never_fails() ==> stored is Ok,
    ;

    /// Removes the record with `order_id`.
    fn cancel_order(&mut self, order_id: String) -> (removed: Result<(), OrderError>)
        ensures
            match removed {
                Ok(_) => final(self).records() == without_order(old(self).records(), order_id@),
                Err(cause) => final(self).records() == old(self).records() && (cause
                    == OrderError::NotFound ==> !old(self).records().contains_key(order_id@)),
            },
            Self::never_fails() ==> removed is Ok,
    ;

    /// Looks up the record with `order_id`.
    fn get_order_status(&self, order_id: String) -> (found: Result<Order, OrderError>)
        ensures
            match found {
                Ok(order) => lookup(self.records(), order_id@) == Ok::<OrderView, OrderError>(order@),
                Err(cause) => cause == OrderError::NotFound ==> !self.records().contains_key(
                    order_id@,
                ),
            },
            Self::never_fails() ==> match found {
                Ok(order) => true,
                Err(cause) => lookup(self.records(), order_id@) == Err::<OrderView, OrderError>(cause),
            },
    ;

    /// Lists the records of `user_id`, in no particular order.
    fn get_all_orders(&self, user_id: String) -> (listed: Result<Vec<Order>, OrderError>)
        ensures
            listed matches Ok(orders) ==> is_listing(views_of(orders@), self.records(), user_id@),
            Self::never_fails() ==> listed is Ok,
    ;
}

/// Some order of the sequence has the id.
spec fn holds_id(orders: Seq<Order>, id: Seq<char>) -> bool {
    exists|i: int| 0 <= i < orders.len() && (#[trigger] orders[i])@.id == id
}

/// A position at which `id` stands, if it stands anywhere.
spec fn place_of(orders: Seq<Order>, id: Seq<char>) -> int {
    choose|i: int| 0 <= i < orders.len() && (#[trigger] orders[i])@.id == id
}

/// No two orders of the sequence have the same id.
spec fn distinct_ids(orders: Seq<Order>) -> bool {
    forall|i: int, j: int|
        0 <= i < j < orders.len() ==> (#[trigger] orders[i])@.id != (#[trigger] orders[j])@.id
}

/// The records that a sequence of orders stands for.
spec fn records_of(orders: Seq<Order>) -> Records {
    Map::new(|id: Seq<char>| holds_id(orders, id), |id: Seq<char>| orders[place_of(orders, id)]@)
}

proof fn lemma_record_at(orders: Seq<Order>, i: int)
    requires
        distinct_ids(orders),
        0 <= i < orders.len(),
    ensures
        records_of(orders).contains_key(orders[i]@.id),
        records_of(orders)[orders[i]@.id] == orders[i]@,
{
    let id = orders[i]@.id;
    assert(holds_id(orders, id));
    let p = place_of(orders, id);
    assert(0 <= p < orders.len() && orders[p]@.id == id);
    assert(p == i);
}

proof fn lemma_keyed(orders: Seq<Order>)
    ensures
        keyed_by_id(records_of(orders)),
{
    assert forall|id: Seq<char>| #[trigger]
        records_of(orders).contains_key(id) implies records_of(orders)[id].id == id by {
        assert(holds_id(orders, id));
    }
}

proof fn lemma_push(orders: Seq<Order>, order: Order)
    requires
        distinct_ids(orders),
        !holds_id(orders, order@.id),
    ensures
        distinct_ids(orders.push(order)),
        records_of(orders.push(order)) == with_order(records_of(orders), order@),
{
    let after = orders.push(order);
    assert forall|i: int, j: int| 0 <= i < j < after.len() implies (#[trigger] after[i])@.id != (
    #[trigger] after[j])@.id by {
        if j < orders.len() {
            assert(after[i] == orders[i] && after[j] == orders[j]);
        } else {
            assert(after[i] == orders[i]);
            assert(after[j] == order);
        }
    }
    assert forall|id: Seq<char>|
        records_of(after).contains_key(id) == with_order(records_of(orders), order@).contains_key(
            id,
        ) by {
        if holds_id(after, id) {
            let p = place_of(after, id);
            if p < orders.len() {
                assert(orders[p] == after[p]);
            }
        }
        if holds_id(orders, id) {
            let p = place_of(orders, id);
            assert(after[p] == orders[p]);
        }
        if id == order@.id {
            assert(after[orders.len() as int] == order);
        }
    }
    assert forall|id: Seq<char>| records_of(after).contains_key(id) implies records_of(after)[id]
        == with_order(records_of(orders), order@)[id] by {
        let p = place_of(after, id);
        if p < orders.len() {
            assert(orders[p] == after[p]);
            lemma_record_at(orders, p);
        }
    }
    assert(records_of(after) =~= with_order(records_of(orders), order@));
}

proof fn lemma_update(orders: Seq<Order>, at: int, order: Order)
    requires
        distinct_ids(orders),
        0 <= at < orders.len(),
        orders[at]@.id == order@.id,
    ensures
        distinct_ids(orders.update(at, order)),
        records_of(orders.update(at, order)) == with_order(records_of(orders), order@),
{
    let after = orders.update(at, order);
    assert forall|i: int| 0 <= i < orders.len() implies (#[trigger] after[i])@.id
        == orders[i]@.id by {}
    assert forall|i: int, j: int| 0 <= i < j < after.len() implies (#[trigger] after[i])@.id != (
    #[trigger] after[j])@.id by {
        assert(orders[i]@.id != orders[j]@.id);
    }
    assert forall|id: Seq<char>|
        records_of(after).contains_key(id) == with_order(records_of(orders), order@).contains_key(
            id,
        ) by {
        if holds_id(after, id) {
            let p = place_of(after, id);
            assert(orders[p]@.id == id);
        }
        if holds_id(orders, id) {
            let p = place_of(orders, id);
            assert(after[p]@.id == id);
        }
        if id == order@.id {
            assert(after[at]@.id == id);
        }
    }
    assert forall|id: Seq<char>| records_of(after).contains_key(id) implies records_of(after)[id]
        == with_order(records_of(orders), order@)[id] by {
        let p = place_of(after, id);
        lemma_record_at(after, p);
        if p != at {
            assert(after[p] == orders[p]);
            lemma_record_at(orders, p);
        }
    }
    assert(records_of(after) =~= with_order(records_of(orders), order@));
}

proof fn lemma_remove(orders: Seq<Order>, at: int)
    requires
        distinct_ids(orders),
        0 <= at < orders.len(),
    ensures
        distinct_ids(orders.remove(at)),
        records_of(orders.remove(at)) == without_order(records_of(orders), orders[at]@.id),
{
    let after = orders.remove(at);
    let gone = orders[at]@.id;
    assert forall|i: int| 0 <= i < after.len() implies #[trigger] after[i] == orders[if i < at {
        i
    } else {
        i + 1
    }] by {}
    assert forall|i: int, j: int| 0 <= i < j < after.len() implies (#[trigger] after[i])@.id != (
    #[trigger] after[j])@.id by {
        let a = if i < at { i } else { i + 1 };
        let b = if j < at { j } else { j + 1 };
        assert(orders[a]@.id != orders[b]@.id);
    }
    assert forall|id: Seq<char>|
        records_of(after).contains_key(id) == without_order(records_of(orders), gone).contains_key(
            id,
        ) by {
        if holds_id(after, id) {
            let p = place_of(after, id);
            let q = if p < at { p } else { p + 1 };
            assert(orders[q]@.id == id);
            if id == gone {
                assert(orders[q]@.id == orders[at]@.id);
                if q < at {
                    assert(orders[q]@.id != orders[at]@.id);
                } else {
                    assert(orders[at]@.id != orders[q]@.id);
                }
            }
        }
        if holds_id(orders, id) && id != gone {
            let p = place_of(orders, id);
            let q = if p < at { p } else { p - 1 };
            assert(after[q]@.id == id);
        }
    }
    assert forall|id: Seq<char>| records_of(after).contains_key(id) implies records_of(after)[id]
        == without_order(records_of(orders), gone)[id] by {
        let p = place_of(after, id);
        let q = if p < at { p } else { p + 1 };
        lemma_record_at(after, p);
        lemma_record_at(orders, q);
    }
    assert(records_of(after) =~= without_order(records_of(orders), gone));
}

proof fn lemma_finite(orders: Seq<Order>)
    ensures
        records_of(orders).dom().finite(),
{
    let ids = orders.map_values(|o: Order| o@.id);
    assert forall|id: Seq<char>| records_of(orders).dom().contains(id) implies ids.to_set().contains(
        id,
    ) by {
        let p = place_of(orders, id);
        assert(ids[p] == id);
    }
    assert forall|id: Seq<char>| ids.to_set().contains(id) implies records_of(orders).dom().contains(
        id,
    ) by {
        let p = choose|p: int| 0 <= p < ids.len() && ids[p] == id;
        assert(orders[p]@.id == id);
    }
    assert(records_of(orders).dom() =~= ids.to_set());
    vstd::seq_lib::seq_to_set_is_finite(ids);
}

proof fn lemma_count(orders: Seq<Order>)
    requires
        distinct_ids(orders),
    ensures
        records_of(orders).dom().finite(),
        records_of(orders).dom().len() == orders.len(),
    decreases orders.len(),
{
    if orders.len() == 0 {
        assert(records_of(orders).dom() =~= Set::<Seq<char>>::empty());
    } else {
        let front = orders.drop_last();
        let last = orders.last();
        assert forall|i: int, j: int| 0 <= i < j < front.len() implies (#[trigger] front[i])@.id
            != (#[trigger] front[j])@.id by {
            assert(orders[i]@.id != orders[j]@.id);
        }
        if holds_id(front, last@.id) {
            let p = place_of(front, last@.id);
            assert(orders[p]@.id != orders[orders.len() - 1]@.id);
        }
        lemma_count(front);
        lemma_push(front, last);
        assert(front.push(last) =~= orders);
        assert(records_of(orders).dom() =~= records_of(front).dom().insert(last@.id));
    }
}

/// A store that keeps its records in memory. It never fails of its own.
///
/// The records stand in a list in which no id occurs twice.
#[derive(Debug)]
pub struct InMemoryOrderRepository {
    orders: Vec<Order>,
}

/// The position of the order with `id`, if there is one.
fn position(orders: &Vec<Order>, id: &String) -> (found: Option<usize>)
    ensures
        match found {
            Some(at) => at < orders.len() && orders[at as int]@.id == id@,
            None => !holds_id(orders@, id@),
        },
{
    let mut at: usize = 0;
    while at < orders.len()
        invariant
            at <= orders.len(),
            forall|i: int| 0 <= i < at ==> (#[trigger] orders[i])@.id != id@,
        decreases orders.len() - at,
    {
        if orders[at].id == *id {
            return Some(at);
        }
        at += 1;
    }
    None
}

impl InMemoryOrderRepository {
    #[verifier::type_invariant]
    spec fn no_id_twice(&self) -> bool {
        distinct_ids(self.orders@)
    }

    /// A store that holds nothing.
    pub fn new() -> (store: Self)
        ensures
            store.records() == Records::empty(),
    {
        let store = InMemoryOrderRepository { orders: Vec::new() };
        assert(store.records() =~= Records::empty());
        store
    }

    /// The number of records.
    pub fn len(&self) -> (count: usize)
        ensures
            count == self.records().len(),
    {
        proof {
            use_type_invariant(self);
            lemma_count(self.orders@);
        }
        self.orders.len()
    }
}

impl Default for InMemoryOrderRepository {
    fn default() -> (store: Self)
        ensures
            store.records() == Records::empty(),
    {
        InMemoryOrderRepository::new()
    }
}

impl OrderRepository for InMemoryOrderRepository {
    closed spec fn records(&self) -> Records {
        records_of(self.orders@)
    }

    open spec fn never_fails() -> bool {
        true
    }

    proof fn records_are_keyed_by_id(&self) {
        lemma_keyed(self.orders@);
        lemma_finite(self.orders@);
    }

    fn place_order(&mut self, order: Order) -> (stored: Result<Order, OrderError>) {
        proof {
            use_type_invariant(&*self);
        }
        let found = position(&self.orders, &order.id);
        let mut orders: Vec<Order> = Vec::new();
        std::mem::swap(&mut orders, &mut self.orders);
        match found {
            Some(at) => {
                proof {
                    lemma_update(orders@, at as int, order);
                }
                orders.set(at, order.clone());
            },
            None => {
                proof {
                    lemma_push(orders@, order);
                }
                orders.push(order.clone());
            },
        }
        self.orders = orders;
        Ok(order)
    }

    fn cancel_order(&mut self, order_id: String) -> (removed: Result<(), OrderError>) {
        proof {
            use_type_invariant(&*self);
        }
        let found = position(&self.orders, &order_id);
        match found {
            Some(at) => {
                let mut orders: Vec<Order> = Vec::new();
                std::mem::swap(&mut orders, &mut self.orders);
                proof {
                    lemma_remove(orders@, at as int);
                }
                let _ = orders.remove(at);
                self.orders = orders;
            },
            None => {
                assert(without_order(self.records(), order_id@) =~= self.records());
            },
        }
        Ok(())
    }

    fn get_order_status(&self, order_id: String) -> (found: Result<Order, OrderError>) {
        proof {
            use_type_invariant(self);
        }
        match position(&self.orders, &order_id) {
            Some(at) => {
                proof {
                    lemma_record_at(self.orders@, at as int);
                }
                Ok(self.orders[at].clone())
            },
            None => Err(OrderError::NotFound),
        }
    }

    fn get_all_orders(&self, user_id: String) -> (listed: Result<Vec<Order>, OrderError>) {
        proof {
            use_type_invariant(self);
        }
        let ghost records = self.records();
        let mut chosen: Vec<Order> = Vec::new();
        let ghost mut from: Seq<int> = Seq::empty();
        let mut at: usize = 0;
        while at < self.orders.len()
            invariant
                at <= self.orders.len(),
                distinct_ids(self.orders@),
                from.len() == chosen.len(),
                forall|c: int|
                    0 <= c < chosen.len() ==> 0 <= #[trigger] from[c] < at && chosen[c]
                        == self.orders[from[c]] && chosen[c]@.user_id == user_id@,
                forall|c: int, d: int|
                    0 <= c < d < chosen.len() ==> #[trigger] from[c] < #[trigger] from[d],
                forall|i: int|
                    0 <= i < at && (#[trigger] self.orders[i])@.user_id == user_id@
                        ==> exists|c: int| 0 <= c < chosen.len() && #[trigger] from[c] == i,
            decreases self.orders.len() - at,
        {
            if self.orders[at].user_id == user_id {
                chosen.push(self.orders[at].clone());
                proof {
                    let ghost before = from;
                    from = from.push(at as int);
                    assert forall|i: int|
                        0 <= i < at + 1 && (#[trigger] self.orders[i])@.user_id
                            == user_id@ implies exists|c: int|
                        0 <= c < chosen.len() && #[trigger] from[c] == i by {
                        if i < at {
                            let c = choose|c: int| 0 <= c < before.len() && #[trigger] before[c] == i;
                            assert(from[c] == i);
                        } else {
                            assert(from[chosen.len() - 1] == i);
                        }
                    }
                }
            }
            at += 1;
        }
        proof {
            let listing = views_of(chosen@);
            assert forall|c: int| 0 <= c < listing.len() implies {
                &&& records.contains_key((#[trigger] listing[c]).id)
                &&& records[listing[c].id] == listing[c]
                &&& listing[c].user_id == user_id@
            } by {
                lemma_record_at(self.orders@, from[c]);
            }
            assert forall|c: int, d: int| 0 <= c < d < listing.len() implies (
            #[trigger] listing[c]).id != (#[trigger] listing[d]).id by {
                assert(self.orders[from[c]]@.id != self.orders[from[d]]@.id);
            }
            assert forall|id: Seq<char>|
                crate::records::owned_by(records, user_id@).contains(id) implies exists|c: int|
                0 <= c < listing.len() && (#[trigger] listing[c]).id == id by {
                let i = place_of(self.orders@, id);
                lemma_record_at(self.orders@, i);
                let c = choose|c: int| 0 <= c < chosen.len() && #[trigger] from[c] == i;
                assert(listing[c].id == id);
            }
        }
        Ok(chosen)
    }
}

} // verus!
