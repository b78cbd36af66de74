//! The mathematical model of a store: a map from order ids to records, and
//! what each of the four operations means on it.

use vstd::prelude::*;
use crate::error::OrderError;
use crate::order::OrderView;

verus! {

/// What a store holds: each record under its order's id.
pub type Records = Map<Seq<char>, OrderView>;

/// Every record stands under its own id.
pub open spec fn keyed_by_id(records: Records) -> bool {
    forall|id: Seq<char>| #[trigger]
        records.contains_key(id) ==> records[id].id == id
}

/// The store after `order` was put: a record with the same id is overwritten.
pub open spec fn with_order(records: Records, order: OrderView) -> Records {
    records.insert(order.id, order)
}

/// The store after the record with `id` was removed; unchanged if there was
/// none.
pub open spec fn without_order(records: Records, id: Seq<char>) -> Records {
    records.remove(id)
}

/// The answer to a lookup by id.
pub open spec fn lookup(records: Records, id: Seq<char>) -> Result<OrderView, OrderError> {
    if records.contains_key(id) {
        Ok(records[id])
    } else {
        Err(OrderError::NotFound)
    }
}

/// The ids of the records that belong to `user_id`.
pub open spec fn owned_by(records: Records, user_id: Seq<char>) -> Set<Seq<char>> {
    Set::new(|id: Seq<char>| records.contains_key(id) && records[id].user_id == user_id)
}

/// `listing` is the records of `user_id` in some order: each of its entries
/// is a stored record of that user, no order occurs twice, and no record of
/// that user is missing.
pub open spec fn is_listing(listing: Seq<OrderView>, records: Records, user_id: Seq<char>) -> bool {
    &&& forall|i: int|
        0 <= i < listing.len() ==> {
            &&& records.contains_key((#[trigger] listing[i]).id)
            &&& records[listing[i].id] == listing[i]
            &&& listing[i].user_id == user_id
        }
    &&& forall|i: int, j: int|
        0 <= i < j < listing.len() ==> (#[trigger] listing[i]).id != (#[trigger] listing[j]).id
    &&& forall|id: Seq<char>|
        owned_by(records, user_id).contains(id) ==> exists|i: int|
            0 <= i < listing.len() && (#[trigger] listing[i]).id == id
}

} // verus!
