//! Intake of trading orders: the order record, the store that keeps the
//! records, the dispatcher that forwards them, and the service that takes the
//! four requests (place, cancel, look up, list).

pub mod clock;
pub mod engine;
pub mod error;
pub mod history;
pub mod ident;
pub mod messages;
pub mod order;
pub mod producer;
pub mod records;
pub mod repository;
