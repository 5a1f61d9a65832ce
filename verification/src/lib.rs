//! A slot-booking core: a reservation store whose atomic claim operation
//! assigns each slot to at most one holder and each holder to at most one
//! slot, and a notification hub that fans every successful claim out to the
//! observers connected at that moment.

pub mod codec;
pub mod hub;
pub mod service;
pub mod store;
pub mod types;
