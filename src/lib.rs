//! Marketplace layer of an item-trading system: the codec between the
//! store's loosely typed attribute records and validated `Sale` listings, the
//! category search over the store's secondary index, and the partial-record
//! updates that list and delist an item.

pub mod attr;
pub mod decimal;
pub mod sale;
pub mod search;
pub mod mutation;
pub mod laws;
