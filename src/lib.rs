//! Pricing domain: tax categories, per-SKU price records with an append-only
//! history, a keyed store of records and the service operations over it.

pub mod error;
pub mod record;
pub mod service;
pub mod store;
pub mod tax;
pub mod time;
