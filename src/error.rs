use vstd::prelude::*;

verus! {

/// Which bound of a requested time window could not be read.
#[derive(Clone, Copy, Debug, PartialEq, Eq, Structural)]
pub enum DateBound {
    From,
    Till,
}

/// Errors reported by the pricing operations.
#[derive(Clone, Debug, PartialEq, Eq)]
pub enum PricingError {
    /// The tax code is none of the recognised codes.
    InvalidTaxCode,
    /// A bound of a time window is not a valid RFC 3339 date-time.
    InvalidDateRange(DateBound),
    /// No price is stored for the requested SKU.
    NotFound,
    /// The gross price of the request does not fit in a `u32`.
    PriceOutOfRange,
    /// The price was stored, but the inventory/label service refused it.
    DownstreamNotificationFailed(String),
}

} // verus!
