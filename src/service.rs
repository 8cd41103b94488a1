use crate::error::{DateBound, PricingError};
use crate::record::{HistoryItem, Sku, SkuView};
use crate::store::{bulk_of, changed_ids, lookup, store_wf, with_price, PriceStore};
use crate::tax::{gross_of, gross_price, vat_of_code, Vat};
use crate::time::{timestamp_of_rfc3339, Timestamp};
use vstd::prelude::*;

verus! {

/// The pricing operations over one store. Each operation is one step on the
/// store; running them one at a time (under one lock) makes every caller see
/// a sequence of whole operations.
pub struct PricingService {
    store: PriceStore,
}

impl View for PricingService {
    type V = Seq<SkuView>;

    closed spec fn view(&self) -> Seq<SkuView> {
        self.store@
    }
}

impl PricingService {
    pub open spec fn wf(&self) -> bool {
        store_wf(self@)
    }

    /// A service that owns `store`.
    pub fn init(store: PriceStore) -> (r: PricingService)
        requires
            store.wf(),
        ensures
            r@ == store@,
            r.wf(),
    {
        PricingService { store }
    }

    /// Sets the price of `sku` to `net` under the tax code `vat_code`, on
    /// behalf of `actor`, at time `at` (the wall-clock time of the request).
    /// The gross price is computed here; `expected_gross` has no effect. The
    /// record is created where there is none, otherwise updated in place, and
    /// the new state is appended to its history. Returns a copy of the record
    /// afterwards.
    ///
    /// Fails, leaving the store as it was, with `InvalidTaxCode` where the
    /// code is not recognised and with `PriceOutOfRange` where the gross price
    /// does not fit in a `u32`.
    pub fn set_price(
        &mut self,
        sku: u32,
        net: u32,
        vat_code: &str,
        expected_gross: u32,
        actor: u32,
        at: Timestamp,
    ) -> (r: Result<Sku, PricingError>)
        requires
            old(self).wf(),
        ensures
            final(self).wf(),
            match vat_of_code(vat_code@) {
                None => r == Err::<Sku, PricingError>(PricingError::InvalidTaxCode) && final(self)@
                    == old(self)@,
                Some(v) => if gross_of(net as int, v) > u32::MAX {
                    r == Err::<Sku, PricingError>(PricingError::PriceOutOfRange) && final(self)@
                        == old(self)@
                } else {
                    &&& r is Ok
                    &&& final(self)@ == with_price(old(self)@, sku, net, v, actor, at)
                    &&& lookup(final(self)@, sku) == Some(r->Ok_0@)
                    &&& r->Ok_0@.sku == sku
                    &&& r->Ok_0@.net == net
                    &&& r->Ok_0@.vat == v
                    &&& r->Ok_0@.gross == gross_of(net as int, v)
                    &&& r->Ok_0@.history.len() > 0
                    &&& r->Ok_0@.history.last() == (HistoryItem {
                        net_retail_price: net,
                        vat: v,
                        gross_retail_price: r->Ok_0@.gross,
                        created_by: actor,
                        created_at: match lookup(old(self)@, sku) {
                            Some(x) => x.stamp(at),
                            None => at,
                        },
                    })
                },
            },
    {
        let vat = match Vat::parse(vat_code) {
            Ok(v) => v,
            Err(e) => return Err(e),
        };
        if gross_price(net, vat) > 0xffff_ffff {
            return Err(PricingError::PriceOutOfRange);
        }
        proof {
            crate::store::lemma_with_price_wf(self@, sku, net, vat, actor, at);
        }
        let snap = self.store.set_price(sku, net, vat, expected_gross, actor, at);
        Ok(snap)
    }

    /// The record of `sku`; `NotFound` where there is none.
    pub fn get_price(&self, sku: u32) -> (r: Result<Sku, PricingError>)
        requires
            self.wf(),
        ensures
            match lookup(self@, sku) {
                Some(x) => r is Ok && r->Ok_0@ == x,
                None => r == Err::<Sku, PricingError>(PricingError::NotFound),
            },
    {
        match self.store.get(sku) {
            Some(x) => Ok(x),
            None => Err(PricingError::NotFound),
        }
    }

    /// The records of the requested SKUs, in store order; SKUs without a
    /// record are left out, which is no error.
    pub fn get_price_bulk(&self, skus: &Vec<u32>) -> (r: Vec<Sku>)
        ensures
            r@.map_values(|x: Sku| x@) == bulk_of(self@, skus@),
    {
        self.store.get_many(skus)
    }

    /// Ids of the SKUs whose last price change lies between two RFC 3339
    /// date-times, both included, in store order.
    ///
    /// Fails with `InvalidDateRange` naming the first bound that is not a
    /// valid RFC 3339 date-time.
    pub fn get_latest_price_changes(&self, date_from: &str, date_till: &str) -> (r: Result<
        Vec<u32>,
        PricingError,
    >)
        ensures
            match (timestamp_of_rfc3339(date_from@), timestamp_of_rfc3339(date_till@)) {
                (None, _) => r == Err::<Vec<u32>, PricingError>(
                    PricingError::InvalidDateRange(DateBound::From),
                ),
                (Some(_), None) => r == Err::<Vec<u32>, PricingError>(
                    PricingError::InvalidDateRange(DateBound::Till),
                ),
                (Some(from), Some(till)) => r is Ok && r->Ok_0@ == changed_ids(self@, from, till),
            },
    {
        let from = match Timestamp::from_rfc3339(date_from) {
            Some(t) => t,
            None => return Err(PricingError::InvalidDateRange(DateBound::From)),
        };
        let till = match Timestamp::from_rfc3339(date_till) {
            Some(t) => t,
            None => return Err(PricingError::InvalidDateRange(DateBound::Till)),
        };
        Ok(self.store.changed_between(from, till))
    }

    /// The price history of `sku`, oldest first; `NotFound` where there is no
    /// record.
    pub fn get_price_history(&self, sku: u32) -> (r: Result<Vec<HistoryItem>, PricingError>)
        requires
            self.wf(),
        ensures
            match lookup(self@, sku) {
                Some(x) => r is Ok && r->Ok_0@ == x.history,
                None => r == Err::<Vec<HistoryItem>, PricingError>(PricingError::NotFound),
            },
    {
        match self.store.get(sku) {
            Some(_) => Ok(self.store.history(sku)),
            None => Err(PricingError::NotFound),
        }
    }
}

/// The outcome of a price set once the inventory/label service was told of
/// the new price: the updated record where it accepted, otherwise
/// `DownstreamNotificationFailed` with its message. The stored price stays
/// either way, so a failed call is to be retried whole.
pub fn confirm_notification(updated: Sku, outcome: Result<(), String>) -> (r: Result<
    Sku,
    PricingError,
>)
    ensures
        match outcome {
            Ok(_) => r == Ok::<Sku, PricingError>(updated),
            Err(m) => r == Err::<Sku, PricingError>(PricingError::DownstreamNotificationFailed(m)),
        },
{
    match outcome {
        Ok(_) => Ok(updated),
        Err(m) => Err(PricingError::DownstreamNotificationFailed(m)),
    }
}

} // verus!
