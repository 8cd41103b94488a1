use crate::tax::{gross_of, gross_price, Vat};
use crate::time::Timestamp;
use vstd::prelude::*;

verus! {

/// One past price state of a SKU. Entries are never changed once logged.
#[derive(Clone, Copy, Debug, PartialEq, Eq, Structural)]
pub struct HistoryItem {
    pub net_retail_price: u32,
    pub vat: Vat,
    pub gross_retail_price: u32,
    pub created_by: u32,
    pub created_at: Timestamp,
}

/// The current price of one SKU and the log of every price it had.
#[derive(Clone, Debug, PartialEq, Eq)]
pub struct Sku {
    sku: u32,
    net_retail_price: u32,
    vat: Vat,
    gross_retail_price: u32,
    history: Vec<HistoryItem>,
}

/// The mathematical value of a [`Sku`].
pub struct SkuView {
    pub sku: u32,
    pub net: u32,
    pub vat: Vat,
    pub gross: u32,
    pub history: Seq<HistoryItem>,
}

/// The gross price of a history entry was derived from its net price and category.
pub open spec fn entry_consistent(e: HistoryItem) -> bool {
    e.gross_retail_price == gross_of(e.net_retail_price as int, e.vat)
}

/// The entries are in non-decreasing order of time.
pub open spec fn chronological(h: Seq<HistoryItem>) -> bool {
    forall|i: int, j: int|
        0 <= i < j < h.len() ==> (#[trigger] h[i]).created_at.no_later_than(
            (#[trigger] h[j]).created_at,
        )
}

impl SkuView {
    /// A record with no price set yet.
    pub open spec fn fresh(sku: u32) -> SkuView {
        SkuView { sku, net: 0, vat: Vat::Rate27, gross: 0, history: Seq::empty() }
    }

    /// The record's invariant: its gross price follows from its net price and
    /// category, so does every logged gross price, the log is in order of time,
    /// and the current fields are those of the last entry (or, with no entry,
    /// those of a fresh record).
    pub open spec fn wf(self) -> bool {
        &&& self.gross == gross_of(self.net as int, self.vat)
        &&& forall|i: int| 0 <= i < self.history.len() ==> entry_consistent(#[trigger] self.history[i])
        &&& chronological(self.history)
        &&& self.history.len() > 0 ==> {
            let e = self.history.last();
            e.net_retail_price == self.net && e.vat == self.vat && e.gross_retail_price
                == self.gross
        }
        &&& self.history.len() == 0 ==> self.net == 0 && self.gross == 0 && self.vat == Vat::Rate27
    }

    /// The time a new entry requested at `at` is logged with: `at`, or the time
    /// of the last entry where the clock reads earlier than that.
    pub open spec fn stamp(self, at: Timestamp) -> Timestamp {
        if self.history.len() > 0 {
            at.latest(self.history.last().created_at)
        } else {
            at
        }
    }

    /// The record after `actor` set the price `net` under `vat` at `at`.
    pub open spec fn priced(self, net: u32, vat: Vat, actor: u32, at: Timestamp) -> SkuView {
        let gross = gross_of(net as int, vat) as u32;
        SkuView {
            sku: self.sku,
            net,
            vat,
            gross,
            history: self.history.push(
                HistoryItem {
                    net_retail_price: net,
                    vat,
                    gross_retail_price: gross,
                    created_by: actor,
                    created_at: self.stamp(at),
                },
            ),
        }
    }

    /// Time of the last logged change, if any.
    pub open spec fn last_change(self) -> Option<Timestamp> {
        if self.history.len() > 0 {
            Some(self.history.last().created_at)
        } else {
            None
        }
    }
}

/// Setting a price keeps a record's invariant.
pub proof fn lemma_priced_wf(r: SkuView, net: u32, vat: Vat, actor: u32, at: Timestamp)
    requires
        r.wf(),
        gross_of(net as int, vat) <= u32::MAX,
    ensures
        r.priced(net, vat, actor, at).wf(),
        r.priced(net, vat, actor, at).sku == r.sku,
        r.priced(net, vat, actor, at).history.len() == r.history.len() + 1,
        r.priced(net, vat, actor, at).history.subrange(0, r.history.len() as int) == r.history,
{
    crate::tax::lemma_gross_is_rounded_product(net as nat, vat);
    let p = r.priced(net, vat, actor, at);
    let h = p.history;
    let n = r.history.len();
    assert forall|i: int, j: int| 0 <= i < j < h.len() implies (#[trigger] h[i]).created_at.no_later_than(
        (#[trigger] h[j]).created_at,
    ) by {
        if j == n && i < n - 1 {
            assert(r.history[i].created_at.no_later_than(r.history[n - 1].created_at));
        }
    }
    assert(h.subrange(0, n as int) =~= r.history);
}

impl View for Sku {
    type V = SkuView;

    closed spec fn view(&self) -> SkuView {
        SkuView {
            sku: self.sku,
            net: self.net_retail_price,
            vat: self.vat,
            gross: self.gross_retail_price,
            history: self.history@,
        }
    }
}

fn copy_history(h: &Vec<HistoryItem>) -> (r: Vec<HistoryItem>)
    ensures
        r@ == h@,
{
    let mut r: Vec<HistoryItem> = Vec::with_capacity(h.len());
    for i in 0..h.len()
        invariant
            r@ == h@.subrange(0, i as int),
    {
        r.push(h[i]);
        assert(r@ =~= h@.subrange(0, i + 1));
    }
    assert(r@ =~= h@);
    r
}

fn is_chronological(h: &Vec<HistoryItem>) -> (r: bool)
    ensures
        r == chronological(h@),
{
    if h.len() == 0 {
        return true;
    }
    for i in 1..h.len()
        invariant
            h@.len() > 0,
            chronological(h@.subrange(0, i as int)),
    {
        if !h[i - 1].created_at.is_no_later_than(&h[i].created_at) {
            assert(!chronological(h@)) by {
                assert(!h@[i - 1].created_at.no_later_than(h@[i as int].created_at));
            }
            return false;
        }
        let ghost s = h@.subrange(0, i + 1);
        assert forall|a: int, b: int| 0 <= a < b < s.len() implies (#[trigger] s[a]).created_at.no_later_than(
            (#[trigger] s[b]).created_at,
        ) by {
            let t = h@.subrange(0, i as int);
            if b == i && a < i - 1 {
                assert(t[a].created_at.no_later_than(t[i - 1].created_at));
            }
            if b < i {
                assert(t[a] == s[a] && t[b] == s[b]);
            }
        }
    }
    assert(h@.subrange(0, h@.len() as int) =~= h@);
    true
}

impl Sku {
    /// A record for `sku` with zero prices, the default category and no history.
    pub fn new(sku: u32) -> (r: Sku)
        ensures
            r@ == SkuView::fresh(sku),
    {
        let r = Sku {
            sku,
            net_retail_price: 0,
            vat: Vat::Rate27,
            gross_retail_price: 0,
            history: Vec::new(),
        };
        assert(r@.history =~= Seq::<HistoryItem>::empty());
        r
    }

    /// A copy of the record.
    pub fn snapshot(&self) -> (r: Sku)
        ensures
            r@ == self@,
    {
        Sku {
            sku: self.sku,
            net_retail_price: self.net_retail_price,
            vat: self.vat,
            gross_retail_price: self.gross_retail_price,
            history: copy_history(&self.history),
        }
    }

    /// Sets the price `net` under `vat` on behalf of `actor` at time `at`.
    ///
    /// The gross price is always computed from `net` and `vat`;
    /// `expected_gross`, the caller's own figure, is not trusted and has no
    /// effect. The new state is logged with the time `at`, or with the time of
    /// the last entry should the clock read earlier than that. Returns a copy
    /// of the updated record.
    pub fn set_price(
        &mut self,
        net: u32,
        vat: Vat,
        expected_gross: u32,
        actor: u32,
        at: Timestamp,
    ) -> (r: Sku)
        requires
            old(self)@.wf(),
            gross_of(net as int, vat) <= u32::MAX,
        ensures
            final(self)@ == old(self)@.priced(net, vat, actor, at),
            final(self)@.wf(),
            r@ == final(self)@,
    {
        proof {
            lemma_priced_wf(self@, net, vat, actor, at);
        }
        let gross = gross_price(net, vat) as u32;
        let stamp = if self.history.len() > 0 {
            at.later_of(self.history[self.history.len() - 1].created_at)
        } else {
            at
        };
        self.net_retail_price = net;
        self.vat = vat;
        self.gross_retail_price = gross;
        self.history.push(
            HistoryItem {
                net_retail_price: net,
                vat,
                gross_retail_price: gross,
                created_by: actor,
                created_at: stamp,
            },
        );
        self.snapshot()
    }

    /// Whether the record meets its invariant.
    pub fn is_consistent(&self) -> (r: bool)
        ensures
            r == self@.wf(),
    {
        let g = gross_price(self.net_retail_price, self.vat);
        if g != self.gross_retail_price as u64 {
            return false;
        }
        let n = self.history.len();
        for i in 0..n
            invariant
                n == self.history@.len(),
                forall|k: int| 0 <= k < i ==> entry_consistent(#[trigger] self.history@[k]),
        {
            let e = self.history[i];
            if gross_price(e.net_retail_price, e.vat) != e.gross_retail_price as u64 {
                assert(!entry_consistent(self.history@[i as int]));
                return false;
            }
        }
        if !is_chronological(&self.history) {
            return false;
        }
        if n > 0 {
            let e = self.history[n - 1];
            e.net_retail_price == self.net_retail_price && e.vat == self.vat
                && e.gross_retail_price == self.gross_retail_price
        } else {
            self.net_retail_price == 0 && self.gross_retail_price == 0 && self.vat == Vat::Rate27
        }
    }

    /// Rebuilds a record from stored fields, or `None` where they break the
    /// record's invariant.
    pub fn restore(
        sku: u32,
        net_retail_price: u32,
        vat: Vat,
        gross_retail_price: u32,
        history: Vec<HistoryItem>,
    ) -> (r: Option<Sku>)
        ensures
            ({
                let v = SkuView {
                    sku,
                    net: net_retail_price,
                    vat,
                    gross: gross_retail_price,
                    history: history@,
                };
                &&& r is Some <==> v.wf()
                &&& r is Some ==> r->Some_0@ == v
            }),
    {
        let s = Sku { sku, net_retail_price, vat, gross_retail_price, history };
        if s.is_consistent() {
            Some(s)
        } else {
            None
        }
    }

    pub fn sku(&self) -> (r: u32)
        ensures
            r == self@.sku,
    {
        self.sku
    }

    pub fn net_retail_price(&self) -> (r: u32)
        ensures
            r == self@.net,
    {
        self.net_retail_price
    }

    pub fn vat(&self) -> (r: Vat)
        ensures
            r == self@.vat,
    {
        self.vat
    }

    pub fn gross_retail_price(&self) -> (r: u32)
        ensures
            r == self@.gross,
    {
        self.gross_retail_price
    }

    pub fn history(&self) -> (r: &Vec<HistoryItem>)
        ensures
            r@ == self@.history,
    {
        &self.history
    }

    /// Time of the last logged change, if any.
    pub fn last_change(&self) -> (r: Option<Timestamp>)
        ensures
            r == self@.last_change(),
    {
        if self.history.len() > 0 {
            Some(self.history[self.history.len() - 1].created_at)
        } else {
            None
        }
    }
}

} // verus!
