use crate::record::{HistoryItem, Sku, SkuView};
use crate::tax::{gross_of, Vat};
use crate::time::Timestamp;
use vstd::prelude::*;

verus! {

/// No two records share a SKU id.
pub open spec fn ids_unique(s: Seq<SkuView>) -> bool {
    forall|i: int, j: int|
        0 <= i < s.len() && 0 <= j < s.len() && i != j ==> (#[trigger] s[i]).sku != (#[trigger] s[j]).sku
}

/// The store's invariant: SKU ids are unique and every record is well formed.
pub open spec fn store_wf(s: Seq<SkuView>) -> bool {
    &&& ids_unique(s)
    &&& forall|i: int| 0 <= i < s.len() ==> (#[trigger] s[i]).wf()
}

pub open spec fn has_id(s: Seq<SkuView>, id: u32) -> bool {
    exists|i: int| 0 <= i < s.len() && (#[trigger] s[i]).sku == id
}

pub open spec fn index_of(s: Seq<SkuView>, id: u32) -> int {
    choose|i: int| 0 <= i < s.len() && (#[trigger] s[i]).sku == id
}

/// The record stored for `id`, if any.
pub open spec fn lookup(s: Seq<SkuView>, id: u32) -> Option<SkuView> {
    if has_id(s, id) {
        Some(s[index_of(s, id)])
    } else {
        None
    }
}

/// The store after `actor` set the price of `id` at `at`: the record of `id`
/// is updated in place, or, where there is none, a fresh one with that price
/// is added at the end.
pub open spec fn with_price(
    s: Seq<SkuView>,
    id: u32,
    net: u32,
    vat: Vat,
    actor: u32,
    at: Timestamp,
) -> Seq<SkuView> {
    if has_id(s, id) {
        let i = index_of(s, id);
        s.update(i, s[i].priced(net, vat, actor, at))
    } else {
        s.push(SkuView::fresh(id).priced(net, vat, actor, at))
    }
}

/// The record's last change lies within `[from, till]`, both ends included.
pub open spec fn changed_within(r: SkuView, from: Timestamp, till: Timestamp) -> bool {
    match r.last_change() {
        Some(t) => from.no_later_than(t) && t.no_later_than(till),
        None => false,
    }
}

/// Ids of the records last changed within `[from, till]`, in store order.
pub open spec fn changed_ids(s: Seq<SkuView>, from: Timestamp, till: Timestamp) -> Seq<u32>
    decreases s.len(),
{
    if s.len() == 0 {
        Seq::empty()
    } else {
        let rest = changed_ids(s.drop_last(), from, till);
        if changed_within(s.last(), from, till) {
            rest.push(s.last().sku)
        } else {
            rest
        }
    }
}

/// The records whose id is among `ids`, in store order.
pub open spec fn bulk_of(s: Seq<SkuView>, ids: Seq<u32>) -> Seq<SkuView>
    decreases s.len(),
{
    if s.len() == 0 {
        Seq::empty()
    } else {
        let rest = bulk_of(s.drop_last(), ids);
        if ids.contains(s.last().sku) {
            rest.push(s.last())
        } else {
            rest
        }
    }
}

/// With unique ids, the record at `i` is the one that `lookup` finds.
pub proof fn lemma_lookup_at(s: Seq<SkuView>, i: int)
    requires
        ids_unique(s),
        0 <= i < s.len(),
    ensures
        has_id(s, s[i].sku),
        index_of(s, s[i].sku) == i,
        lookup(s, s[i].sku) == Some(s[i]),
{
    assert(has_id(s, s[i].sku));
}

/// Setting a price keeps the store's invariant, and afterwards the store
/// holds the priced record for `id`.
pub proof fn lemma_with_price_wf(
    s: Seq<SkuView>,
    id: u32,
    net: u32,
    vat: Vat,
    actor: u32,
    at: Timestamp,
)
    requires
        store_wf(s),
        gross_of(net as int, vat) <= u32::MAX,
    ensures
        store_wf(with_price(s, id, net, vat, actor, at)),
        lookup(with_price(s, id, net, vat, actor, at), id) == Some(
            match lookup(s, id) {
                Some(r) => r.priced(net, vat, actor, at),
                None => SkuView::fresh(id).priced(net, vat, actor, at),
            },
        ),
{
    let t = with_price(s, id, net, vat, actor, at);
    if has_id(s, id) {
        let i = index_of(s, id);
        crate::record::lemma_priced_wf(s[i], net, vat, actor, at);
        assert(t[i].sku == id);
        assert(ids_unique(t)) by {
            assert forall|a: int, b: int|
                0 <= a < t.len() && 0 <= b < t.len() && a != b implies (#[trigger] t[a]).sku != (#[trigger] t[b]).sku by {
                assert(s[a].sku == t[a].sku && s[b].sku == t[b].sku);
            }
        }
        lemma_lookup_at(t, i);
    } else {
        let fresh = SkuView::fresh(id);
        assert(fresh.wf());
        crate::record::lemma_priced_wf(fresh, net, vat, actor, at);
        let n = s.len() as int;
        assert(ids_unique(t)) by {
            assert forall|a: int, b: int|
                0 <= a < t.len() && 0 <= b < t.len() && a != b implies (#[trigger] t[a]).sku != (#[trigger] t[b]).sku by {
                if a < n && b < n {
                    assert(s[a] == t[a] && s[b] == t[b]);
                } else if a < n {
                    assert(s[a] == t[a]);
                } else {
                    assert(s[b] == t[b]);
                }
            }
        }
        assert(forall|a: int| 0 <= a < n ==> s[a] == #[trigger] t[a]);
        lemma_lookup_at(t, n);
    }
}

/// The first price set for an unknown SKU adds exactly one record, holding
/// exactly one history entry; a second price set for it adds no record,
/// appends exactly one entry, keeps the earlier entry and keeps the SKU id.
pub proof fn lemma_first_then_second_price(
    s: Seq<SkuView>,
    id: u32,
    net1: u32,
    vat1: Vat,
    actor1: u32,
    at1: Timestamp,
    net2: u32,
    vat2: Vat,
    actor2: u32,
    at2: Timestamp,
)
    requires
        store_wf(s),
        lookup(s, id) is None,
        gross_of(net1 as int, vat1) <= u32::MAX,
        gross_of(net2 as int, vat2) <= u32::MAX,
    ensures
        ({
            let s1 = with_price(s, id, net1, vat1, actor1, at1);
            let s2 = with_price(s1, id, net2, vat2, actor2, at2);
            &&& s1.len() == s.len() + 1
            &&& lookup(s1, id) is Some
            &&& lookup(s1, id)->Some_0.sku == id
            &&& lookup(s1, id)->Some_0.history.len() == 1
            &&& s2.len() == s1.len()
            &&& lookup(s2, id) is Some
            &&& lookup(s2, id)->Some_0.sku == id
            &&& lookup(s2, id)->Some_0.history.len() == 2
            &&& lookup(s2, id)->Some_0.history[0] == lookup(s1, id)->Some_0.history[0]
        }),
{
    let s1 = with_price(s, id, net1, vat1, actor1, at1);
    lemma_with_price_wf(s, id, net1, vat1, actor1, at1);
    lemma_with_price_wf(s1, id, net2, vat2, actor2, at2);
    let r1 = lookup(s1, id)->Some_0;
    assert(r1.priced(net2, vat2, actor2, at2).history[0] == r1.history[0]);
}

/// Two price sets applied one after the other, in either order, leave a
/// well-formed store: every record's gross price, current and logged, follows
/// from its net price and category, and each SKU set last carries the price
/// set last.
pub proof fn lemma_price_sets_in_either_order(
    s: Seq<SkuView>,
    id_a: u32,
    net_a: u32,
    vat_a: Vat,
    actor_a: u32,
    at_a: Timestamp,
    id_b: u32,
    net_b: u32,
    vat_b: Vat,
    actor_b: u32,
    at_b: Timestamp,
)
    requires
        store_wf(s),
        gross_of(net_a as int, vat_a) <= u32::MAX,
        gross_of(net_b as int, vat_b) <= u32::MAX,
    ensures
        ({
            let ab = with_price(with_price(s, id_a, net_a, vat_a, actor_a, at_a), id_b, net_b, vat_b, actor_b, at_b);
            let ba = with_price(with_price(s, id_b, net_b, vat_b, actor_b, at_b), id_a, net_a, vat_a, actor_a, at_a);
            &&& store_wf(ab)
            &&& store_wf(ba)
            &&& lookup(ab, id_b) is Some
            &&& lookup(ab, id_b)->Some_0.net == net_b
            &&& lookup(ab, id_b)->Some_0.vat == vat_b
            &&& lookup(ab, id_b)->Some_0.gross == gross_of(net_b as int, vat_b)
            &&& lookup(ba, id_a) is Some
            &&& lookup(ba, id_a)->Some_0.net == net_a
            &&& lookup(ba, id_a)->Some_0.vat == vat_a
            &&& lookup(ba, id_a)->Some_0.gross == gross_of(net_a as int, vat_a)
        }),
{
    let a = with_price(s, id_a, net_a, vat_a, actor_a, at_a);
    let b = with_price(s, id_b, net_b, vat_b, actor_b, at_b);
    lemma_with_price_wf(s, id_a, net_a, vat_a, actor_a, at_a);
    lemma_with_price_wf(s, id_b, net_b, vat_b, actor_b, at_b);
    lemma_with_price_wf(a, id_b, net_b, vat_b, actor_b, at_b);
    lemma_with_price_wf(b, id_a, net_a, vat_a, actor_a, at_a);
}

/// A record is among the changed ids exactly when some record with that id
/// has a last change within `[from, till]`, both ends included; a record
/// with no history never is.
pub proof fn lemma_changed_ids_members(s: Seq<SkuView>, from: Timestamp, till: Timestamp, id: u32)
    ensures
        changed_ids(s, from, till).contains(id) <==> exists|i: int|
            0 <= i < s.len() && (#[trigger] s[i]).sku == id && changed_within(s[i], from, till),
        forall|i: int| 0 <= i < s.len() && (#[trigger] s[i]).history.len() == 0 ==> !changed_within(s[i], from, till),
    decreases s.len(),
{
    if s.len() > 0 {
        let t = s.drop_last();
        lemma_changed_ids_members(t, from, till, id);
        let rest = changed_ids(t, from, till);
        let n = s.len() - 1;
        if changed_ids(s, from, till).contains(id) {
            if rest.contains(id) {
                let i = choose|i: int| 0 <= i < t.len() && (#[trigger] t[i]).sku == id && changed_within(t[i], from, till);
                assert(s[i] == t[i]);
            } else {
                let k = choose|k: int| 0 <= k < changed_ids(s, from, till).len() && changed_ids(s, from, till)[k] == id;
                if k < rest.len() {
                    assert(rest[k] == id);
                }
                assert(s[n].sku == id);
            }
        }
        if exists|i: int| 0 <= i < s.len() && (#[trigger] s[i]).sku == id && changed_within(s[i], from, till) {
            let i = choose|i: int| 0 <= i < s.len() && (#[trigger] s[i]).sku == id && changed_within(s[i], from, till);
            if i < n {
                assert(t[i] == s[i]);
                let k = choose|k: int| 0 <= k < rest.len() && rest[k] == id;
                if changed_within(s.last(), from, till) {
                    assert(changed_ids(s, from, till)[k] == id);
                }
            } else {
                assert(changed_ids(s, from, till).last() == id);
            }
        }
    }
}

/// A record is in a bulk result exactly when the store holds it and its id
/// was asked for.
pub proof fn lemma_bulk_members(s: Seq<SkuView>, ids: Seq<u32>, x: SkuView)
    ensures
        bulk_of(s, ids).contains(x) <==> s.contains(x) && ids.contains(x.sku),
    decreases s.len(),
{
    if s.len() > 0 {
        let t = s.drop_last();
        lemma_bulk_members(t, ids, x);
        let rest = bulk_of(t, ids);
        let b = bulk_of(s, ids);
        if b.contains(x) {
            let k = choose|k: int| 0 <= k < b.len() && b[k] == x;
            if k < rest.len() {
                assert(rest[k] == x);
                let i = choose|i: int| 0 <= i < t.len() && t[i] == x;
                assert(s[i] == x);
            } else {
                assert(s[s.len() - 1] == x);
            }
        }
        if s.contains(x) && ids.contains(x.sku) {
            let i = choose|i: int| 0 <= i < s.len() && s[i] == x;
            if i < s.len() - 1 {
                assert(t[i] == x);
                let k = choose|k: int| 0 <= k < rest.len() && rest[k] == x;
                if ids.contains(s.last().sku) {
                    assert(b[k] == x);
                }
            } else {
                assert(b.last() == x);
            }
        }
    }
}

/// A bulk query returns only stored records whose ids were asked for, and of
/// each asked-for id exactly those that are stored: ids without a record are
/// left out.
pub proof fn lemma_bulk_known_only(s: Seq<SkuView>, ids: Seq<u32>)
    requires
        store_wf(s),
    ensures
        forall|k: int|
            0 <= k < bulk_of(s, ids).len() ==> ids.contains((#[trigger] bulk_of(s, ids)[k]).sku)
                && lookup(s, bulk_of(s, ids)[k].sku) == Some(bulk_of(s, ids)[k]),
        forall|id: u32|
            ids.contains(id) ==> (lookup(s, id) is Some <==> exists|k: int|
                0 <= k < bulk_of(s, ids).len() && (#[trigger] bulk_of(s, ids)[k]).sku == id),
{
    let b = bulk_of(s, ids);
    assert forall|k: int| 0 <= k < b.len() implies ids.contains((#[trigger] b[k]).sku) && lookup(s, b[k].sku) == Some(b[k]) by {
        lemma_bulk_members(s, ids, b[k]);
        assert(b.contains(b[k]));
        let i = choose|i: int| 0 <= i < s.len() && s[i] == b[k];
        lemma_lookup_at(s, i);
    }
    assert forall|id: u32| ids.contains(id) implies (lookup(s, id) is Some <==> exists|k: int|
        0 <= k < b.len() && (#[trigger] b[k]).sku == id) by {
        if lookup(s, id) is Some {
            let i = index_of(s, id);
            lemma_bulk_members(s, ids, s[i]);
            assert(s.contains(s[i]));
            let k = choose|k: int| 0 <= k < b.len() && b[k] == s[i];
            assert(b[k].sku == id);
        }
        if exists|k: int| 0 <= k < b.len() && (#[trigger] b[k]).sku == id {
            let k = choose|k: int| 0 <= k < b.len() && (#[trigger] b[k]).sku == id;
            lemma_bulk_members(s, ids, b[k]);
            assert(b.contains(b[k]));
            let i = choose|i: int| 0 <= i < s.len() && s[i] == b[k];
            assert(has_id(s, id));
        }
    }
}

/// A keyed collection of price records, in insertion order.
pub struct PriceStore {
    records: Vec<Sku>,
}

impl View for PriceStore {
    type V = Seq<SkuView>;

    closed spec fn view(&self) -> Seq<SkuView> {
        self.records@.map_values(|r: Sku| r@)
    }
}

impl PriceStore {
    pub open spec fn wf(&self) -> bool {
        store_wf(self@)
    }

    /// An empty store.
    pub fn new() -> (r: PriceStore)
        ensures
            r@ == Seq::<SkuView>::empty(),
            r.wf(),
    {
        let r = PriceStore { records: Vec::new() };
        assert(r@ =~= Seq::<SkuView>::empty());
        r
    }

    /// A store of the given records, in their order, or `None` where two share
    /// an id or one breaks the record invariant.
    pub fn from_records(records: Vec<Sku>) -> (r: Option<PriceStore>)
        ensures
            r is Some <==> store_wf(records@.map_values(|x: Sku| x@)),
            r is Some ==> r->Some_0@ == records@.map_values(|x: Sku| x@),
    {
        let ghost v = records@.map_values(|x: Sku| x@);
        let n = records.len();
        for i in 0..n
            invariant
                n == records@.len(),
                v == records@.map_values(|x: Sku| x@),
                forall|a: int| 0 <= a < i ==> (#[trigger] v[a]).wf(),
                forall|a: int, b: int|
                    0 <= a < i && 0 <= b < i && a != b ==> (#[trigger] v[a]).sku != (#[trigger] v[b]).sku,
        {
            if !records[i].is_consistent() {
                assert(!v[i as int].wf());
                return None;
            }
            for j in 0..i
                invariant
                    n == records@.len(),
                    i < n,
                    v == records@.map_values(|x: Sku| x@),
                    forall|b: int| 0 <= b < j ==> (#[trigger] v[b]).sku != v[i as int].sku,
            {
                if records[j].sku() == records[i].sku() {
                    assert(v[j as int].sku == v[i as int].sku);
                    return None;
                }
            }
        }
        Some(PriceStore { records })
    }

    /// Index of the record of `id`, if there is one.
    fn position(&self, id: u32) -> (r: Option<usize>)
        ensures
            match r {
                Some(i) => i < self@.len() && self@[i as int].sku == id,
                None => !has_id(self@, id),
            },
    {
        let n = self.records.len();
        for i in 0..n
            invariant
                n == self@.len(),
                forall|a: int| 0 <= a < i ==> (#[trigger] self@[a]).sku != id,
        {
            if self.records[i].sku() == id {
                return Some(i);
            }
        }
        None
    }

    /// Number of records.
    pub fn len(&self) -> (r: usize)
        ensures
            r == self@.len(),
    {
        self.records.len()
    }

    /// A copy of the record of `id`, or `None` where there is none.
    pub fn get(&self, id: u32) -> (r: Option<Sku>)
        requires
            self.wf(),
        ensures
            match r {
                Some(x) => lookup(self@, id) == Some(x@),
                None => lookup(self@, id) is None,
            },
    {
        match self.position(id) {
            Some(i) => {
                proof {
                    lemma_lookup_at(self@, i as int);
                }
                Some(self.records[i].snapshot())
            },
            None => None,
        }
    }

    /// Copies of the records whose id is among `ids`, in store order; ids
    /// without a record are left out.
    pub fn get_many(&self, ids: &Vec<u32>) -> (r: Vec<Sku>)
        ensures
            r@.map_values(|x: Sku| x@) == bulk_of(self@, ids@),
    {
        let mut out: Vec<Sku> = Vec::new();
        let n = self.records.len();
        for i in 0..n
            invariant
                n == self@.len(),
                out@.map_values(|x: Sku| x@) == bulk_of(self@.subrange(0, i as int), ids@),
        {
            let ghost pre = self@.subrange(0, i + 1);
            assert(pre.drop_last() =~= self@.subrange(0, i as int));
            if contains_id(ids, self.records[i].sku()) {
                out.push(self.records[i].snapshot());
            }
            assert(out@.map_values(|x: Sku| x@) =~= bulk_of(pre, ids@));
        }
        assert(self@.subrange(0, n as int) =~= self@);
        out
    }

    /// Sets the price of `id`: the record is updated where there is one, and
    /// otherwise created with this price. One step, so no other change can
    /// come between the check for the record and the update. Returns a copy
    /// of the record afterwards.
    pub fn set_price(
        &mut self,
        id: u32,
        net: u32,
        vat: Vat,
        expected_gross: u32,
        actor: u32,
        at: Timestamp,
    ) -> (r: Sku)
        requires
            old(self).wf(),
            gross_of(net as int, vat) <= u32::MAX,
        ensures
            final(self)@ == with_price(old(self)@, id, net, vat, actor, at),
            final(self).wf(),
            lookup(final(self)@, id) == Some(r@),
    {
        proof {
            lemma_with_price_wf(self@, id, net, vat, actor, at);
        }
        let ghost s = self@;
        match self.position(id) {
            Some(i) => {
                proof {
                    lemma_lookup_at(s, i as int);
                }
                let snap = self.records[i].set_price(net, vat, expected_gross, actor, at);
                assert(self@ =~= with_price(s, id, net, vat, actor, at));
                snap
            },
            None => {
                let mut rec = Sku::new(id);
                let snap = rec.set_price(net, vat, expected_gross, actor, at);
                self.records.push(rec);
                assert(self@ =~= with_price(s, id, net, vat, actor, at));
                snap
            },
        }
    }

    /// The price history of `id`; empty where there is no record.
    pub fn history(&self, id: u32) -> (r: Vec<HistoryItem>)
        requires
            self.wf(),
        ensures
            r@ == match lookup(self@, id) {
                Some(x) => x.history,
                None => Seq::empty(),
            },
    {
        match self.get(id) {
            Some(x) => {
                let h = x.history();
                let mut out: Vec<HistoryItem> = Vec::new();
                for k in 0..h.len()
                    invariant
                        out@ == h@.subrange(0, k as int),
                {
                    out.push(h[k]);
                    assert(out@ =~= h@.subrange(0, k + 1));
                }
                assert(out@ =~= h@);
                out
            },
            None => {
                let out: Vec<HistoryItem> = Vec::new();
                assert(out@ =~= Seq::<HistoryItem>::empty());
                out
            },
        }
    }

    /// Ids of the records whose last change lies within `[from, till]`, both
    /// ends included, in store order. Records with no history are left out.
    pub fn changed_between(&self, from: Timestamp, till: Timestamp) -> (r: Vec<u32>)
        ensures
            r@ == changed_ids(self@, from, till),
    {
        let mut out: Vec<u32> = Vec::new();
        let n = self.records.len();
        for i in 0..n
            invariant
                n == self@.len(),
                out@ == changed_ids(self@.subrange(0, i as int), from, till),
        {
            let ghost pre = self@.subrange(0, i + 1);
            assert(pre.drop_last() =~= self@.subrange(0, i as int));
            let inside = match self.records[i].last_change() {
                Some(t) => from.is_no_later_than(&t) && t.is_no_later_than(&till),
                None => false,
            };
            if inside {
                out.push(self.records[i].sku());
            }
            assert(out@ =~= changed_ids(pre, from, till));
        }
        assert(self@.subrange(0, n as int) =~= self@);
        out
    }
}

fn contains_id(ids: &Vec<u32>, id: u32) -> (r: bool)
    ensures
        r == ids@.contains(id),
{
    for i in 0..ids.len()
        invariant
            forall|a: int| 0 <= a < i ==> ids@[a] != id,
    {
        if ids[i] == id {
            assert(ids@[i as int] == id);
            return true;
        }
    }
    false
}

} // verus!
