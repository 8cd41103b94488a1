use pricing::error::{DateBound, PricingError};
use pricing::record::{HistoryItem, Sku};
use pricing::service::{confirm_notification, PricingService};
use pricing::store::PriceStore;
use pricing::tax::{gross_price, Vat};
use pricing::time::Timestamp;

fn ts(secs: i64) -> Timestamp {
    Timestamp { secs, nanos: 0 }
}

fn service() -> PricingService {
    PricingService::init(PriceStore::new())
}

#[test]
fn set_price_then_change_category() {
    let mut svc = service();
    let first = svc.set_price(100, 1000, "27", 0, 1, ts(1)).unwrap();
    assert_eq!(first.net_retail_price(), 1000);
    assert_eq!(first.gross_retail_price(), 1270);
    assert_eq!(first.vat(), Vat::Rate27);
    let second = svc.set_price(100, 1000, "5", 0, 2, ts(1)).unwrap();
    assert_eq!(second.gross_retail_price(), 1050);
    assert_eq!(second.history().len(), 2);
    assert_eq!(second.history()[0].created_by, 1);
    assert_eq!(second.history()[1].created_by, 2);
    let stored = svc.get_price(100).unwrap();
    assert_eq!(stored.gross_retail_price(), 1050);
    assert_eq!(stored.vat(), Vat::Rate5);
}

#[test]
fn parse_exemption_code_in_any_case() {
    assert_eq!(Vat::parse("aam"), Ok(Vat::Aam));
    assert_eq!(Vat::parse("AAM"), Ok(Vat::Aam));
    assert_eq!(Vat::parse("aAm"), Ok(Vat::Aam));
    assert_eq!(gross_price(1234, Vat::parse("AAM").unwrap()), 1234);
    assert_eq!(Vat::parse("19"), Err(PricingError::InvalidTaxCode));
}

#[test]
fn parse_every_code() {
    assert_eq!(Vat::parse("fad"), Ok(Vat::Fad));
    assert_eq!(Vat::parse("TAM"), Ok(Vat::Tam));
    assert_eq!(Vat::parse("5"), Ok(Vat::Rate5));
    assert_eq!(Vat::parse("18"), Ok(Vat::Rate18));
    assert_eq!(Vat::parse("27"), Ok(Vat::Rate27));
    assert_eq!(Vat::parse(""), Err(PricingError::InvalidTaxCode));
    assert_eq!(Vat::parse("27%"), Err(PricingError::InvalidTaxCode));
    assert_eq!(Vat::parse("aamx"), Err(PricingError::InvalidTaxCode));
    assert_eq!(Vat::parse(" 5"), Err(PricingError::InvalidTaxCode));
}

#[test]
fn codes_read_back() {
    for v in [Vat::Aam, Vat::Fad, Vat::Tam, Vat::Rate5, Vat::Rate18, Vat::Rate27] {
        assert_eq!(Vat::parse(&v.code()), Ok(v));
    }
    assert_eq!(Vat::Aam.code(), "AAM");
    assert_eq!(Vat::Rate18.code(), "18");
    assert_eq!(Vat::default(), Vat::Rate27);
}

#[test]
fn gross_rounds_half_up() {
    assert_eq!(gross_price(1000, Vat::Rate27), 1270);
    assert_eq!(gross_price(10, Vat::Rate5), 11); // 10.5
    assert_eq!(gross_price(9, Vat::Rate5), 9); // 9.45
    assert_eq!(gross_price(1, Vat::Rate18), 1); // 1.18
    assert_eq!(gross_price(3, Vat::Rate18), 4); // 3.54
    assert_eq!(gross_price(0, Vat::Rate27), 0);
    assert_eq!(gross_price(u32::MAX, Vat::Tam), u32::MAX as u64);
    assert_eq!(gross_price(u32::MAX, Vat::Rate27), 5_454_608_465); // 5454608464.65
}

#[test]
fn caller_gross_is_ignored() {
    let mut store = PriceStore::new();
    let r = store.set_price(7, 200, Vat::Rate18, 999, 3, ts(1));
    assert_eq!(r.gross_retail_price(), 236);
    assert_eq!(r.history()[0].gross_retail_price, 236);
}

#[test]
fn first_and_second_price_set() {
    let mut store = PriceStore::new();
    store.set_price(1, 50, Vat::Rate27, 0, 9, ts(1));
    assert_eq!(store.len(), 1);
    let a = store.set_price(2, 100, Vat::Aam, 0, 9, ts(2));
    assert_eq!(store.len(), 2);
    assert_eq!(a.sku(), 2);
    assert_eq!(a.history().len(), 1);
    let b = store.set_price(2, 300, Vat::Rate5, 0, 8, ts(3));
    assert_eq!(store.len(), 2);
    assert_eq!(b.sku(), 2);
    assert_eq!(b.history().len(), 2);
    assert_eq!(b.history()[0], a.history()[0]);
    assert_eq!(b.history()[1].net_retail_price, 300);
    assert_eq!(b.history()[1].gross_retail_price, 315);
}

#[test]
fn history_keeps_time_order_when_clock_steps_back() {
    let mut store = PriceStore::new();
    store.set_price(5, 100, Vat::Rate27, 0, 1, ts(100));
    let r = store.set_price(5, 200, Vat::Rate27, 0, 1, ts(50));
    assert_eq!(r.history()[1].created_at, ts(100));
    let r = store.set_price(5, 300, Vat::Rate27, 0, 1, ts(150));
    assert_eq!(r.history()[2].created_at, ts(150));
    let last = r.history().last().unwrap();
    assert_eq!(last.net_retail_price, r.net_retail_price());
    assert_eq!(last.gross_retail_price, r.gross_retail_price());
    assert_eq!(last.vat, r.vat());
    assert!(r.is_consistent());
}

#[test]
fn changed_between_is_inclusive() {
    let mut store = PriceStore::new();
    store.set_price(1, 10, Vat::Rate27, 0, 1, ts(10));
    store.set_price(2, 10, Vat::Rate27, 0, 1, ts(20));
    store.set_price(3, 10, Vat::Rate27, 0, 1, ts(30));
    store.set_price(1, 11, Vat::Rate27, 0, 1, ts(40));
    assert_eq!(store.changed_between(ts(20), ts(30)), vec![2, 3]);
    assert_eq!(store.changed_between(ts(10), ts(10)), Vec::<u32>::new());
    assert_eq!(store.changed_between(ts(40), ts(40)), vec![1]);
    assert_eq!(store.changed_between(ts(0), ts(100)), vec![1, 2, 3]);
    assert_eq!(store.changed_between(ts(31), ts(39)), Vec::<u32>::new());
    let sub = Timestamp { secs: 30, nanos: 1 };
    assert_eq!(store.changed_between(sub, ts(40)), vec![1]);
}

#[test]
fn changed_between_skips_empty_history() {
    let empty = Sku::new(4);
    let store = PriceStore::from_records(vec![empty]).unwrap();
    assert_eq!(store.changed_between(ts(i64::MIN), ts(i64::MAX)), Vec::<u32>::new());
}

#[test]
fn bulk_omits_unknown() {
    let mut svc = service();
    svc.set_price(1, 100, "27", 0, 1, ts(1)).unwrap();
    svc.set_price(2, 200, "5", 0, 1, ts(1)).unwrap();
    svc.set_price(3, 300, "aam", 0, 1, ts(1)).unwrap();
    let got = svc.get_price_bulk(&vec![3, 99, 1, 42]);
    let ids: Vec<u32> = got.iter().map(|s| s.sku()).collect();
    assert_eq!(ids, vec![1, 3]);
    assert!(svc.get_price_bulk(&vec![7, 8]).is_empty());
    assert!(svc.get_price_bulk(&vec![]).is_empty());
}

#[test]
fn point_lookups_report_not_found() {
    let mut svc = service();
    assert_eq!(svc.get_price(5), Err(PricingError::NotFound));
    assert_eq!(svc.get_price_history(5), Err(PricingError::NotFound));
    svc.set_price(5, 100, "18", 0, 4, ts(1)).unwrap();
    let h = svc.get_price_history(5).unwrap();
    assert_eq!(h.len(), 1);
    assert_eq!(h[0].gross_retail_price, 118);
    assert_eq!(h[0].created_by, 4);
}

#[test]
fn store_history_of_unknown_is_empty() {
    let store = PriceStore::new();
    assert!(store.history(1).is_empty());
    assert!(store.get(1).is_none());
}

#[test]
fn set_price_errors_leave_store_unchanged() {
    let mut svc = service();
    assert_eq!(svc.set_price(1, 100, "19", 0, 1, ts(1)), Err(PricingError::InvalidTaxCode));
    assert_eq!(svc.get_price(1), Err(PricingError::NotFound));
    assert_eq!(
        svc.set_price(1, u32::MAX, "27", 0, 1, ts(1)),
        Err(PricingError::PriceOutOfRange)
    );
    assert_eq!(svc.get_price(1), Err(PricingError::NotFound));
    assert!(svc.set_price(1, u32::MAX, "tam", 0, 1, ts(1)).is_ok());
}

#[test]
fn service_set_price_stamps_given_time() {
    let mut svc = service();
    let r = svc.set_price(1, 100, "27", 0, 1, ts(1_600_000_000)).unwrap();
    assert_eq!(r.history()[0].created_at, ts(1_600_000_000));
    let r = svc.set_price(1, 100, "27", 0, 2, ts(5)).unwrap();
    assert_eq!(r.history()[1].created_at, ts(1_600_000_000));
    let r = svc.set_price(1, 100, "27", 0, 3, ts(1_700_000_000)).unwrap();
    assert_eq!(r.history()[2].created_at, ts(1_700_000_000));
    assert_eq!(r.history()[2].created_by, 3);
}

#[test]
fn latest_changes_by_rfc3339_window() {
    let mut store = PriceStore::new();
    store.set_price(1, 10, Vat::Rate27, 0, 1, ts(1_609_459_200)); // 2021-01-01T00:00:00Z
    store.set_price(2, 10, Vat::Rate27, 0, 1, ts(1_609_545_600)); // 2021-01-02T00:00:00Z
    let svc = PricingService::init(store);
    assert_eq!(
        svc.get_latest_price_changes("2021-01-01T00:00:00Z", "2021-01-01T23:59:59Z"),
        Ok(vec![1])
    );
    assert_eq!(
        svc.get_latest_price_changes("2021-01-01T01:00:00+01:00", "2021-01-02T00:00:00Z"),
        Ok(vec![1, 2])
    );
    assert_eq!(
        svc.get_latest_price_changes("yesterday", "2021-01-02T00:00:00Z"),
        Err(PricingError::InvalidDateRange(DateBound::From))
    );
    assert_eq!(
        svc.get_latest_price_changes("2021-01-01T00:00:00Z", "2021-13-01T00:00:00Z"),
        Err(PricingError::InvalidDateRange(DateBound::Till))
    );
}

#[test]
fn rfc3339_reads_instant() {
    assert_eq!(Timestamp::from_rfc3339("2021-01-01T00:00:00Z"), Some(ts(1_609_459_200)));
    assert_eq!(
        Timestamp::from_rfc3339("2021-01-01T01:00:00.5+01:00"),
        Some(Timestamp { secs: 1_609_459_200, nanos: 500_000_000 })
    );
    assert_eq!(Timestamp::from_rfc3339("2021-01-01"), None);
}

#[test]
fn timestamp_order() {
    let a = Timestamp { secs: 5, nanos: 10 };
    let b = Timestamp { secs: 5, nanos: 20 };
    assert!(a.is_no_later_than(&b));
    assert!(!b.is_no_later_than(&a));
    assert!(a.is_no_later_than(&a));
    assert_eq!(a.later_of(b), b);
    assert_eq!(ts(-1).later_of(ts(0)), ts(0));
}

#[test]
fn notification_outcome() {
    let mut store = PriceStore::new();
    let r = store.set_price(1, 100, Vat::Rate27, 0, 1, ts(1));
    assert_eq!(confirm_notification(r.clone(), Ok(())), Ok(r.clone()));
    assert_eq!(
        confirm_notification(r, Err("unavailable".to_string())),
        Err(PricingError::DownstreamNotificationFailed("unavailable".to_string()))
    );
}

#[test]
fn restore_checks_invariant() {
    let e = HistoryItem {
        net_retail_price: 100,
        vat: Vat::Rate27,
        gross_retail_price: 127,
        created_by: 1,
        created_at: ts(5),
    };
    assert!(Sku::restore(1, 100, Vat::Rate27, 127, vec![e]).is_some());
    assert!(Sku::restore(1, 100, Vat::Rate27, 128, vec![e]).is_none());
    let bad_entry = HistoryItem { gross_retail_price: 126, ..e };
    assert!(Sku::restore(1, 100, Vat::Rate27, 127, vec![bad_entry]).is_none());
    let earlier = HistoryItem { created_at: ts(4), ..e };
    assert!(Sku::restore(1, 100, Vat::Rate27, 127, vec![e, earlier]).is_none());
    assert!(Sku::restore(1, 100, Vat::Rate27, 127, vec![earlier, e]).is_some());
    assert!(Sku::restore(1, 100, Vat::Rate27, 127, vec![]).is_none());
    assert!(Sku::restore(1, 0, Vat::Rate27, 0, vec![]).is_some());
    let other = HistoryItem { net_retail_price: 200, gross_retail_price: 254, ..e };
    assert!(Sku::restore(1, 100, Vat::Rate27, 127, vec![other]).is_none());
}

#[test]
fn from_records_rejects_duplicate_ids() {
    let a = Sku::new(1);
    let b = Sku::new(2);
    let c = Sku::new(1);
    assert!(PriceStore::from_records(vec![a.clone(), b.clone()]).is_some());
    assert!(PriceStore::from_records(vec![a, b, c]).is_none());
    assert_eq!(PriceStore::from_records(vec![]).unwrap().len(), 0);
}

#[test]
fn either_order_keeps_gross_consistent() {
    for order in [[0usize, 1], [1, 0]] {
        let mut store = PriceStore::new();
        let reqs = [(9u32, 1000u32, Vat::Rate27), (9u32, 777u32, Vat::Rate18)];
        for k in order {
            let (id, net, vat) = reqs[k];
            store.set_price(id, net, vat, 1, k as u32, ts(1));
        }
        let r = store.get(9).unwrap();
        assert_eq!(r.gross_retail_price() as u64, gross_price(r.net_retail_price(), r.vat()));
        assert!(r.is_consistent());
        assert_eq!(r.history().len(), 2);
    }
}
