use funpay_rs::models::OfferId;
use funpay_rs::monitor::{Monitor, MonitorEvent};
use funpay_rs::number::Amount;

#[test]
fn monitor_tests_test_monitor_creation() {
    let _monitor = Monitor::new();
    assert!(true);
}

#[test]
fn test_monitor_detects_new_offers() {
    let mut monitor = Monitor::new();
    let offers = vec![
        (OfferId("1".to_string()), Amount::from_int(100)),
        (OfferId("2".to_string()), Amount::from_int(200)),
    ];
    let events = monitor.check_for_changes(offers);
    assert_eq!(events.len(), 2);
    assert!(matches!(&events[0], MonitorEvent::NewOffer { .. }));
}

#[test]
fn test_monitor_detects_price_change() {
    let mut monitor = Monitor::new();
    monitor.check_for_changes(vec![(OfferId("1".to_string()), Amount::from_int(100))]);
    let events = monitor.check_for_changes(vec![(OfferId("1".to_string()), Amount::from_int(90))]);
    assert_eq!(events.len(), 1);
    assert!(matches!(&events[0], MonitorEvent::PriceChanged { .. }));
}

#[test]
fn test_monitor_detects_removed_offer() {
    let mut monitor = Monitor::new();
    monitor.check_for_changes(vec![(OfferId("1".to_string()), Amount::from_int(100))]);
    let events = monitor.check_for_changes(vec![]);
    assert_eq!(events.len(), 1);
    assert!(matches!(&events[0], MonitorEvent::OfferRemoved { .. }));
}

fn price(m: u64, s: usize) -> Amount {
    Amount::new(m, s)
}

#[test]
fn monitor_same_offers_twice_reports_nothing() {
    let mut monitor = Monitor::new();
    let offers = || {
        vec![
            (OfferId("a".to_string()), price(1005, 1)),
            (OfferId("b".to_string()), price(3, 0)),
            (OfferId("a".to_string()), price(1007, 1)),
        ]
    };
    let first = monitor.check_for_changes(offers());
    assert_eq!(first.len(), 2);
    let second = monitor.check_for_changes(offers());
    assert!(second.is_empty());
}

#[test]
fn monitor_ignores_moves_of_a_hundredth() {
    let mut monitor = Monitor::new();
    monitor.check_for_changes(vec![(OfferId("1".to_string()), price(10000, 2))]);
    let small = monitor.check_for_changes(vec![(OfferId("1".to_string()), price(10001, 2))]);
    assert!(small.is_empty());
    let exact = monitor.check_for_changes(vec![(OfferId("1".to_string()), price(1000200, 4))]);
    assert!(exact.is_empty());
    let big = monitor.check_for_changes(vec![(OfferId("1".to_string()), price(100, 0))]);
    assert_eq!(big.len(), 1);
    match &big[0] {
        MonitorEvent::PriceChanged { offer_id, old_price, new_price } => {
            assert_eq!(offer_id.0, "1");
            assert_eq!((old_price.mantissa(), old_price.scale()), ("1000200".to_string(), 4));
            assert_eq!((new_price.mantissa(), new_price.scale()), ("100".to_string(), 0));
        }
        _ => panic!("expected a price change"),
    }
}

#[test]
fn monitor_event_order() {
    let mut monitor = Monitor::new();
    monitor.check_for_changes(vec![
        (OfferId("x".to_string()), Amount::from_int(1)),
        (OfferId("y".to_string()), Amount::from_int(2)),
    ]);
    let events = monitor.check_for_changes(vec![
        (OfferId("z".to_string()), Amount::from_int(5)),
        (OfferId("y".to_string()), Amount::from_int(3)),
    ]);
    assert_eq!(events.len(), 3);
    assert!(matches!(&events[0], MonitorEvent::NewOffer { offer_id } if offer_id.0 == "z"));
    assert!(matches!(&events[1], MonitorEvent::PriceChanged { offer_id, .. } if offer_id.0 == "y"));
    assert!(matches!(&events[2], MonitorEvent::OfferRemoved { offer_id } if offer_id.0 == "x"));
}
