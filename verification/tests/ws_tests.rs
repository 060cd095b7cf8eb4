use funpay_rs::ws::{WsEvent, WsMonitor};

#[test]
fn test_ws_monitor_url_construction() {
    let monitor = WsMonitor::new("https://funpay.com");
    assert_eq!(monitor.url(), "wss://funpay.com/ws");
}

#[test]
fn test_ws_monitor_strips_http() {
    let monitor = WsMonitor::new("http://funpay.com");
    assert_eq!(monitor.url(), "wss://funpay.com/ws");
}

#[test]
fn ws_monitor_keeps_bare_host() {
    let monitor = WsMonitor::new("funpay.com");
    assert_eq!(monitor.url(), "wss://funpay.com/ws");
}

#[test]
fn ws_monitor_removes_every_scheme_occurrence() {
    let monitor = WsMonitor::new("https://a.com/http://b");
    assert_eq!(monitor.url(), "wss://a.com/b/ws");
}

#[test]
fn ws_event_values() {
    let event = WsEvent::NewOffer { offer_id: "123".into() };
    assert_eq!(event, WsEvent::NewOffer { offer_id: "123".to_string() });
}
