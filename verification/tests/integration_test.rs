use funpay_rs::error::{AuthError, FunPayError, ParseError};
use funpay_rs::monitor::Monitor;
use funpay_rs::parser::Parser;

#[test]
fn test_error_display() {
    let error = FunPayError::from(ParseError::MissingField("test field".to_string()));
    assert_eq!(error.message(), "parse error: missing field: test field");
}

#[test]
fn test_parser_creation() {
    let _parser = Parser::new();
}

#[test]
fn integration_test_test_monitor_creation() {
    let _monitor = Monitor::new();
}

#[test]
fn error_messages() {
    assert_eq!(ParseError::NoDataAppData.message(), "missing data-app-data attribute");
    assert_eq!(ParseError::JsonParse("bad".to_string()).message(), "JSON parse error: bad");
    assert_eq!(FunPayError::from(AuthError::CsrfMismatch).message(), "auth error: CSRF token mismatch");
    assert_eq!(FunPayError::Http("down".to_string()).message(), "HTTP error: down");
    assert_eq!(FunPayError::Blocked("ban".to_string()).message(), "blocked: ban");
}
