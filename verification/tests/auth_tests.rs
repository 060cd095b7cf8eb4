use funpay_rs::auth::CsrfTokens;
use funpay_rs::error::ParseError;

#[test]
fn test_csrf_extraction_valid() {
    let html = r#"<div data-app-data='{"csrf-token":"tok_abc123"}'>"#;
    let tokens = CsrfTokens::from_html(html).unwrap();
    assert_eq!(tokens.form_token, "tok_abc123");
    assert_eq!(tokens.header_token, "tok_abc123");
}

#[test]
fn test_csrf_extraction_no_attribute() {
    let html = r#"<div>"#;
    let result = CsrfTokens::from_html(html);
    assert!(result.is_err());
}

#[test]
fn test_csrf_extraction_unclosed() {
    let html = r#"<div data-app-data='{"csrf-token":"abc"}>"#;
    let result = CsrfTokens::from_html(html);
    assert!(result.is_err());
}

#[test]
fn test_csrf_extraction_missing_token() {
    let html = r#"<div data-app-data='{"other":"value"}'>"#;
    let result = CsrfTokens::from_html(html);
    assert!(result.is_err());
}

#[test]
fn test_csrf_extraction_invalid_json() {
    let html = r#"<div data-app-data='not-json'>"#;
    let result = CsrfTokens::from_html(html);
    assert!(result.is_err());
}

#[test]
fn test_csrf_extraction() {
    let html = r#"<body data-app-data='{"csrf-token":"abc123","userId":12345}'></body>"#;
    let tokens = CsrfTokens::from_html(html);
    assert!(tokens.is_ok());
    assert_eq!(tokens.unwrap().form_token, "abc123");
}

#[test]
fn test_csrf_extraction_invalid() {
    let html = "<body>no data app here</body>";
    let tokens = CsrfTokens::from_html(html);
    assert!(tokens.is_err());
}

#[test]
fn csrf_errors_name_their_cause() {
    assert_eq!(CsrfTokens::from_html("<div>").err(), Some(ParseError::NoDataAppData));
    assert_eq!(
        CsrfTokens::from_html(r#"<div data-app-data='{"csrf-token":"abc"}>"#).err(),
        Some(ParseError::UnclosedDataAppData)
    );
    assert_eq!(
        CsrfTokens::from_html(r#"<div data-app-data='{"other":"value"}'>"#).err(),
        Some(ParseError::MissingField("csrf-token".to_string()))
    );
    assert_eq!(
        CsrfTokens::from_html(r#"<div data-app-data='{"csrf-token":5}'>"#).err(),
        Some(ParseError::MissingField("csrf-token".to_string()))
    );
    match CsrfTokens::from_html("<div data-app-data='not-json'>") {
        Err(ParseError::JsonParse(msg)) => assert!(!msg.is_empty()),
        _ => panic!("expected a JSON error"),
    }
}

#[test]
fn csrf_token_after_unicode_text() {
    let html = r#"<p>Привет 🎮</p><div data-app-data='{"csrf-token":"ключ"}'>"#;
    let tokens = CsrfTokens::from_html(html).unwrap();
    assert_eq!(tokens.form_token, "ключ");
    assert_eq!(tokens.header_token, "ключ");
}
