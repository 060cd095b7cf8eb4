use funpay_rs::models::GameCategory;
use funpay_rs::parser::Parser;

#[test]
fn category_tests_test_parse_game_list() {
    let html = r#"
    <a href="/chips/91/" class="promo-game">Lost Ark</a>
    <a href="/lots/332/" class="promo-game">CS2</a>
    "#;
    let parser = Parser::new();
    let games = parser.parse_game_list(html);
    assert_eq!(games.len(), 2);
    assert_eq!(games[0].name, "Lost Ark");
}

#[test]
fn game_list_fields() {
    let html = r#"<a href="/chips/91/">Lost Ark</a><a href="https://funpay.com/lots/332/">CS2</a>"#;
    let games = Parser::new().parse_game_list(html);
    assert_eq!(games.len(), 2);
    assert_eq!(games[0].id.0, "91");
    assert_eq!(games[0].chips_url.as_deref(), Some("https://funpay.com/chips/91/"));
    assert_eq!(games[0].lots_url, None);
    assert_eq!(games[0].category, Some(GameCategory::Chips));
    assert_eq!(games[1].id.0, "funpay.com");
    assert_eq!(games[1].lots_url.as_deref(), Some("https://funpay.com/lots/332/"));
    assert_eq!(games[1].chips_url, None);
    assert_eq!(games[1].category, Some(GameCategory::Lots));
}

#[test]
fn game_link_without_third_piece_is_skipped() {
    let html = r#"<a href="x/chips/">Short</a><a href="/chips/7/">Kept</a>"#;
    let games = Parser::new().parse_game_list(html);
    assert_eq!(games.len(), 2);
    let short = r#"<a href="/chips/">Short</a>"#;
    assert_eq!(Parser::new().parse_game_list(short).len(), 1);
    let empty_text = r#"<a href="/chips/5/"></a>"#;
    assert_eq!(Parser::new().parse_game_list(empty_text).len(), 0);
}

#[test]
fn category_from_url() {
    assert_eq!(GameCategory::from_url("/chips/91/"), Some(GameCategory::Chips));
    assert_eq!(GameCategory::from_url("/lots/1/"), Some(GameCategory::Lots));
    assert_eq!(GameCategory::from_url("/x/chips/lots/"), Some(GameCategory::Chips));
    assert_eq!(GameCategory::from_url("/other/"), None);
    assert_eq!(GameCategory::Chips.as_path(), "chips");
    assert_eq!(GameCategory::Lots.as_path(), "lots");
}
