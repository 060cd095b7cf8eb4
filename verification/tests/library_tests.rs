use funpay_rs::client::{request_url, Decision, FunPayClientBuilder, Outcome, RequestState, USER_AGENT};
use funpay_rs::error::FunPayError;
use funpay_rs::export::FlatOffer;
use funpay_rs::models::{
    Currency, Date, Fields, GameCategory, GameId, LotId, Offer, OfferId, OnlineStatus, Seller, Server,
    UserId,
};
use funpay_rs::number::{parse_price, parse_u32, parse_u64, Amount};
use funpay_rs::parser::Parser;
use funpay_rs::retry::{RateLimiter, RetryPolicy};
use funpay_rs::search::{category_urls, filter_by_max_price, rebase_url, SearchQuery, SearchResults};
use std::time::Duration;

fn chars(s: &str) -> Vec<char> {
    s.chars().collect()
}

fn offer(id: &str, price: Amount, currency: Currency, stock: u32, online: bool) -> Offer {
    Offer {
        offer_id: OfferId(id.to_string()),
        lot_id: LotId(String::new()),
        server: Server("EU".to_string()),
        description: "desc".to_string(),
        price,
        currency,
        stock,
        seller: Seller {
            user_id: UserId("u1".to_string()),
            name: "Seller".to_string(),
            rating: Amount::from_int(5),
            reviews: 10,
            online,
        },
        fields: Fields::new(),
    }
}

fn amount(m: u64, s: usize) -> Amount {
    Amount::new(m, s)
}

fn parts(a: &Amount) -> (String, usize) {
    (a.mantissa(), a.scale())
}

fn p(m: &str, s: usize) -> (String, usize) {
    (m.to_string(), s)
}

#[test]
fn integers_read_like_str_parse() {
    assert_eq!(parse_u32(&chars("42")), Some(42));
    assert_eq!(parse_u32(&chars("+7")), Some(7));
    assert_eq!(parse_u32(&chars("4294967295")), Some(u32::MAX));
    assert_eq!(parse_u32(&chars("4294967296")), None);
    assert_eq!(parse_u32(&chars("")), None);
    assert_eq!(parse_u32(&chars("+")), None);
    assert_eq!(parse_u32(&chars("-1")), None);
    assert_eq!(parse_u32(&chars(" 1")), None);
    assert_eq!(parse_u64(&chars("18446744073709551615")), Some(u64::MAX));
    assert_eq!(parse_u64(&chars("18446744073709551616")), None);
}

#[test]
fn decimals_read_exactly() {
    let a = Amount::parse_decimal(&chars("12.50")).unwrap();
    assert_eq!(parts(&a), p("1250", 2));
    let b = Amount::parse_decimal(&chars("007")).unwrap();
    assert_eq!(parts(&b), p("007", 0));
    let c = Amount::parse_decimal(&chars(".5")).unwrap();
    assert_eq!(parts(&c), p("5", 1));
    let d = Amount::parse_decimal(&chars("3.")).unwrap();
    assert_eq!(parts(&d), p("3", 0));
    assert!(Amount::parse_decimal(&chars("1.2.3")).is_none());
    assert!(Amount::parse_decimal(&chars(".")).is_none());
    assert!(Amount::parse_decimal(&chars("")).is_none());
    assert!(Amount::parse_decimal(&chars("1e5")).is_none());
    assert!(Amount::parse_decimal(&chars("-1")).is_none());
}

#[test]
fn decimals_of_any_size_are_read() {
    let big = Amount::parse_decimal(&chars("100000000000000000000")).unwrap();
    assert_eq!(parts(&big), p("100000000000000000000", 0));
    let tiny = Amount::parse_decimal(&chars("0.0000000000000000000000001")).unwrap();
    assert_eq!(parts(&tiny), p("00000000000000000000000001", 25));
    assert!(!big.le(&Amount::from_int(u64::MAX)));
    assert!(Amount::from_int(u64::MAX).le(&big));
    assert!(tiny.le(&Amount::zero()) == false);
    assert!(!tiny.differs_by_more_than_a_hundredth(&Amount::zero()));
    assert!(big.differs_by_more_than_a_hundredth(&Amount::from_int(u64::MAX)));
}

#[test]
fn decimals_with_plus_sign() {
    assert_eq!(parts(&Amount::parse_decimal(&chars("+4.5")).unwrap()), p("45", 1));
    assert!(Amount::parse_decimal(&chars("+")).is_none());
    assert!(Amount::parse_decimal(&chars("++1")).is_none());
}

#[test]
fn prices_keep_digits_and_dots() {
    let a = parse_price(&chars("1 234.56 ₽")).unwrap();
    assert_eq!(parts(&a), p("123456", 2));
    assert!(parse_price(&chars("free")).is_none());
    assert!(parse_price(&chars("1.2.3 ₽")).is_none());
    assert!(parse_price(&chars("+5")).is_some());
    assert_eq!(parts(&parse_price(&chars("+5")).unwrap()), p("5", 0));
}

#[test]
fn amount_new_keeps_parts() {
    assert_eq!(parts(&Amount::new(1, 40)), p("1", 40));
    assert_eq!(parts(&Amount::new(1234, 0)), p("1234", 0));
    assert_eq!(Amount::zero().mantissa(), "0");
    assert_eq!(parts(&Amount::from_int(u64::MAX)), p("18446744073709551615", 0));
}

#[test]
fn amounts_compare_as_decimals() {
    assert!(amount(150, 1).le(&Amount::from_int(15)));
    assert!(Amount::from_int(15).le(&amount(150, 1)));
    assert!(amount(1499, 2).le(&Amount::from_int(15)));
    assert!(!Amount::from_int(15).le(&amount(1499, 2)));
    assert!(amount(u64::MAX, 0).le(&amount(u64::MAX, 0)));
    assert!(!amount(u64::MAX, 0).le(&amount(u64::MAX, 18)));
}

#[test]
fn amounts_differ_by_more_than_a_hundredth() {
    assert!(!Amount::from_int(100).differs_by_more_than_a_hundredth(&amount(10001, 2)));
    assert!(Amount::from_int(100).differs_by_more_than_a_hundredth(&amount(10002, 2)));
    assert!(amount(10002, 2).differs_by_more_than_a_hundredth(&Amount::from_int(100)));
    assert!(!amount(5, 0).differs_by_more_than_a_hundredth(&amount(5000, 3)));
    assert!(amount(u64::MAX, 0).differs_by_more_than_a_hundredth(&Amount::zero()));
}

#[test]
fn currency_symbols_round_trip() {
    for c in [Currency::RUB, Currency::USD, Currency::EUR] {
        assert_eq!(Currency::from_symbol(c.symbol()), c);
    }
    assert_eq!(Currency::from_symbol("$"), Currency::USD);
    assert_eq!(Currency::from_symbol("€"), Currency::EUR);
    assert_eq!(Currency::from_symbol("₽"), Currency::RUB);
    assert_eq!(Currency::from_symbol("£"), Currency::RUB);
    assert_eq!(Currency::from_symbol(""), Currency::RUB);
    assert_eq!(Currency::USD.symbol(), "$");
}

#[test]
fn category_paths_round_trip() {
    for c in [GameCategory::Chips, GameCategory::Lots] {
        let url = format!("https://funpay.com/{}/91/", c.as_path());
        assert_eq!(GameCategory::from_url(&url), Some(c));
    }
    assert_eq!(GameCategory::from_url("/chips/1/lots/"), Some(GameCategory::Chips));
    assert_eq!(GameCategory::from_url("/chips"), None);
}

#[test]
fn online_status_words() {
    assert_eq!(OnlineStatus::from_str("online"), OnlineStatus::Online);
    assert!(OnlineStatus::from_str("online").is_online());
    assert_eq!(OnlineStatus::from_str("Online"), OnlineStatus::Offline);
    assert_eq!(OnlineStatus::from_str("offline"), OnlineStatus::Offline);
    assert!(!OnlineStatus::Offline.is_online());
}

#[test]
fn request_urls() {
    assert_eq!(request_url("https://funpay.com", "/lots/1/"), "https://funpay.com/lots/1/");
    assert_eq!(request_url("https://funpay.com", "https://other.org/x"), "https://other.org/x");
    assert_eq!(request_url("http://localhost:8080", ""), "http://localhost:8080");
}

#[test]
fn builder_defaults() {
    let cfg = FunPayClientBuilder::new().config();
    assert_eq!(cfg.base_url, "https://funpay.com");
    assert_eq!(cfg.retry_policy, RetryPolicy::default());
    assert_eq!(cfg.rate_limiter.min_interval_ms, 500);
    assert_eq!(cfg.rate_limiter.requests_per_second.mantissa(), "2");
    assert_eq!(cfg.timeout_secs, 30);
    assert_eq!(cfg.cookie, None);
    assert_eq!(cfg.user_agent, USER_AGENT);
}

#[test]
fn builder_settings_are_kept() {
    let policy = RetryPolicy { max_retries: 5, base_delay_ms: 10, max_delay_ms: 100 };
    let limiter = RateLimiter { requests_per_second: amount(5, 1), min_interval_ms: 2000 };
    let cfg = FunPayClientBuilder::new()
        .base_url("http://localhost:1234")
        .golden_key("abc")
        .retry_policy(policy)
        .rate_limiter(limiter)
        .timeout(7)
        .config();
    assert_eq!(cfg.base_url, "http://localhost:1234");
    assert_eq!(cfg.retry_policy, policy);
    assert_eq!(cfg.rate_limiter.min_interval_ms, 2000);
    assert_eq!(cfg.timeout_secs, 7);
    assert_eq!(cfg.cookie, Some("golden_key=abc; Domain=funpay.com; Path=/".to_string()));
}

#[test]
fn request_reads_body_of_plain_status() {
    let policy = RetryPolicy::default();
    let st = RequestState::start();
    assert_eq!(st.pause(&policy), None);
    let d = st.on_outcome(&policy, Outcome::Status { status: 200, retry_after: None });
    assert!(matches!(d, Decision::ReadBody));
    let d = st.on_outcome(&policy, Outcome::Status { status: 404, retry_after: None });
    assert!(matches!(d, Decision::ReadBody));
}

#[test]
fn request_retries_server_errors_then_gives_up() {
    let policy = RetryPolicy { max_retries: 2, base_delay_ms: 100, max_delay_ms: 1000 };
    let mut st = RequestState::start();
    let mut attempts = 0;
    loop {
        attempts += 1;
        match st.on_outcome(&policy, Outcome::Status { status: 503, retry_after: None }) {
            Decision::Retry(next) => {
                assert_eq!(next.attempt, st.attempt + 1);
                assert_eq!(next.pause(&policy), Some(Duration::from_millis(100 << st.attempt)));
                st = next;
            }
            Decision::Fail(FunPayError::MaxRetriesExceeded(n)) => {
                assert_eq!(n, 2);
                break;
            }
            other => panic!("unexpected decision {:?}", other),
        }
    }
    assert_eq!(attempts, 3);
}

#[test]
fn request_rate_limited_uses_retry_after() {
    let policy = RetryPolicy { max_retries: 0, base_delay_ms: 250, max_delay_ms: 1000 };
    let st = RequestState::start();
    match st.on_outcome(&policy, Outcome::Status { status: 429, retry_after: Some("12".to_string()) }) {
        Decision::Fail(FunPayError::RateLimited { retry_after }) => {
            assert_eq!(retry_after, Duration::from_secs(12))
        }
        other => panic!("unexpected decision {:?}", other),
    }
    match st.on_outcome(&policy, Outcome::Status { status: 429, retry_after: Some("soon".to_string()) }) {
        Decision::Fail(FunPayError::RateLimited { retry_after }) => {
            assert_eq!(retry_after, Duration::from_millis(250))
        }
        other => panic!("unexpected decision {:?}", other),
    }
}

#[test]
fn request_failures() {
    let policy = RetryPolicy { max_retries: 1, base_delay_ms: 1, max_delay_ms: 1 };
    let st = RequestState::start();
    match st.on_outcome(&policy, Outcome::Failed { timeout: false, message: "refused".to_string() }) {
        Decision::Fail(FunPayError::Http(m)) => assert_eq!(m, "refused"),
        other => panic!("unexpected decision {:?}", other),
    }
    let next = match st.on_outcome(&policy, Outcome::Failed { timeout: true, message: String::new() }) {
        Decision::Retry(next) => next,
        other => panic!("unexpected decision {:?}", other),
    };
    match next.on_outcome(&policy, Outcome::Failed { timeout: true, message: String::new() }) {
        Decision::Fail(FunPayError::Timeout(d)) => assert_eq!(d, Duration::from_secs(30)),
        other => panic!("unexpected decision {:?}", other),
    }
}

#[test]
fn query_filters_every_field() {
    let offers = vec![
        offer("1", Amount::from_int(100), Currency::RUB, 10, true),
        offer("2", Amount::from_int(300), Currency::RUB, 10, true),
        offer("3", Amount::from_int(50), Currency::USD, 10, true),
        offer("4", Amount::from_int(50), Currency::RUB, 10, false),
        offer("5", Amount::from_int(50), Currency::RUB, 1, true),
        offer("6", amount(20000, 2), Currency::RUB, 5, true),
    ];
    let q = SearchQuery::new("gold")
        .max_price(Amount::from_int(200))
        .currency(Currency::RUB)
        .online_only()
        .min_stock(5);
    assert_eq!(q.keyword(), "gold");
    assert_eq!(q.price_limit().map(|a| a.mantissa()), Some("200".to_string()));
    let kept: Vec<String> = q.filter(offers).into_iter().map(|o| o.offer_id.0).collect();
    assert_eq!(kept, vec!["1".to_string(), "6".to_string()]);
}

#[test]
fn query_without_filters_keeps_everything() {
    let q = SearchQuery::new("x");
    let offers = vec![
        offer("1", Amount::from_int(100), Currency::EUR, 0, false),
        offer("2", Amount::from_int(1), Currency::USD, 0, false),
    ];
    assert!(q.matches(&offers[0]));
    assert_eq!(q.filter(offers).len(), 2);
    assert_eq!(q.price_limit().is_none(), true);
}

#[test]
fn price_filter_keeps_order() {
    let offers = vec![
        offer("a", Amount::from_int(5), Currency::RUB, 1, true),
        offer("b", Amount::from_int(50), Currency::RUB, 1, true),
        offer("c", amount(999, 2), Currency::RUB, 1, true),
    ];
    let kept: Vec<String> = filter_by_max_price(offers, &Amount::from_int(10))
        .into_iter()
        .map(|o| o.offer_id.0)
        .collect();
    assert_eq!(kept, vec!["a".to_string(), "c".to_string()]);
}

#[test]
fn search_results_keep_first_of_each_id() {
    let mut results = SearchResults::new();
    results.absorb(
        vec![
            offer("1", Amount::from_int(10), Currency::RUB, 1, true),
            offer("2", Amount::from_int(500), Currency::RUB, 1, true),
        ],
        &Some(Amount::from_int(100)),
    );
    results.absorb(
        vec![
            offer("1", Amount::from_int(20), Currency::RUB, 1, true),
            offer("3", Amount::from_int(30), Currency::RUB, 1, true),
            offer("3", Amount::from_int(40), Currency::RUB, 1, true),
        ],
        &Some(Amount::from_int(100)),
    );
    let out = results.into_offers();
    let ids: Vec<&str> = out.iter().map(|o| o.offer_id.as_str()).collect();
    assert_eq!(ids, vec!["1", "3"]);
    assert_eq!(out[0].price.mantissa(), "10");
    assert_eq!(out[1].price.mantissa(), "30");
}

#[test]
fn category_urls_match_keyword_case_insensitively() {
    let html = r#"
        <a href="/chips/91/">Lost Ark</a>
        <a href="/lots/12/">World of Warcraft</a>
        <a href="/lots/13/">Lost Planet</a>
    "#;
    let games = Parser::new().parse_game_list(html);
    let urls = category_urls(&games, "LOST", "https://funpay.com");
    assert_eq!(
        urls,
        vec![
            "https://funpay.com/chips/91/".to_string(),
            "https://funpay.com/lots/13/".to_string()
        ]
    );
    let cyr = Parser::new().parse_game_list(r#"<a href="/chips/5/">ЗоЛоТо Gold</a>"#);
    assert_eq!(category_urls(&cyr, "золото", "https://funpay.com").len(), 1);
    assert_eq!(category_urls(&cyr, "серебро", "https://funpay.com").len(), 0);
}

#[test]
fn flat_offer_copies_fields() {
    let o = offer("7", amount(1999, 2), Currency::EUR, 3, true);
    let f = FlatOffer::from_offer(&o);
    assert_eq!(f.offer_id, "7");
    assert_eq!(f.currency, "€");
    assert_eq!(parts(&f.price), p("1999", 2));
    assert_eq!(f.stock, 3);
    assert_eq!(f.seller_name, "Seller");
    assert_eq!(f.seller_rating.mantissa(), "5");
    assert_eq!(f.seller_reviews, 10);
    assert!(f.seller_online);
    assert_eq!(f.server, "EU");
}

#[test]
fn user_profile_fields() {
    let html = r#"
        <div class="profile-name"> Alice </div>
        <div class="rating">4.8</div>
        <div class="reviews">120</div>
        <div class="online-status">online</div>
        <div class="reg-date">05.03.2021</div>
    "#;
    let user = Parser::new().parse_user(html, UserId("42".to_string())).unwrap();
    assert_eq!(user.user_id.0, "42");
    assert_eq!(user.username, "Alice");
    assert_eq!(parts(&user.rating), p("48", 1));
    assert_eq!(user.reviews, 120);
    assert!(user.online);
    assert_eq!(user.registered, Some(Date { year: 2021, month: 3, day: 5 }));
}

#[test]
fn user_profile_unreadable_fields_default() {
    let html = r#"
        <div class="rating">n/a</div>
        <div class="reviews">many</div>
        <div class="online-status">offline</div>
        <div class="reg-date">2021-03-05</div>
    "#;
    let user = Parser::new().parse_user(html, UserId("1".to_string())).unwrap();
    assert_eq!(user.username, "");
    assert_eq!(user.rating.mantissa(), "0");
    assert_eq!(user.reviews, 0);
    assert!(!user.online);
    assert_eq!(user.registered, None);
}

#[test]
fn single_offer_page_fields() {
    let html = r#"
        <div class="tc-server"> EU West </div>
        <div class="tc-desc"> 1000 gold </div>
        <div class="tc-price">1 500.50 ₽</div>
        <div class="tc-qty"> 12 </div>
        <div class="media-user-name"> Bob </div>
    "#;
    let o = Parser::new().parse_offer(html, OfferId("9".to_string())).unwrap();
    assert_eq!(o.offer_id.0, "9");
    assert_eq!(o.server.0, "EU West");
    assert_eq!(o.description, "1000 gold");
    assert_eq!(parts(&o.price), p("150050", 2));
    assert_eq!(o.currency, Currency::RUB);
    assert_eq!(o.stock, 12);
    assert_eq!(o.seller.name, " Bob ");
}

#[test]
fn listing_item_fallbacks() {
    let html = r#"
        <a class="tc-item" href="/lots/offer?id=77">
            <div class="tc-price"><div>12.5</div><span class="unit"> $ </span></div>
            <div class="tc-amount" data-s="1 000"></div>
            <div class="media-user-name"> Carol </div>
            <div class="rating-mini-count"> 1 234 </div>
            <div class="tc-server">EU</div>
            <div class="tc-side">Horde</div>
        </a>
        <a class="tc-item" href="/lots/offer?id=78">
            <div class="tc-price"><div>no price</div></div>
            <div class="media-user-name">Dave</div>
        </a>
    "#;
    let offers = Parser::new().parse_offers_from_page(html);
    assert_eq!(offers.len(), 1);
    let o = &offers[0];
    assert_eq!(o.offer_id.0, "77");
    assert_eq!(o.currency, Currency::USD);
    assert_eq!(o.stock, 1000);
    assert_eq!(o.seller.name, "Carol");
    assert_eq!(o.seller.reviews, 1234);
    assert!(!o.seller.online);
    assert_eq!(o.description, "EU / Horde");
}

#[test]
fn game_urls_are_normalized() {
    let html = r#"<a href="http://FunPay.COM/lots/5/../6/">Dota 2</a>"#;
    let games = Parser::new().parse_game_list(html);
    assert_eq!(games.len(), 1);
    assert_eq!(games[0].id.0, "FunPay.COM");
    assert_eq!(games[0].lots_url.as_deref(), Some("http://funpay.com/lots/6/"));
    assert_eq!(games[0].chips_url, None);
}

#[test]
fn query_filters_by_server() {
    let mut us = offer("2", Amount::from_int(10), Currency::RUB, 1, true);
    us.server = Server("US".to_string());
    let offers = vec![offer("1", Amount::from_int(10), Currency::RUB, 1, true), us];
    let q = SearchQuery::new("x").server("US");
    assert!(!q.matches(&offers[0]));
    assert!(q.matches(&offers[1]));
    let kept = q.filter(offers);
    assert_eq!(kept.len(), 1);
    assert_eq!(kept[0].offer_id.0, "2");
}

#[test]
fn listing_keeps_items_with_huge_prices() {
    let html = r#"<a class="tc-item" href="/lots/offer?id=5">
        <div class="tc-price"><div>100000000000000000000 ₽</div></div>
        <div class="media-user-name">Eve</div>
    </a>"#;
    let offers = Parser::new().parse_offers_from_page(html);
    assert_eq!(offers.len(), 1);
    assert_eq!(parts(&offers[0].price), p("100000000000000000000", 0));
    let price = Parser::new().extract_price(r#"<div class="tc-price">0.000000000000000000001</div>"#);
    assert_eq!(parts(&price.unwrap()), p("0000000000000000000001", 21));
}

#[test]
fn user_rating_with_plus_sign() {
    let html = r#"<div class="rating">+4.5</div>"#;
    let user = Parser::new().parse_user(html, UserId("1".to_string())).unwrap();
    assert_eq!(parts(&user.rating), p("45", 1));
}

#[test]
fn category_urls_follow_the_base_url() {
    let html = r#"<a href="/chips/91/">Lost Ark</a><a href="/lots/332/">CS2</a>"#;
    let games = Parser::new().parse_game_list(html);
    let urls = category_urls(&games, "Lost", "http://127.0.0.1:4000");
    assert_eq!(urls, vec!["http://127.0.0.1:4000/chips/91/".to_string()]);
    assert_eq!(rebase_url("http://mock", "https://funpay.com/lots/1/"), "http://mock/lots/1/");
    assert_eq!(rebase_url("http://mock", "https://other.org/lots/1/"), "https://other.org/lots/1/");
    assert_eq!(rebase_url("https://funpay.com", "https://funpay.com/x"), "https://funpay.com/x");
}

#[test]
fn parser_tests_test_parse_game_list() {
    let html = r#"<div class="game-list">
        <div class="game-title">
            <a href="/chips/91/" class="game-title" data-game-id="91">Lost Ark</a>
            <img class="game-icon" src="/icon1.png">
        </div>
    </div>"#;
    let parser = Parser::new();
    let games = parser.parse_game_list(html);
    let with_title: Vec<_> = games.iter().filter(|g| !g.name.is_empty()).collect();
    assert_eq!(with_title.len(), 1);
    assert_eq!(with_title[0].name, "Lost Ark");
    assert!(with_title[0].chips_url.as_deref().unwrap().ends_with("/chips/91/"));
}

#[test]
fn request_waits_as_retry_after_asks() {
    let policy = RetryPolicy { max_retries: 1, base_delay_ms: 250, max_delay_ms: 1000 };
    let st = RequestState::start();
    let next = match st.on_outcome(&policy, Outcome::Status { status: 429, retry_after: Some("7".to_string()) }) {
        Decision::Retry(next) => next,
        other => panic!("unexpected decision {:?}", other),
    };
    assert_eq!(next.attempt, 1);
    assert_eq!(next.retry_after_secs, Some(7));
    assert_eq!(next.pause(&policy), Some(Duration::from_secs(7)));
    let next = match st.on_outcome(&policy, Outcome::Status { status: 429, retry_after: None }) {
        Decision::Retry(next) => next,
        other => panic!("unexpected decision {:?}", other),
    };
    assert_eq!(next.pause(&policy), Some(Duration::from_millis(250)));
}

#[test]
fn rate_limiter_spacing() {
    let limiter = RateLimiter { requests_per_second: Amount::from_int(2), min_interval_ms: 500 };
    let min: u128 = 500_000_000;
    assert_eq!(limiter.wait_nanos(None), 0);
    let mut end: u128 = 1_000;
    for start_gap in [0u128, 100_000_000, 499_999_999, 500_000_000, 900_000_000] {
        let start = end + start_gap;
        let pause = limiter.wait_nanos(Some(start - end));
        assert!(pause <= min);
        let new_end = start + pause;
        assert!(new_end - end >= min);
        end = new_end;
    }
}

#[test]
fn fields_hold_each_key_once() {
    let mut f = Fields::new();
    assert_eq!(f.get("region"), None);
    assert_eq!(f.insert("region".to_string(), "EU".to_string()), None);
    assert_eq!(f.insert("level".to_string(), "60".to_string()), None);
    assert_eq!(f.insert("region".to_string(), "US".to_string()), Some("EU".to_string()));
    assert_eq!(f.get("region"), Some("US"));
    assert_eq!(f.get("level"), Some("60"));
    assert_eq!(f.entries().len(), 2);
    let g = f.clone();
    assert_eq!(g.get("region"), Some("US"));
    let mut o = offer("1", Amount::from_int(1), Currency::RUB, 1, true);
    o.fields.insert("k".to_string(), "v".to_string());
    let copy = FlatOffer::from_offer(&o);
    assert_eq!(copy.offer_id, "1");
    assert_eq!(o.clone().fields.get("k"), Some("v"));
}

#[test]
fn ids_from_strings() {
    assert_eq!(OfferId::from("123").0, "123");
    assert_eq!(OfferId::from("123".to_string()), OfferId("123".to_string()));
    assert_eq!(LotId::from("l").as_str(), "l");
    assert_eq!(UserId::from(String::from("u")).0, "u");
    assert_eq!(GameId::from("91").0, "91");
    assert_eq!(Server::from("EU").0, "EU");
    let s: Server = "US".into();
    assert_eq!(s.as_str(), "US");
}

#[test]
fn ratings_that_are_not_plain_decimals_read_as_zero() {
    for text in ["-4.5", "1e3", "inf", "NaN"] {
        let html = format!(r#"<div class="rating">{}</div>"#, text);
        let user = Parser::new().parse_user(&html, UserId("1".to_string())).unwrap();
        assert_eq!(parts(&user.rating), p("0", 0));
    }
}
