use funpay_rs::middleware::UserAgentRotationMiddleware;
use funpay_rs::ua::{random_ua, user_agents};

#[test]
fn random_ua_returns_non_empty() {
    let ua = random_ua();
    assert!(!ua.is_empty());
    assert!(ua.contains("Mozilla"));
}

#[test]
fn random_ua_returns_known_ua() {
    for _ in 0..100 {
        let ua = random_ua();
        assert!(user_agents().contains(&ua));
    }
}

#[test]
fn rotation_middleware_picks_from_pool() {
    let m = UserAgentRotationMiddleware;
    for _ in 0..20 {
        assert!(user_agents().contains(&m.next_user_agent()));
    }
    assert_eq!(user_agents().len(), 6);
}
