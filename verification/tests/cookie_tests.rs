use funpay_rs::cookies::CookieStore;

#[test]
fn test_new_store_has_no_key() {
    let store = CookieStore::new("/tmp/test.txt");
    assert!(store.golden_key().is_none());
}

#[test]
fn saved_key_loads_back() {
    let contents = CookieStore::contents_for("test_key_123");
    assert_eq!(contents, "golden_key=test_key_123\n");
    let mut loaded = CookieStore::new("/tmp/cookies.txt");
    assert!(loaded.load_from_contents(&contents));
    assert_eq!(loaded.golden_key(), Some("test_key_123"));
}

#[test]
fn saved_key_with_spaces_loads_trimmed() {
    let contents = CookieStore::contents_for("  spaced key \t");
    let mut loaded = CookieStore::new("/tmp/cookies.txt");
    assert!(loaded.load_from_contents(&contents));
    assert_eq!(loaded.golden_key(), Some("spaced key"));
}

#[test]
fn contents_without_prefix_load_nothing() {
    let mut store = CookieStore::new("/tmp/cookies.txt");
    assert!(!store.load_from_contents("token=abc\n"));
    assert!(store.golden_key().is_none());
    assert!(store.load_from_contents("golden_key=first"));
    assert!(!store.load_from_contents("nothing here"));
    assert_eq!(store.golden_key(), Some("first"));
    assert_eq!(store.path(), "/tmp/cookies.txt");
}
