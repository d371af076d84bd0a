use hey_chat_gpt::{ResponseCache, cache_file_name, hash_content};

#[test]
fn cache_file_name_is_key_dependent() {
    assert_eq!(cache_file_name(0), "cache_0.txt");
    assert_eq!(cache_file_name(18446744073709551615), "cache_18446744073709551615.txt");
    assert_eq!(
        cache_file_name(hash_content("x")),
        format!("cache_{}.txt", hash_content("x"))
    );
}

#[test]
fn store_then_load_returns_the_body() {
    let mut cache = ResponseCache::new();
    cache.store("content", "body".to_string());
    assert_eq!(cache.load("content"), Some("body".to_string()));
}

#[test]
fn later_store_overwrites() {
    let mut cache = ResponseCache::new();
    cache.store("content", "first".to_string());
    cache.store("content", "second".to_string());
    assert_eq!(cache.load("content"), Some("second".to_string()));
}

#[test]
fn load_of_absent_content_is_none() {
    let cache = ResponseCache::new();
    assert_eq!(cache.load("never stored"), None);
}

#[test]
fn entries_are_independent() {
    let mut cache = ResponseCache::new();
    cache.store("a", "body a".to_string());
    cache.store("b", "body b".to_string());
    assert_eq!(cache.load("a"), Some("body a".to_string()));
    assert_eq!(cache.load("b"), Some("body b".to_string()));
}

#[test]
fn locate_is_the_derived_key() {
    let cache = ResponseCache::new();
    assert_eq!(cache.locate("content"), hash_content("content"));
    assert_eq!(cache.locate("content"), cache.locate("content"));
}
