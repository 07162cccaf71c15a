use url_shortener::code::ShortCode;
use url_shortener::long_url::LongUrl;
use url_shortener::url_map::{UrlMap, UrlMapEntry};

fn code(text: &str) -> ShortCode {
    ShortCode::from_text(text.to_string())
}

fn url(text: &str) -> LongUrl {
    LongUrl::parse(text).unwrap()
}

fn entry(short_code: &str, long_url: &str) -> UrlMapEntry {
    UrlMapEntry { short_code: code(short_code), url: url(long_url) }
}

#[test]
fn new_mapping_is_empty() {
    let map = UrlMap::new();
    assert!(map.is_empty());
    assert_eq!(map.len(), 0);
    assert!(map.entries().is_empty());
    assert!(map.lookup(&code("abc1234")).is_none());
    assert!(!map.contains(&code("abc1234")));
}

#[test]
fn insert_then_lookup_returns_the_url() {
    let mut map = UrlMap::new();
    let long_url = url("https://example.com/a");
    let short_code = map.insert(long_url.clone());
    assert_eq!(short_code.as_str().len(), 7);
    assert!(short_code.as_str().chars().all(|c| c.is_ascii_alphanumeric()));
    assert_eq!(map.lookup(&short_code), Some(&long_url));
    assert_eq!(map.lookup(&short_code).unwrap().as_str(), "https://example.com/a");
    assert!(map.contains(&short_code));
    assert_eq!(map.len(), 1);
    assert!(!map.is_empty());
}

#[test]
fn insert_entry_returns_its_code() {
    let mut map = UrlMap::new();
    let returned = map.insert_entry(entry("abc1234", "https://example.com/a"));
    assert_eq!(returned, code("abc1234"));
    assert_eq!(map.lookup(&code("abc1234")).unwrap().as_str(), "https://example.com/a");
}

#[test]
fn lookup_of_unknown_code_is_none() {
    let mut map = UrlMap::new();
    map.insert_entry(entry("abc1234", "https://example.com/a"));
    assert!(map.lookup(&code("doesnotexist")).is_none());
    assert!(map.lookup(&code("abc123")).is_none());
    assert!(map.lookup(&code("ABC1234")).is_none());
    assert!(map.lookup(&code("")).is_none());
}

#[test]
fn two_entries_resolve_to_their_own_urls() {
    let mut map = UrlMap::new();
    map.insert_entry(entry("aaaaaaa", "https://example.com/a"));
    map.insert_entry(entry("bbbbbbb", "https://example.com/b"));
    assert_eq!(map.len(), 2);
    assert_eq!(map.lookup(&code("aaaaaaa")).unwrap().as_str(), "https://example.com/a");
    assert_eq!(map.lookup(&code("bbbbbbb")).unwrap().as_str(), "https://example.com/b");
}

#[test]
fn same_code_overwrites_silently() {
    let mut map = UrlMap::new();
    map.insert_entry(entry("aaaaaaa", "https://example.com/a"));
    map.insert_entry(entry("bbbbbbb", "https://example.com/b"));
    let returned = map.insert_entry(entry("aaaaaaa", "https://example.com/other"));
    assert_eq!(returned, code("aaaaaaa"));
    assert_eq!(map.len(), 2);
    assert_eq!(map.lookup(&code("aaaaaaa")).unwrap().as_str(), "https://example.com/other");
    assert_eq!(map.lookup(&code("bbbbbbb")).unwrap().as_str(), "https://example.com/b");
}

#[test]
fn no_code_occurs_twice_among_the_entries() {
    let mut map = UrlMap::new();
    for text in ["aaaaaaa", "bbbbbbb", "aaaaaaa", "ccccccc", "bbbbbbb"] {
        map.insert_entry(entry(text, "https://example.com/"));
    }
    let codes: Vec<&str> = map.entries().iter().map(|e| e.short_code.as_str()).collect();
    assert_eq!(codes, vec!["aaaaaaa", "bbbbbbb", "ccccccc"]);
    assert_eq!(map.len(), 3);
}

#[test]
fn many_inserts_all_resolve() {
    let mut map = UrlMap::new();
    let mut codes = Vec::new();
    for i in 0..200 {
        let long_url = url(&format!("https://example.com/page/{}", i));
        codes.push((map.insert(long_url.clone()), long_url));
    }
    assert_eq!(map.len(), 200);
    for (short_code, long_url) in &codes {
        assert_eq!(map.lookup(short_code), Some(long_url));
    }
}

#[test]
fn from_entries_lets_the_later_entry_win() {
    let map = UrlMap::from_entries(vec![
        entry("aaaaaaa", "https://example.com/first"),
        entry("bbbbbbb", "https://example.com/b"),
        entry("aaaaaaa", "https://example.com/second"),
    ]);
    assert_eq!(map.len(), 2);
    assert_eq!(map.lookup(&code("aaaaaaa")).unwrap().as_str(), "https://example.com/second");
    assert_eq!(map.lookup(&code("bbbbbbb")).unwrap().as_str(), "https://example.com/b");
}

#[test]
fn from_no_entries_is_empty() {
    assert!(UrlMap::from_entries(Vec::new()).is_empty());
}
