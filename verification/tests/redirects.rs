use url_shortener::code::ShortCode;
use url_shortener::redirect::{
    redirect_handler, root, Reply, MOVED_PERMANENTLY, NOT_FOUND, SERVER_ADDRESS,
};
use url_shortener::long_url::LongUrl;
use url_shortener::persist::FileRead;
use url_shortener::url_map::{UrlMap, UrlMapEntry};

fn map_of(pairs: &[(&str, &str)]) -> UrlMap {
    let mut map = UrlMap::new();
    for (short_code, long_url) in pairs {
        map.insert_entry(UrlMapEntry {
            short_code: ShortCode::from_text(short_code.to_string()),
            url: LongUrl::parse(long_url).unwrap(),
        });
    }
    map
}

#[test]
fn status_codes_are_301_and_404() {
    assert_eq!(MOVED_PERMANENTLY, 301);
    assert_eq!(NOT_FOUND, 404);
    assert_eq!(Reply::MovedPermanently { location: "https://example.com/".to_string() }.status(), 301);
    assert_eq!(Reply::NotFound { message: "gone".to_string() }.status(), 404);
}

#[test]
fn server_binds_to_local_port_3000() {
    assert_eq!(SERVER_ADDRESS, "127.0.0.1:3000");
}

#[test]
fn root_page_says_hello() {
    assert_eq!(
        root(),
        "Hello, this is the root page! Enter your short URL in the browser to be redirected to the original URL."
    );
}

#[test]
fn known_code_redirects_for_good() {
    let map = map_of(&[("aaaaaaa", "https://example.com/a"), ("bbbbbbb", "https://example.com/b")]);
    let reply = redirect_handler("aaaaaaa".to_string(), &map);
    assert_eq!(reply.status(), 301);
    match reply {
        Reply::MovedPermanently { location } => assert_eq!(location, "https://example.com/a"),
        Reply::NotFound { .. } => panic!("a known code must redirect"),
    }
    match redirect_handler("bbbbbbb".to_string(), &map) {
        Reply::MovedPermanently { location } => assert_eq!(location, "https://example.com/b"),
        Reply::NotFound { .. } => panic!("a known code must redirect"),
    }
}

#[test]
fn unknown_code_is_not_found() {
    let map = map_of(&[("aaaaaaa", "https://example.com/a")]);
    let reply = redirect_handler("doesnotexist".to_string(), &map);
    assert_eq!(reply.status(), 404);
    match reply {
        Reply::NotFound { message } => assert_eq!(message, "Short link not found"),
        Reply::MovedPermanently { .. } => panic!("an unknown code must not redirect"),
    }
}

#[test]
fn empty_mapping_finds_nothing() {
    let map = UrlMap::new();
    assert_eq!(redirect_handler("aaaaaaa".to_string(), &map).status(), 404);
    assert_eq!(redirect_handler(String::new(), &map).status(), 404);
}

#[test]
fn two_inserts_persist_and_redirect_after_reload() {
    let mut map = UrlMap::load(FileRead::Missing).unwrap();
    let first = map.insert(LongUrl::parse("https://example.com/a").unwrap());
    let second = map.insert(LongUrl::parse("https://example.com/b").unwrap());
    assert_eq!(first.as_str().len(), 7);
    assert_eq!(second.as_str().len(), 7);
    assert_ne!(first, second);

    let saved = map.save().unwrap();
    assert_eq!(saved.matches("\": \"").count(), 2);
    assert_eq!(saved.lines().count(), 4);

    let reloaded = UrlMap::load(FileRead::Text(saved)).unwrap();
    assert_eq!(reloaded.len(), 2);
    assert_eq!(reloaded.lookup(&first).unwrap().as_str(), "https://example.com/a");
    assert_eq!(reloaded.lookup(&second).unwrap().as_str(), "https://example.com/b");

    let reply = redirect_handler(first.as_str().to_string(), &reloaded);
    assert_eq!(reply.status(), 301);
    match reply {
        Reply::MovedPermanently { location } => assert_eq!(location, "https://example.com/a"),
        Reply::NotFound { .. } => panic!("a known code must redirect"),
    }
    assert_eq!(redirect_handler("doesnotexist".to_string(), &reloaded).status(), 404);
}
