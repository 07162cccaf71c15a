use url_shortener::long_url::LongUrl;
use url_shortener::persist::{FileRead, LoadError};
use url_shortener::code::ShortCode;
use url_shortener::shorten::{shorten, shorten_with_code, ShortenError};
use url_shortener::url_map::UrlMap;

fn url(text: &str) -> LongUrl {
    LongUrl::parse(text).unwrap()
}

#[test]
fn first_url_starts_the_file() {
    let done = shorten(FileRead::Missing, url("https://example.com/a")).unwrap();
    assert_eq!(done.short_code.as_str().len(), 7);
    assert!(done.short_code.as_str().chars().all(|c| c.is_ascii_alphanumeric()));
    assert_eq!(done.url_map.len(), 1);
    assert_eq!(done.url_map.lookup(&done.short_code).unwrap().as_str(), "https://example.com/a");
    assert_eq!(
        done.saved,
        format!("{{\n  \"{}\": \"https://example.com/a\"\n}}", done.short_code.as_str())
    );
}

#[test]
fn next_url_joins_what_the_file_holds() {
    let held = "{\"k\": \"https://example.com/held\"}".to_string();
    let done = shorten(FileRead::Text(held), url("https://example.com/new")).unwrap();
    assert_eq!(done.url_map.len(), 2);
    assert_eq!(done.url_map.lookup(&done.short_code).unwrap().as_str(), "https://example.com/new");
    let reloaded = UrlMap::from_json(&done.saved).unwrap();
    assert_eq!(reloaded.len(), 2);
    assert_eq!(reloaded.lookup(&done.short_code).unwrap().as_str(), "https://example.com/new");
    let kept = reloaded.entries().iter().find(|e| e.short_code.as_str() == "k").unwrap();
    assert_eq!(kept.url.as_str(), "https://example.com/held");
}

#[test]
fn corrupt_file_stops_the_shortening() {
    match shorten(FileRead::Text("{ corrupt".to_string()), url("https://example.com/a")) {
        Err(ShortenError::Load(LoadError::Malformed(_))) => {}
        _ => panic!("a corrupt file must stop the shortening"),
    }
}

#[test]
fn unreadable_file_stops_the_shortening() {
    let outcome = shorten(FileRead::Unreadable("disk error".to_string()), url("https://example.com/a"));
    match outcome {
        Err(error) => {
            assert_eq!(error.message(), "the mapping file could not be read: disk error");
        }
        Ok(_) => panic!("an unreadable file must stop the shortening"),
    }
}

#[test]
fn file_with_a_bad_url_stops_the_shortening() {
    let outcome = shorten(FileRead::Text("{\"k\": \"nonsense\"}".to_string()), url("https://example.com/a"));
    match outcome {
        Err(error) => assert_eq!(
            error.message(),
            "the mapping file is corrupt: relative URL without a base: \"nonsense\" at line 1 column 16"
        ),
        Ok(_) => panic!("a file with a bad URL must stop the shortening"),
    }
}

#[test]
fn file_with_a_replaced_bad_url_stops_the_shortening() {
    let held = "{\"k\": \"junk\", \"k\": \"https://a/\"}".to_string();
    let outcome = shorten(FileRead::Text(held), url("https://example.com/a"));
    assert!(matches!(outcome, Err(ShortenError::Load(LoadError::Malformed(_)))));
}

#[test]
fn shortening_twice_keeps_both() {
    let first = shorten(FileRead::Missing, url("https://example.com/a")).unwrap();
    let second = shorten(FileRead::Text(first.saved), url("https://example.com/b")).unwrap();
    assert_ne!(first.short_code, second.short_code);
    assert_eq!(second.url_map.len(), 2);
    assert_eq!(second.url_map.lookup(&first.short_code).unwrap().as_str(), "https://example.com/a");
    assert_eq!(second.url_map.lookup(&second.short_code).unwrap().as_str(), "https://example.com/b");
}

fn code(text: &str) -> ShortCode {
    ShortCode::from_text(text.to_string())
}

#[test]
fn given_code_starts_the_file() {
    let done = shorten_with_code(FileRead::Missing, code("abc1234"), url("https://example.com")).unwrap();
    assert_eq!(done.short_code, code("abc1234"));
    assert_eq!(done.url_map.len(), 1);
    assert_eq!(done.url_map.lookup(&code("abc1234")).unwrap().as_str(), "https://example.com/");
    assert_eq!(done.saved, "{\n  \"abc1234\": \"https://example.com/\"\n}");
}

#[test]
fn given_code_joins_what_the_file_holds() {
    let held = "{\"zzzzzzz\": \"https://example.com/held\"}".to_string();
    let done =
        shorten_with_code(FileRead::Text(held), code("abc1234"), url("https://example.com/new")).unwrap();
    assert_eq!(done.url_map.len(), 2);
    assert_eq!(
        done.saved,
        "{\n  \"abc1234\": \"https://example.com/new\",\n  \"zzzzzzz\": \"https://example.com/held\"\n}"
    );
}

#[test]
fn given_code_that_is_held_is_overwritten() {
    let held = "{\"abc1234\": \"https://example.com/old\"}".to_string();
    let done =
        shorten_with_code(FileRead::Text(held), code("abc1234"), url("https://example.com/new")).unwrap();
    assert_eq!(done.url_map.len(), 1);
    assert_eq!(done.saved, "{\n  \"abc1234\": \"https://example.com/new\"\n}");
}

#[test]
fn given_code_does_not_help_a_corrupt_file() {
    let outcome =
        shorten_with_code(FileRead::Text("[]".to_string()), code("abc1234"), url("https://example.com/"));
    assert!(matches!(outcome, Err(ShortenError::Load(LoadError::Malformed(_)))));
    let outcome = shorten_with_code(
        FileRead::Unreadable("disk error".to_string()),
        code("abc1234"),
        url("https://example.com/"),
    );
    assert!(matches!(outcome, Err(ShortenError::Load(LoadError::Unreadable(_)))));
}
