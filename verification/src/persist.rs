//! The persisted form of the mapping: a JSON object whose keys are short
//! codes and whose values are long URLs.
//!
//! Nothing here touches a file. `UrlMap::load` starts from what reading the
//! file gave, and `UrlMap::save` ends with the text that is to be written.

use crate::code::ShortCode;
use crate::long_url::{is_url, LongUrl};
use crate::url_map::{associations, distinct_codes, pairs_of, UrlMap, UrlMapEntry};
use vstd::prelude::*;
use vstd::string::StringExecFns;

verus! {

/// Name of the file that holds the persisted mapping, relative to the working
/// directory.
pub const FILE_PATH: &'static str = "urls.json";

/// What `serde_json::from_str` makes of `text` when it is asked for a map
/// from strings to URLs: the pairs of a key and the serialization of the URL
/// that its value spells, in ascending order of the keys, or `None` where
/// `text` is not one JSON object whose every member value is a string that
/// parses as an absolute URL.
///
/// The reader parses each member value as a URL when it reads it, so a value
/// that a later member with the same key replaces has to be a URL as well.
pub uninterp spec fn json_entries(text: Seq<char>) -> Option<Seq<(Seq<char>, Seq<char>)>>;

/// The text that `serde_json::to_string_pretty` writes for the JSON object
/// with the codes of `map` as keys and its URLs as values, or `None` where
/// the serializer fails.
pub uninterp spec fn json_text(map: Map<Seq<char>, Seq<char>>) -> Option<Seq<char>>;

/// `serde_json::Error`, the JSON codec's error, carried as an opaque value.
#[verifier::external_type_specification]
#[verifier::external_body]
pub struct ExJsonError(serde_json::Error);

/// The pairs of character sequences that a sequence of string pairs holds.
pub open spec fn texts_of(entries: Seq<(String, String)>) -> Seq<(Seq<char>, Seq<char>)> {
    Seq::new(entries.len(), |i: int| (entries[i].0@, entries[i].1@))
}

/// The pairs of character sequences that a sequence of string slice pairs
/// holds.
pub open spec fn slices_of(entries: Seq<(&str, &str)>) -> Seq<(Seq<char>, Seq<char>)> {
    Seq::new(entries.len(), |i: int| (entries[i].0@, entries[i].1@))
}

/// Every value in `pairs` is the serialization of an absolute URL.
pub open spec fn all_urls(pairs: Seq<(Seq<char>, Seq<char>)>) -> bool {
    forall|i: int| 0 <= i < pairs.len() ==> is_url(#[trigger] pairs[i].1)
}

/// Calls `serde_json::from_str` for a `BTreeMap<String, url::Url>` and hands
/// the map's entries out in the map's own order, each URL as its
/// serialization. The reader reads nothing but `text`, so the outcome is the
/// one that `json_entries` names. The entries come out of a map, so no two of
/// them share a key, and each value was made by `url::Url::parse` from the
/// member's string, so it is the serialization of an absolute URL.
#[verifier::external_body]
fn parse_json_object(text: &str) -> (parsed: Result<Vec<(String, String)>, serde_json::Error>)
    ensures
        match parsed {
            Ok(entries) => {
                &&& json_entries(text@) == Some(texts_of(entries@))
                &&& distinct_codes(texts_of(entries@))
                &&& all_urls(texts_of(entries@))
            },
            Err(_) => json_entries(text@) is None,
        },
{
    match serde_json::from_str::<std::collections::BTreeMap<String, url::Url>>(text) {
        Ok(object) => Ok(object.into_iter().map(|(code, url)| (code, String::from(url))).collect()),
        Err(error) => Err(error),
    }
}

/// Calls `serde_json::to_string_pretty` on a `BTreeMap` from the keys of
/// `entries` to their values. No two entries share a key, so the map holds
/// exactly the associations of `entries`, and the text is the one that
/// `json_text` names for them.
#[verifier::external_body]
fn write_json_object(entries: &Vec<(&str, &str)>) -> (written: Result<String, serde_json::Error>)
    requires
        distinct_codes(slices_of(entries@)),
    ensures
        match written {
            Ok(text) => json_text(associations(slices_of(entries@))) == Some(text@),
            Err(_) => json_text(associations(slices_of(entries@))) is None,
        },
{
    let object: std::collections::BTreeMap<&str, &str> = entries.iter().copied().collect();
    serde_json::to_string_pretty(&object)
}

/// What reading the persisted file gave.
#[derive(Debug)]
pub enum FileRead {
    /// There is no such file.
    Missing,
    /// The file is there and could not be read; the reason is attached.
    Unreadable(String),
    /// The whole content of the file.
    Text(String),
}

/// Why no mapping could be loaded.
#[derive(Debug)]
pub enum LoadError {
    /// The file could not be read; the reason is the reader's.
    Unreadable(String),
    /// The content is not one JSON object whose every member value is an
    /// absolute URL; the reason is the JSON reader's, and names the place.
    Malformed(String),
}

impl LoadError {
    /// The characters of the error's message.
    pub open spec fn message_text(&self) -> Seq<char> {
        match self {
            LoadError::Unreadable(reason) => "the mapping file could not be read: "@ + reason@,
            LoadError::Malformed(reason) => "the mapping file is corrupt: "@ + reason@,
        }
    }

    /// The error in words, for the user.
    pub fn message(&self) -> (text: String)
        ensures
            text@ == self.message_text(),
    {
        match self {
            LoadError::Unreadable(reason) => {
                let mut text = "the mapping file could not be read: ".to_owned();
                text.append(reason.as_str());
                text
            },
            LoadError::Malformed(reason) => {
                let mut text = "the mapping file is corrupt: ".to_owned();
                text.append(reason.as_str());
                text
            },
        }
    }
}

/// Why the mapping could not be put into its persisted form. Its view is the
/// serializer's account of what went wrong.
#[derive(Debug)]
pub struct SaveError {
    reason: String,
}

impl View for SaveError {
    type V = Seq<char>;

    closed spec fn view(&self) -> Seq<char> {
        self.reason@
    }
}

impl SaveError {
    /// The serializer's account of what went wrong.
    pub fn reason(&self) -> (reason: &str)
        ensures
            reason@ == self@,
    {
        self.reason.as_str()
    }

    /// The characters of the error's message.
    pub open spec fn message_text(&self) -> Seq<char> {
        "the mapping could not be serialized: "@ + self@
    }

    /// The error in words, for the user.
    pub fn message(&self) -> (text: String)
        ensures
            text@ == self.message_text(),
    {
        let mut text = "the mapping could not be serialized: ".to_owned();
        text.append(self.reason.as_str());
        text
    }
}

/// The mapping that the file content `text` loads as: that of the pairs
/// which the JSON reader gives for it; `None` where `text` is not one JSON
/// object whose every member value is an absolute URL.
///
/// Where the object repeats a key, the key stands for its last value, and
/// all its values have to be URLs.
pub open spec fn mapping_of_text(text: Seq<char>) -> Option<Map<Seq<char>, Seq<char>>> {
    match json_entries(text) {
        Some(pairs) => Some(associations(pairs)),
        None => None,
    }
}

/// The mapping that the outcome `read` of reading the file loads as: the
/// empty one where the file is missing, `None` where the file could not be
/// read or holds no mapping.
pub open spec fn mapping_of_read(read: FileRead) -> Option<Map<Seq<char>, Seq<char>>> {
    match read {
        FileRead::Missing => Some(Map::empty()),
        FileRead::Unreadable(_) => None,
        FileRead::Text(text) => mapping_of_text(text@),
    }
}

/// `error` names what keeps `read` from loading: the reader's reason where
/// the file could not be read, and that the content is malformed where it
/// could.
pub open spec fn fault_of_read(read: FileRead, error: LoadError) -> bool {
    match read {
        FileRead::Missing => false,
        FileRead::Unreadable(reason) => error matches LoadError::Unreadable(given) && given@
            == reason@,
        FileRead::Text(_) => error is Malformed,
    }
}

/// The entries that pairs of a code and a URL's serialization make, one for
/// each pair and in their order.
fn entries_of(texts: Vec<(String, String)>) -> (entries: Vec<UrlMapEntry>)
    requires
        all_urls(texts_of(texts@)),
    ensures
        pairs_of(entries@) == texts_of(texts@),
{
    let ghost pairs = texts_of(texts@);
    let mut entries: Vec<UrlMapEntry> = Vec::new();
    for pair in iter: texts
        invariant
            pairs == texts_of(iter.seq()),
            all_urls(pairs),
            pairs_of(entries@) =~= pairs.take(iter.index() as int),
    {
        assert(is_url(pairs[iter.index() as int].1));
        let ghost before = pairs_of(entries@);
        let short_code = ShortCode::from_text(pair.0);
        let url = LongUrl::from_serialization(pair.1);
        entries.push(UrlMapEntry { short_code, url });
        proof {
            let after = pairs_of(entries@);
            assert(before.len() == iter.index());
            assert(pairs[iter.index() as int] == (pair.0@, pair.1@));
            assert forall|j: int| 0 <= j < after.len() implies after[j] == pairs.take(
                iter.index() + 1,
            )[j] by {
                if j < iter.index() {
                    assert(after[j] == before[j]);
                }
            }
        }
    }
    assert(pairs.take(pairs.len() as int) =~= pairs);
    entries
}

impl UrlMap {
    /// The mapping that the persisted file holds, from what reading the file
    /// gave.
    ///
    /// A missing file is the empty mapping. A file that could not be read,
    /// or whose content is not one JSON object whose every member value is
    /// an absolute URL, is an error: its data is never taken for an empty
    /// mapping. Where the object repeats a key, the key stands for its last
    /// value, and a value that is replaced has to be a URL all the same:
    /// `{"k": "junk", "k": "https://a/"}` is an error.
    pub fn load(read: FileRead) -> (loaded: Result<UrlMap, LoadError>)
        ensures
            match loaded {
                Ok(map) => mapping_of_read(read) == Some(map@),
                Err(error) => mapping_of_read(read) is None && fault_of_read(read, error),
            },
    {
        match read {
            FileRead::Missing => Ok(UrlMap::new()),
            FileRead::Unreadable(reason) => Err(LoadError::Unreadable(reason)),
            FileRead::Text(text) => UrlMap::from_json(text.as_str()),
        }
    }

    /// The mapping that the JSON object `text` records. Every member value
    /// has to be an absolute URL, and a repeated key stands for its last
    /// value.
    pub fn from_json(text: &str) -> (loaded: Result<UrlMap, LoadError>)
        ensures
            match loaded {
                Ok(map) => mapping_of_text(text@) == Some(map@),
                Err(error) => mapping_of_text(text@) is None && error is Malformed,
            },
    {
        match parse_json_object(text) {
            Ok(texts) => Ok(UrlMap::from_distinct_entries(entries_of(texts))),
            Err(error) => Err(LoadError::Malformed(error.to_string())),
        }
    }

    /// The text to write to the persisted file: the whole mapping as one
    /// pretty-printed JSON object.
    pub fn save(&self) -> (saved: Result<String, SaveError>)
        ensures
            match saved {
                Ok(text) => json_text(self@) == Some(text@),
                Err(_) => json_text(self@) is None,
            },
    {
        let entries = self.entries();
        let mut slices: Vec<(&str, &str)> = Vec::new();
        let mut i: usize = 0;
        while i < entries.len()
            invariant
                i <= entries@.len(),
                slices_of(slices@) =~= pairs_of(entries@).take(i as int),
            decreases entries@.len() - i,
        {
            let ghost before = slices_of(slices@);
            slices.push((entries[i].short_code.as_str(), entries[i].url.as_str()));
            i += 1;
            proof {
                let after = slices_of(slices@);
                assert(before.len() == i - 1);
                assert forall|j: int| 0 <= j < after.len() implies after[j] == pairs_of(
                    entries@,
                ).take(i as int)[j] by {
                    if j < i - 1 {
                        assert(after[j] == before[j]);
                    }
                }
            }
        }
        assert(pairs_of(entries@).take(i as int) =~= pairs_of(entries@));
        match write_json_object(&slices) {
            Ok(text) => Ok(text),
            Err(error) => Err(SaveError { reason: error.to_string() }),
        }
    }
}

} // verus!
