//! Shortening one URL: from what reading the persisted file gave to what is
//! to be written back.

use crate::code::{is_code_text, ShortCode, CODE_LENGTH};
use crate::long_url::LongUrl;
use crate::persist::{fault_of_read, json_text, mapping_of_read, FileRead, LoadError, SaveError};
use crate::url_map::{UrlMap, UrlMapEntry};
use vstd::prelude::*;

verus! {

/// A URL that has been given its short code.
#[derive(Debug)]
pub struct Shortened {
    /// The mapping as it is now, the new association included.
    pub url_map: UrlMap,
    /// The code that now stands for the URL.
    pub short_code: ShortCode,
    /// The text to write to the persisted file.
    pub saved: String,
}

/// Why a URL could not be shortened.
#[derive(Debug)]
pub enum ShortenError {
    /// The persisted mapping could not be loaded. Nothing is to be written:
    /// what the file holds stays as it is.
    Load(LoadError),
    /// The mapping could not be put into its persisted form.
    Save(SaveError),
}

impl ShortenError {
    /// The error in words, for the user: the message of the error that it
    /// holds.
    pub fn message(&self) -> (text: String)
        ensures
            text@ == match self {
                ShortenError::Load(error) => error.message_text(),
                ShortenError::Save(error) => error.message_text(),
            },
    {
        match self {
            ShortenError::Load(error) => error.message(),
            ShortenError::Save(error) => error.message(),
        }
    }
}

/// What shortening `long_url` under `short_code` comes to, given what reading
/// the persisted file gave.
///
/// Where the persisted mapping does not load, that is the error, and there
/// is no text to write. Otherwise `short_code` is associated with `long_url`
/// in the loaded mapping, replacing what the code stood for, and the whole
/// mapping is put into the text that is to be written back; where the
/// serializer fails on that mapping, that is the error.
pub fn shorten_with_code(read: FileRead, short_code: ShortCode, long_url: LongUrl) -> (outcome:
    Result<Shortened, ShortenError>)
    ensures
        match mapping_of_read(read) {
            None => outcome matches Err(ShortenError::Load(error)) && fault_of_read(read, error),
            Some(before) => match json_text(before.insert(short_code@, long_url@)) {
                Some(text) => {
                    &&& outcome matches Ok(done)
                    &&& done.url_map@ == before.insert(short_code@, long_url@)
                    &&& done.short_code@ == short_code@
                    &&& done.saved@ == text
                },
                None => outcome matches Err(ShortenError::Save(_)),
            },
        },
{
    let mut url_map = match UrlMap::load(read) {
        Ok(url_map) => url_map,
        Err(error) => {
            return Err(ShortenError::Load(error));
        },
    };
    let short_code = url_map.insert_entry(UrlMapEntry { short_code, url: long_url });
    match url_map.save() {
        Ok(saved) => Ok(Shortened { url_map, short_code, saved }),
        Err(error) => Err(ShortenError::Save(error)),
    }
}

/// Shortens `long_url` under a freshly generated code: `shorten_with_code`
/// with a code from `ShortCode::new`.
///
/// Whatever code was drawn, the outcome is that of `shorten_with_code` for
/// it: success holds the code and the text saved for the loaded mapping with
/// the code added, a load error comes exactly where the persisted mapping
/// does not load, and a save error only where the serializer fails on the
/// loaded mapping with some generated code added.
pub fn shorten(read: FileRead, long_url: LongUrl) -> (outcome: Result<Shortened, ShortenError>)
    ensures
        match outcome {
            Ok(done) => {
                &&& mapping_of_read(read) matches Some(before) && done.url_map@ == before.insert(
                    done.short_code@,
                    long_url@,
                )
                &&& is_code_text(done.short_code@, CODE_LENGTH as nat)
                &&& json_text(done.url_map@) == Some(done.saved@)
            },
            Err(ShortenError::Load(error)) => mapping_of_read(read) is None && fault_of_read(
                read,
                error,
            ),
            Err(ShortenError::Save(_)) => mapping_of_read(read) matches Some(before)
                && exists|code: Seq<char>| #[trigger]
                is_code_text(code, CODE_LENGTH as nat) && json_text(
                    before.insert(code, long_url@),
                ) is None,
        },
{
    let short_code = ShortCode::new();
    let ghost drawn = short_code@;
    let outcome = shorten_with_code(read, short_code, long_url);
    proof {
        if outcome matches Err(ShortenError::Save(_)) {
            assert(is_code_text(drawn, CODE_LENGTH as nat));
        }
    }
    outcome
}

} // verus!
