//! Long URLs: the values of the mapping.

use vstd::prelude::*;

verus! {

/// What `url::Url::parse` makes of `input`: the serialization of the URL that
/// it parsed, or `None` where `input` is not an absolute URL.
pub uninterp spec fn url_serialization(input: Seq<char>) -> Option<Seq<char>>;

/// `text` is the serialization of some absolute URL.
pub open spec fn is_url(text: Seq<char>) -> bool {
    exists|input: Seq<char>| url_serialization(input) == Some(text)
}

/// `url::ParseError`, the URL parser's error, carried as an opaque value.
#[verifier::external_type_specification]
#[verifier::external_body]
pub struct ExParseError(url::ParseError);

/// Calls `url::Url::parse` on `input`. On success the result is the URL's
/// serialization, the string that `Url::as_str` shows; on failure it is the
/// parser's error. Parsing reads nothing but `input`, so the outcome is the
/// one that `url_serialization` names.
#[verifier::external_body]
fn parse_absolute(input: &str) -> (parsed: Result<String, url::ParseError>)
    ensures
        match parsed {
            Ok(text) => url_serialization(input@) == Some(text@),
            Err(_) => url_serialization(input@) is None,
        },
{
    match url::Url::parse(input) {
        Ok(url) => Ok(String::from(url)),
        Err(error) => Err(error),
    }
}

/// Why a text was not accepted as a long URL. Its view is the parser's
/// account of what is wrong with the text.
#[derive(Debug)]
pub struct UrlError {
    reason: String,
}

impl View for UrlError {
    type V = Seq<char>;

    closed spec fn view(&self) -> Seq<char> {
        self.reason@
    }
}

impl UrlError {
    /// The parser's account of what is wrong with the text.
    pub fn reason(&self) -> (reason: &str)
        ensures
            reason@ == self@,
    {
        self.reason.as_str()
    }

    /// The same account, owned.
    pub fn into_reason(self) -> (reason: String)
        ensures
            reason@ == self@,
    {
        self.reason
    }
}

/// A validated absolute URL, held in its serialized form.
#[derive(Debug)]
pub struct LongUrl {
    text: String,
}

impl View for LongUrl {
    type V = Seq<char>;

    closed spec fn view(&self) -> Seq<char> {
        self.text@
    }
}

impl Clone for LongUrl {
    fn clone(&self) -> (url: LongUrl)
        ensures
            url@ == self@,
    {
        proof {
            use_type_invariant(self);
        }
        LongUrl { text: self.text.clone() }
    }
}

impl PartialEq for LongUrl {
    fn eq(&self, other: &LongUrl) -> (same: bool) {
        self.text == other.text
    }
}

impl Eq for LongUrl {

}

impl vstd::std_specs::cmp::PartialEqSpecImpl for LongUrl {
    open spec fn obeys_eq_spec() -> bool {
        true
    }

    open spec fn eq_spec(&self, other: &LongUrl) -> bool {
        self@ == other@
    }
}

impl LongUrl {
    #[verifier::type_invariant]
    spec fn validated(self) -> bool {
        is_url(self.text@)
    }

    /// Validates `input` as an absolute URL.
    ///
    /// Succeeds exactly on the texts that the URL parser accepts, and then
    /// holds the parser's serialization of the URL, which may differ from
    /// `input` (a missing path becomes `/`, for one).
    pub fn parse(input: &str) -> (parsed: Result<LongUrl, UrlError>)
        ensures
            match parsed {
                Ok(url) => url_serialization(input@) == Some(url@),
                Err(_) => url_serialization(input@) is None,
            },
    {
        match parse_absolute(input) {
            Ok(text) => Ok(LongUrl { text }),
            Err(error) => Err(UrlError { reason: error.to_string() }),
        }
    }

    /// The URL that `text` is the serialization of.
    pub(crate) fn from_serialization(text: String) -> (url: LongUrl)
        requires
            is_url(text@),
        ensures
            url@ == text@,
    {
        LongUrl { text }
    }

    /// The serialized URL, owned.
    pub fn into_string(self) -> (text: String)
        ensures
            text@ == self@,
            is_url(self@),
    {
        proof {
            use_type_invariant(&self);
        }
        self.text
    }

    /// The serialized URL.
    pub fn as_str(&self) -> (text: &str)
        ensures
            text@ == self@,
            is_url(self@),
    {
        proof {
            use_type_invariant(self);
        }
        self.text.as_str()
    }
}

} // verus!
