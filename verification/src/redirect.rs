//! What the HTTP front end answers: the decision for each route, without
//! the serving.

use crate::code::ShortCode;
use crate::url_map::UrlMap;
use vstd::prelude::*;
use vstd::string::StringExecFns;

verus! {

/// The address that the HTTP front end binds to.
pub const SERVER_ADDRESS: &'static str = "127.0.0.1:3000";

/// Status code of a permanent redirect.
pub const MOVED_PERMANENTLY: u16 = 301;

/// Status code of a request for something that is not there.
pub const NOT_FOUND: u16 = 404;

/// The answer to a request for a short code.
#[derive(Debug)]
pub enum Reply {
    /// The code is known: redirect for good to `location`.
    MovedPermanently { location: String },
    /// The code is unknown: plain text `message`.
    NotFound { message: String },
}

impl Reply {
    /// The HTTP status code of the answer.
    pub open spec fn spec_status(&self) -> u16 {
        match self {
            Reply::MovedPermanently { .. } => MOVED_PERMANENTLY,
            Reply::NotFound { .. } => NOT_FOUND,
        }
    }

    /// The HTTP status code of the answer.
    #[verifier::when_used_as_spec(spec_status)]
    pub fn status(&self) -> (status: u16)
        ensures
            status == self.spec_status(),
    {
        match self {
            Reply::MovedPermanently { .. } => MOVED_PERMANENTLY,
            Reply::NotFound { .. } => NOT_FOUND,
        }
    }
}

/// `reply` is the answer to a request for `code` under `map`: a permanent
/// redirect to the URL that `code` stands for, or "not found" where `map`
/// does not hold `code`.
pub open spec fn answers(map: Map<Seq<char>, Seq<char>>, code: Seq<char>, reply: Reply) -> bool {
    match reply {
        Reply::MovedPermanently { location } => map.dom().contains(code) && location@ == map[code],
        Reply::NotFound { message } => !map.dom().contains(code) && message@
            == "Short link not found"@,
    }
}

/// The answer to `GET /`.
pub fn root() -> (text: &'static str)
    ensures
        text@
            == "Hello, this is the root page! Enter your short URL in the browser to be redirected to the original URL."@,
{
    "Hello, this is the root page! Enter your short URL in the browser to be redirected to the original URL."
}

/// The answer to `GET /{short_code}`: a permanent redirect to the long URL
/// that the code stands for in `url_map`, or "not found" where the mapping
/// does not hold the code.
pub fn redirect_handler(short_code: String, url_map: &UrlMap) -> (reply: Reply)
    ensures
        answers(url_map@, short_code@, reply),
{
    let code = ShortCode::from_text(short_code);
    match url_map.lookup(&code) {
        Some(long_url) => Reply::MovedPermanently { location: long_url.as_str().to_owned() },
        None => Reply::NotFound { message: "Short link not found".to_owned() },
    }
}

/// The link under which the front end serves `code`.
pub fn short_link(code: &ShortCode) -> (link: String)
    ensures
        link@ == "http://localhost:3000/"@ + code@,
{
    let mut link = "http://localhost:3000/".to_owned();
    link.append(code.as_str());
    link
}

} // verus!
