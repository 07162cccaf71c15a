//! A store that maps short alphanumeric codes to long URLs.
//!
//! The crate holds the mapping itself, the generator of short codes, the
//! persisted text form of the mapping and the decision that an HTTP front
//! end makes for a requested code. Reading and writing the persisted file
//! and serving HTTP are left to the program that uses the crate: it hands
//! in what it read and is handed back what to write and what to answer.
//!
//! A `UrlMap` is an ordinary owned value. Looking up borrows it shared and
//! inserting borrows it exclusively, so a program that serves requests
//! concurrently keeps it behind a lock, and no reader ever sees it in the
//! middle of a change.

pub mod code;
pub mod long_url;
pub mod url_map;
pub mod persist;
pub mod redirect;
pub mod shorten;
pub mod laws;
