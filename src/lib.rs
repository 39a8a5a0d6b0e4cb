//! A single-domain web crawler: URL normalisation and filtering, link
//! extraction, page records, queue job envelopes and the crawl frontier.

pub mod address;
pub mod page;
pub mod spider;
