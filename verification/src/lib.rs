//! A mock-server core: an ordered table of route definitions, a first-match
//! request matcher, and a response synthesizer that encodes a canned body
//! as JSON, form-urlencoded, or raw text.
pub mod cli;
pub mod config;
pub mod form;
pub mod headers;
pub mod json;
pub mod laws;
pub mod method;
pub mod pattern;
pub mod response;
pub mod text;
