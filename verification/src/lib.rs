//! A typed client for the CFPTime conference / call-for-papers directory API.
//!
//! The library plans HTTP requests (URL join, path construction, request
//! bodies) and interprets responses (status dispatch, JSON decoding into
//! [`Conf`] records) as verified, pure functions on plain values.  The
//! network transport itself lives outside the library: a caller executes a
//! planned [`client::ApiRequest`] and hands the status code and body text
//! back to the response functions.
//!
//! [`Conf`]: conf::Conf

pub mod client;
pub mod conf;
pub mod error;
pub mod json;
pub mod parse;
pub mod response;
pub mod text;
