//! A verified HTTP/1.1 request parser and routing dispatcher.
//!
//! The parser turns the full text of one request (start line, header lines,
//! blank line, body) into a structured request or a precise error; the
//! dispatcher maps a parsed request to the response behavior of a fixed set
//! of routes. Both are specified against pure functions over `Seq<char>`.

pub mod dispatch;
pub mod parse;
pub mod request;
pub mod response;
pub mod scan;
