//! The network layer of a minimal browser: URL decomposition, HTTP/1.1 request
//! framing, response parsing and body decoding, plus the text extraction and the
//! character-grid layout that a window needs to show the result.

pub mod bytes;
pub mod number;
pub mod http;
pub mod display;
