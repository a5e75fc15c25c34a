//! A small collection of verified utilities built around a line-search
//! tool: given a query string and a document, `grep::search` returns the
//! document's lines that contain the query as a substring, trimmed of
//! surrounding whitespace and in document order. The remaining modules
//! hold small verified data types and functions (a caching wrapper for
//! closures, a bounded counter, rectangle geometry, coin values, and a
//! simple box type).

pub mod cacher;
pub mod coins;
pub mod counter;
pub mod grep;
pub mod longest;
pub mod mybox;
pub mod rectangle;
pub mod shoes;
