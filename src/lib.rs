//! Pulls RSS 2.0 and Atom feeds into one entry model, decides which entries
//! are new since a feed's stored watermark, and maps them to store records.

pub mod copies;
pub mod nesting;
pub mod notion;
pub mod rss;
pub mod store;
pub mod subscribe;
pub mod subscribe_list;
pub mod sync;
pub mod watermark;
pub mod xml;
