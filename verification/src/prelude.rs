//! The types and functions that most users of the crate need.

pub use crate::data::{RssData, RssItem, RssVersion};
pub use crate::error::RssError;
pub use crate::generator::generate_rss;
pub use crate::parser::parse_rss;
pub use crate::quick_rss;
