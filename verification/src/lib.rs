//! Generation, parsing and validation of RSS feeds in the dialects 0.90,
//! 0.91, 0.92, 1.0 and 2.0.
//!
//! A feed is built or parsed as an [`RssData`], checked by the validator and
//! written out by the generator. Every function states what it returns over
//! a mathematical view of its arguments, and is verified against that
//! statement.

pub mod calendar;
pub mod counts;
pub mod data;
pub mod error;
pub mod generator;
pub mod link;
pub mod parser;
pub mod prelude;
pub mod round_trip;
pub mod tags;
pub mod text;
pub mod validator;
pub mod xml;

pub use data::{RssData, RssItem, RssVersion};
pub use error::RssError;
pub use generator::generate_rss;
pub use parser::parse_rss;

use crate::data::{Feed, Item};
use crate::error::Failure;
use crate::generator::generated;
use crate::text::{escape_markup, has_prefix, join, starts_with};
use vstd::prelude::*;
use vstd::string::*;
use vstd::utf8::encode_utf8;

verus! {

/// The version of this crate.
pub const VERSION: &'static str = "0.1.0";

/// Maximum length for title fields in the RSS feed, in bytes.
pub const MAX_TITLE_LENGTH: usize = 256;

/// Maximum length for link fields in the RSS feed, in bytes.
pub const MAX_LINK_LENGTH: usize = 2048;

/// Maximum length for description fields in the RSS feed, in bytes.
pub const MAX_DESCRIPTION_LENGTH: usize = 100_000;

/// Maximum length for general fields in the RSS feed, in bytes.
pub const MAX_GENERAL_LENGTH: usize = 1024;

/// Maximum size for the entire RSS feed, in bytes.
pub const MAX_FEED_SIZE: usize = 1_048_576;

/// Why `quick_rss` refuses its input, if it does: the payload of the
/// invalid-input error.
///
/// None of the three texts may be empty, none may be longer than its
/// maximum, and the link has to begin with `http://` or `https://`.
pub open spec fn quick_refusal(
    title: Seq<char>,
    link: Seq<char>,
    description: Seq<char>,
) -> Option<Seq<char>> {
    if title.len() == 0 || link.len() == 0 || description.len() == 0 {
        Some("Title, link, and description must not be empty"@)
    } else if encode_utf8(title).len() > 256 || encode_utf8(link).len() > 2048 || encode_utf8(
        description,
    ).len() > 100_000 {
        Some("Input exceeds maximum allowed length"@)
    } else if !has_prefix(link, "http://"@) && !has_prefix(link, "https://"@) {
        Some("Link must start with http:// or https://"@)
    } else {
        None
    }
}

/// The feed that `quick_rss` generates: an RSS 2.0 feed with the given
/// title, link and description and with one example item, whose link and
/// GUID are the link of the feed followed by `/example-item`.
pub open spec fn quick_feed(title: Seq<char>, link: Seq<char>, description: Seq<char>) -> Feed {
    Feed {
        title: escape_markup(title),
        link: escape_markup(link),
        description: escape_markup(description),
        items: seq![
            Item {
                title: escape_markup("Example Item"@),
                link: escape_markup(link + "/example-item"@),
                description: escape_markup("This is an example item in the RSS feed"@),
                guid: escape_markup(link + "/example-item"@),
                ..Item::empty()
            },
        ],
        ..Feed::empty(RssVersion::RSS2_0)
    }
}

/// A convenience function to generate a minimal valid RSS 2.0 feed, with
/// the provided title, link and description and with one example item.
#[must_use]
pub fn quick_rss(title: &str, link: &str, description: &str) -> (r: Result<String, RssError>)
    ensures
        match quick_refusal(title@, link@, description@) {
            Some(message) => r matches Err(e) && e@ == Failure::InvalidInput(message),
            None => generated(quick_feed(title@, link@, description@), r),
        },
{
    if title.is_empty() || link.is_empty() || description.is_empty() {
        return Err(
            RssError::InvalidInput("Title, link, and description must not be empty".to_owned()),
        );
    }
    if title.as_bytes().len() > MAX_TITLE_LENGTH || link.as_bytes().len() > MAX_LINK_LENGTH
        || description.as_bytes().len() > MAX_DESCRIPTION_LENGTH {
        return Err(RssError::InvalidInput("Input exceeds maximum allowed length".to_owned()));
    }
    if !starts_with(link, "http://") && !starts_with(link, "https://") {
        return Err(RssError::InvalidInput("Link must start with http:// or https://".to_owned()));
    }
    let mut rss_data = RssData::new(Some(RssVersion::RSS2_0)).title(title).link(link).description(
        description,
    );
    let item_link = join(link, "/example-item");
    let item = RssItem::new().title("Example Item").link(item_link.as_str()).description(
        "This is an example item in the RSS feed",
    ).guid(item_link.as_str());
    rss_data.add_item(item);
    proof {
        assert(rss_data@.items =~= quick_feed(title@, link@, description@).items);
        assert(rss_data@ == quick_feed(title@, link@, description@));
    }
    generate_rss(&rss_data)
}

} // verus!
