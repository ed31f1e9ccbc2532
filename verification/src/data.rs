//! The feed model: a feed, its items and the dialect it is written in.
//!
//! Field values are escaped when they are set, so that what a feed stores
//! can be written out as it is.

use crate::calendar::{in_utc, is_iso8601, is_rfc2822, now_in_zone, reads_as_iso8601, reads_as_rfc2822};
use crate::error::{failure_line, texts, Failure, RssError};
use crate::link::{read_scheme, scheme};
use crate::text::{escape_markup, from_chars, join, number, parse_number, pieces, same_text,
    sanitize_input, split_at_char, split_words, to_chars, words, IntoText};
use dtt::datetime::DateTime;
use vstd::hash_map::StringHashMap;
use vstd::prelude::*;
use vstd::string::*;

verus! {

/// The five RSS dialects.
#[derive(Debug, Clone, Copy, PartialEq, Eq, Hash)]
pub enum RssVersion {
    /// RSS version 0.90
    RSS0_90,
    /// RSS version 0.91
    RSS0_91,
    /// RSS version 0.92
    RSS0_92,
    /// RSS version 1.0
    RSS1_0,
    /// RSS version 2.0
    RSS2_0,
}

/// The dialect that carries the given version string, if there is one.
pub open spec fn version_named(s: Seq<char>) -> Option<RssVersion> {
    if s == "0.90"@ {
        Some(RssVersion::RSS0_90)
    } else if s == "0.91"@ {
        Some(RssVersion::RSS0_91)
    } else if s == "0.92"@ {
        Some(RssVersion::RSS0_92)
    } else if s == "1.0"@ {
        Some(RssVersion::RSS1_0)
    } else if s == "2.0"@ {
        Some(RssVersion::RSS2_0)
    } else {
        None
    }
}

impl RssVersion {
    /// The version string of the dialect.
    pub open spec fn label(self) -> Seq<char> {
        match self {
            RssVersion::RSS0_90 => "0.90"@,
            RssVersion::RSS0_91 => "0.91"@,
            RssVersion::RSS0_92 => "0.92"@,
            RssVersion::RSS1_0 => "1.0"@,
            RssVersion::RSS2_0 => "2.0"@,
        }
    }

    /// Returns the string representation of the RSS version.
    #[must_use]
    pub fn as_str(&self) -> (s: &'static str)
        ensures
            s@ == self.label(),
    {
        match self {
            RssVersion::RSS0_90 => "0.90",
            RssVersion::RSS0_91 => "0.91",
            RssVersion::RSS0_92 => "0.92",
            RssVersion::RSS1_0 => "1.0",
            RssVersion::RSS2_0 => "2.0",
        }
    }

    /// The version string, owned.
    pub fn to_string(&self) -> (s: String)
        ensures
            s@ == self.label(),
    {
        self.as_str().to_owned()
    }

    /// Reads a version string. Every string but the five version strings is
    /// rejected with `InvalidRssVersion`, which carries the string.
    pub fn parse(s: &str) -> (r: Result<RssVersion, RssError>)
        ensures
            match version_named(s@) {
                Some(v) => r == Ok::<RssVersion, RssError>(v),
                None => r matches Err(e) && e@ == Failure::InvalidRssVersion(s@),
            },
    {
        if same_text(s, "0.90") {
            Ok(RssVersion::RSS0_90)
        } else if same_text(s, "0.91") {
            Ok(RssVersion::RSS0_91)
        } else if same_text(s, "0.92") {
            Ok(RssVersion::RSS0_92)
        } else if same_text(s, "1.0") {
            Ok(RssVersion::RSS1_0)
        } else if same_text(s, "2.0") {
            Ok(RssVersion::RSS2_0)
        } else {
            Err(RssError::InvalidRssVersion(s.to_owned()))
        }
    }
}

/// Reading a version's own string gives the version back.
pub proof fn lemma_version_label_round_trip(v: RssVersion)
    ensures
        version_named(v.label()) == Some(v),
{
    reveal_strlit("0.90");
    reveal_strlit("0.91");
    reveal_strlit("0.92");
    reveal_strlit("1.0");
    reveal_strlit("2.0");
    assert("0.90"@[3] != "0.91"@[3]);
    assert("0.90"@[3] != "0.92"@[3]);
    assert("0.91"@[3] != "0.92"@[3]);
    assert("1.0"@[0] != "2.0"@[0]);
}

impl Default for RssVersion {
    fn default() -> (v: RssVersion)
        ensures
            v == RssVersion::RSS2_0,
    {
        RssVersion::RSS2_0
    }
}

impl std::str::FromStr for RssVersion {
    type Err = RssError;

    fn from_str(s: &str) -> (r: Result<RssVersion, RssError>)
        ensures
            match version_named(s@) {
                Some(v) => r == Ok::<RssVersion, RssError>(v),
                None => r matches Err(e) && e@ == Failure::InvalidRssVersion(s@),
            },
    {
        RssVersion::parse(s)
    }
}

/// Represents the fields of an RSS data structure.
#[derive(Debug, Clone, Copy, PartialEq, Eq, Hash)]
pub enum RssDataField {
    /// The Atom link of the RSS feed.
    AtomLink,
    /// The author of the RSS feed.
    Author,
    /// The category of the RSS feed.
    Category,
    /// The copyright notice.
    Copyright,
    /// The description of the RSS feed.
    Description,
    /// The docs link of the RSS feed.
    Docs,
    /// The generator of the RSS feed.
    Generator,
    /// The GUID of the RSS feed.
    Guid,
    /// The image title of the RSS feed.
    ImageTitle,
    /// The image URL of the RSS feed.
    ImageUrl,
    /// The image link of the RSS feed.
    ImageLink,
    /// The language of the RSS feed.
    Language,
    /// The last build date of the RSS feed.
    LastBuildDate,
    /// The main link to the RSS feed.
    Link,
    /// The managing editor of the RSS feed.
    ManagingEditor,
    /// The publication date of the RSS feed.
    PubDate,
    /// The title of the RSS feed.
    Title,
    /// Time To Live (TTL), the number of minutes the feed should be cached before refreshing.
    Ttl,
    /// The webmaster of the RSS feed.
    Webmaster,
}

/// Represents the fields of an RSS item.
#[derive(Debug, Clone, Copy, PartialEq, Eq, Hash)]
pub enum RssItemField {
    /// The GUID of the RSS item.
    Guid,
    /// The category of the RSS item.
    Category,
    /// The description of the RSS item.
    Description,
    /// The link to the RSS item.
    Link,
    /// The publication date of the RSS item.
    PubDate,
    /// The title of the RSS item.
    Title,
    /// The author of the RSS item.
    Author,
    /// The comments URL related to the RSS item.
    Comments,
    /// The enclosure (typically for media like podcasts).
    Enclosure,
    /// The source of the RSS item.
    Source,
}

/// Represents an item in the RSS feed.
#[derive(Debug, PartialEq, Eq)]
pub struct RssItem {
    /// The GUID of the RSS item (unique identifier).
    pub guid: String,
    /// The category of the RSS item.
    pub category: Option<String>,
    /// The description of the RSS item.
    pub description: String,
    /// The link to the RSS item.
    pub link: String,
    /// The publication date of the RSS item.
    pub pub_date: String,
    /// The title of the RSS item.
    pub title: String,
    /// The author of the RSS item.
    pub author: String,
    /// The comments URL related to the RSS item (optional).
    pub comments: Option<String>,
    /// The enclosure (typically for media like podcasts) (optional).
    pub enclosure: Option<String>,
    /// The source of the RSS item (optional).
    pub source: Option<String>,
}

/// The text of an optional string.
pub open spec fn optional_text(s: Option<String>) -> Option<Seq<char>> {
    match s {
        Some(t) => Some(t@),
        None => None,
    }
}

/// What an item holds.
pub struct Item {
    pub guid: Seq<char>,
    pub category: Option<Seq<char>>,
    pub description: Seq<char>,
    pub link: Seq<char>,
    pub pub_date: Seq<char>,
    pub title: Seq<char>,
    pub author: Seq<char>,
    pub comments: Option<Seq<char>>,
    pub enclosure: Option<Seq<char>>,
    pub source: Option<Seq<char>>,
}

impl Item {
    /// The item in which every field is empty or absent.
    pub open spec fn empty() -> Item {
        Item {
            guid: Seq::empty(),
            category: None,
            description: Seq::empty(),
            link: Seq::empty(),
            pub_date: Seq::empty(),
            title: Seq::empty(),
            author: Seq::empty(),
            comments: None,
            enclosure: None,
            source: None,
        }
    }

    /// The item with `field` replaced by `value`.
    pub open spec fn with_field(self, field: RssItemField, value: Seq<char>) -> Item {
        match field {
            RssItemField::Guid => Item { guid: value, ..self },
            RssItemField::Category => Item { category: Some(value), ..self },
            RssItemField::Description => Item { description: value, ..self },
            RssItemField::Link => Item { link: value, ..self },
            RssItemField::PubDate => Item { pub_date: value, ..self },
            RssItemField::Title => Item { title: value, ..self },
            RssItemField::Author => Item { author: value, ..self },
            RssItemField::Comments => Item { comments: Some(value), ..self },
            RssItemField::Enclosure => Item { enclosure: Some(value), ..self },
            RssItemField::Source => Item { source: Some(value), ..self },
        }
    }
}

impl View for RssItem {
    type V = Item;

    open spec fn view(&self) -> Item {
        Item {
            guid: self.guid@,
            category: optional_text(self.category),
            description: self.description@,
            link: self.link@,
            pub_date: self.pub_date@,
            title: self.title@,
            author: self.author@,
            comments: optional_text(self.comments),
            enclosure: optional_text(self.enclosure),
            source: optional_text(self.source),
        }
    }
}

fn clone_optional(s: &Option<String>) -> (r: Option<String>)
    ensures
        r == *s,
{
    match s {
        Some(t) => Some(t.clone()),
        None => None,
    }
}

impl Clone for RssItem {
    fn clone(&self) -> (r: RssItem)
        ensures
            r == *self,
    {
        RssItem {
            guid: self.guid.clone(),
            category: clone_optional(&self.category),
            description: self.description.clone(),
            link: self.link.clone(),
            pub_date: self.pub_date.clone(),
            title: self.title.clone(),
            author: self.author.clone(),
            comments: clone_optional(&self.comments),
            enclosure: clone_optional(&self.enclosure),
            source: clone_optional(&self.source),
        }
    }
}

impl Default for RssItem {
    fn default() -> (item: RssItem)
        ensures
            item@ == Item::empty(),
    {
        RssItem {
            guid: String::new(),
            category: None,
            description: String::new(),
            link: String::new(),
            pub_date: String::new(),
            title: String::new(),
            author: String::new(),
            comments: None,
            enclosure: None,
            source: None,
        }
    }
}

impl RssItem {
    /// Creates a new `RssItem` in which every field is empty or absent.
    #[must_use]
    pub fn new() -> (item: RssItem)
        ensures
            item@ == Item::empty(),
    {
        RssItem::default()
    }

    /// Stores `value` in `field` as it is.
    pub fn store(&mut self, field: RssItemField, value: String)
        ensures
            final(self)@ == old(self)@.with_field(field, value@),
    {
        match field {
            RssItemField::Guid => self.guid = value,
            RssItemField::Category => self.category = Some(value),
            RssItemField::Description => self.description = value,
            RssItemField::Link => self.link = value,
            RssItemField::PubDate => self.pub_date = value,
            RssItemField::Title => self.title = value,
            RssItemField::Author => self.author = value,
            RssItemField::Comments => self.comments = Some(value),
            RssItemField::Enclosure => self.enclosure = Some(value),
            RssItemField::Source => self.source = Some(value),
        }
    }

    /// Sets the value of a field and returns the `RssItem` instance for
    /// method chaining. The value is escaped before it is stored.
    pub fn set<T: IntoText>(self, field: RssItemField, value: T) -> (r: RssItem)
        ensures
            r@ == self@.with_field(field, escape_markup(value.text())),
    {
        let stored = sanitize_input(value.into_text().as_str());
        let mut item = self;
        item.store(field, stored);
        item
    }

    /// Sets the GUID.
    #[must_use]
    pub fn guid<T: IntoText>(self, value: T) -> (r: RssItem)
        ensures
            r@ == (Item { guid: escape_markup(value.text()), ..self@ }),
    {
        self.set(RssItemField::Guid, value)
    }

    /// Sets the category.
    #[must_use]
    pub fn category<T: IntoText>(self, value: T) -> (r: RssItem)
        ensures
            r@ == (Item { category: Some(escape_markup(value.text())), ..self@ }),
    {
        self.set(RssItemField::Category, value)
    }

    /// Sets the description.
    #[must_use]
    pub fn description<T: IntoText>(self, value: T) -> (r: RssItem)
        ensures
            r@ == (Item { description: escape_markup(value.text()), ..self@ }),
    {
        self.set(RssItemField::Description, value)
    }

    /// Sets the link.
    #[must_use]
    pub fn link<T: IntoText>(self, value: T) -> (r: RssItem)
        ensures
            r@ == (Item { link: escape_markup(value.text()), ..self@ }),
    {
        self.set(RssItemField::Link, value)
    }

    /// Sets the publication date.
    #[must_use]
    pub fn pub_date<T: IntoText>(self, value: T) -> (r: RssItem)
        ensures
            r@ == (Item { pub_date: escape_markup(value.text()), ..self@ }),
    {
        self.set(RssItemField::PubDate, value)
    }

    /// Sets the title.
    #[must_use]
    pub fn title<T: IntoText>(self, value: T) -> (r: RssItem)
        ensures
            r@ == (Item { title: escape_markup(value.text()), ..self@ }),
    {
        self.set(RssItemField::Title, value)
    }

    /// Sets the author.
    #[must_use]
    pub fn author<T: IntoText>(self, value: T) -> (r: RssItem)
        ensures
            r@ == (Item { author: escape_markup(value.text()), ..self@ }),
    {
        self.set(RssItemField::Author, value)
    }

    /// Sets the comments URL.
    #[must_use]
    pub fn comments<T: IntoText>(self, value: T) -> (r: RssItem)
        ensures
            r@ == (Item { comments: Some(escape_markup(value.text())), ..self@ }),
    {
        self.set(RssItemField::Comments, value)
    }

    /// Sets the enclosure.
    #[must_use]
    pub fn enclosure<T: IntoText>(self, value: T) -> (r: RssItem)
        ensures
            r@ == (Item { enclosure: Some(escape_markup(value.text())), ..self@ }),
    {
        self.set(RssItemField::Enclosure, value)
    }

    /// Sets the source.
    #[must_use]
    pub fn source<T: IntoText>(self, value: T) -> (r: RssItem)
        ensures
            r@ == (Item { source: Some(escape_markup(value.text())), ..self@ }),
    {
        self.set(RssItemField::Source, value)
    }
}

/// The views of a sequence of items.
pub open spec fn items_of(v: Seq<RssItem>) -> Seq<Item> {
    Seq::new(v.len(), |i: int| v[i]@)
}

/// Represents the main structure for an RSS feed.
#[derive(Debug, PartialEq)]
pub struct RssData {
    /// The Atom link of the RSS feed.
    pub atom_link: String,
    /// The author of the RSS feed.
    pub author: String,
    /// The category of the RSS feed.
    pub category: String,
    /// The copyright notice for the content of the feed.
    pub copyright: String,
    /// The description of the RSS feed.
    pub description: String,
    /// The docs link of the RSS feed.
    pub docs: String,
    /// The generator of the RSS feed.
    pub generator: String,
    /// The GUID of the RSS feed.
    pub guid: String,
    /// The image title of the RSS feed.
    pub image_title: String,
    /// The image URL of the RSS feed.
    pub image_url: String,
    /// The image link of the RSS feed.
    pub image_link: String,
    /// The language of the RSS feed.
    pub language: String,
    /// The last build date of the RSS feed.
    pub last_build_date: String,
    /// The main link to the RSS feed.
    pub link: String,
    /// The managing editor of the RSS feed.
    pub managing_editor: String,
    /// The publication date of the RSS feed.
    pub pub_date: String,
    /// The title of the RSS feed.
    pub title: String,
    /// Time To Live (TTL), the number of minutes the feed should be cached before refreshing.
    pub ttl: String,
    /// The webmaster of the RSS feed.
    pub webmaster: String,
    /// A collection of additional items in the RSS feed.
    pub items: Vec<RssItem>,
    /// The version of the RSS feed.
    pub version: RssVersion,
}

/// What a feed holds.
pub struct Feed {
    pub atom_link: Seq<char>,
    pub author: Seq<char>,
    pub category: Seq<char>,
    pub copyright: Seq<char>,
    pub description: Seq<char>,
    pub docs: Seq<char>,
    pub generator: Seq<char>,
    pub guid: Seq<char>,
    pub image_title: Seq<char>,
    pub image_url: Seq<char>,
    pub image_link: Seq<char>,
    pub language: Seq<char>,
    pub last_build_date: Seq<char>,
    pub link: Seq<char>,
    pub managing_editor: Seq<char>,
    pub pub_date: Seq<char>,
    pub title: Seq<char>,
    pub ttl: Seq<char>,
    pub webmaster: Seq<char>,
    pub items: Seq<Item>,
    pub version: RssVersion,
}

impl Feed {
    /// The feed of the given dialect with no items and every field empty.
    pub open spec fn empty(version: RssVersion) -> Feed {
        Feed {
            atom_link: Seq::empty(),
            author: Seq::empty(),
            category: Seq::empty(),
            copyright: Seq::empty(),
            description: Seq::empty(),
            docs: Seq::empty(),
            generator: Seq::empty(),
            guid: Seq::empty(),
            image_title: Seq::empty(),
            image_url: Seq::empty(),
            image_link: Seq::empty(),
            language: Seq::empty(),
            last_build_date: Seq::empty(),
            link: Seq::empty(),
            managing_editor: Seq::empty(),
            pub_date: Seq::empty(),
            title: Seq::empty(),
            ttl: Seq::empty(),
            webmaster: Seq::empty(),
            items: Seq::empty(),
            version,
        }
    }

    /// The feed with `field` replaced by `value`.
    pub open spec fn with_field(self, field: RssDataField, value: Seq<char>) -> Feed {
        match field {
            RssDataField::AtomLink => Feed { atom_link: value, ..self },
            RssDataField::Author => Feed { author: value, ..self },
            RssDataField::Category => Feed { category: value, ..self },
            RssDataField::Copyright => Feed { copyright: value, ..self },
            RssDataField::Description => Feed { description: value, ..self },
            RssDataField::Docs => Feed { docs: value, ..self },
            RssDataField::Generator => Feed { generator: value, ..self },
            RssDataField::Guid => Feed { guid: value, ..self },
            RssDataField::ImageTitle => Feed { image_title: value, ..self },
            RssDataField::ImageUrl => Feed { image_url: value, ..self },
            RssDataField::ImageLink => Feed { image_link: value, ..self },
            RssDataField::Language => Feed { language: value, ..self },
            RssDataField::LastBuildDate => Feed { last_build_date: value, ..self },
            RssDataField::Link => Feed { link: value, ..self },
            RssDataField::ManagingEditor => Feed { managing_editor: value, ..self },
            RssDataField::PubDate => Feed { pub_date: value, ..self },
            RssDataField::Title => Feed { title: value, ..self },
            RssDataField::Ttl => Feed { ttl: value, ..self },
            RssDataField::Webmaster => Feed { webmaster: value, ..self },
        }
    }

    /// The items in which `field` of the most recent item is replaced by
    /// `value`. A feed without items gets a first item to hold the value.
    pub open spec fn with_item_field(self, field: RssItemField, value: Seq<char>) -> Seq<Item> {
        if self.items.len() == 0 {
            seq![Item::empty().with_field(field, value)]
        } else {
            self.items.drop_last().push(self.items.last().with_field(field, value))
        }
    }
}

impl View for RssData {
    type V = Feed;

    open spec fn view(&self) -> Feed {
        Feed {
            atom_link: self.atom_link@,
            author: self.author@,
            category: self.category@,
            copyright: self.copyright@,
            description: self.description@,
            docs: self.docs@,
            generator: self.generator@,
            guid: self.guid@,
            image_title: self.image_title@,
            image_url: self.image_url@,
            image_link: self.image_link@,
            language: self.language@,
            last_build_date: self.last_build_date@,
            link: self.link@,
            managing_editor: self.managing_editor@,
            pub_date: self.pub_date@,
            title: self.title@,
            ttl: self.ttl@,
            webmaster: self.webmaster@,
            items: items_of(self.items@),
            version: self.version,
        }
    }
}

impl Clone for RssData {
    fn clone(&self) -> (r: RssData)
        ensures
            r@ == self@,
    {
        let mut items: Vec<RssItem> = Vec::new();
        let mut i: usize = 0;
        while i < self.items.len()
            invariant
                i <= self.items@.len(),
                items@ == self.items@.take(i as int),
            decreases self.items@.len() - i,
        {
            items.push(self.items[i].clone());
            proof {
                assert(items@ =~= self.items@.take(i + 1));
            }
            i += 1;
        }
        proof {
            assert(self.items@.take(i as int) =~= self.items@);
        }
        RssData {
            atom_link: self.atom_link.clone(),
            author: self.author.clone(),
            category: self.category.clone(),
            copyright: self.copyright.clone(),
            description: self.description.clone(),
            docs: self.docs.clone(),
            generator: self.generator.clone(),
            guid: self.guid.clone(),
            image_title: self.image_title.clone(),
            image_url: self.image_url.clone(),
            image_link: self.image_link.clone(),
            language: self.language.clone(),
            last_build_date: self.last_build_date.clone(),
            link: self.link.clone(),
            managing_editor: self.managing_editor.clone(),
            pub_date: self.pub_date.clone(),
            title: self.title.clone(),
            ttl: self.ttl.clone(),
            webmaster: self.webmaster.clone(),
            items,
            version: self.version,
        }
    }
}

impl Default for RssData {
    fn default() -> (feed: RssData)
        ensures
            feed@ == Feed::empty(RssVersion::RSS2_0),
    {
        RssData::new(None)
    }
}

impl RssData {
    /// Creates a new `RssData` instance with no items and every field empty.
    /// Without a version the feed is an RSS 2.0 feed.
    #[must_use]
    pub fn new(version: Option<RssVersion>) -> (feed: RssData)
        ensures
            feed@ == Feed::empty(
                match version {
                    Some(v) => v,
                    None => RssVersion::RSS2_0,
                },
            ),
    {
        let version = match version {
            Some(v) => v,
            None => RssVersion::RSS2_0,
        };
        let feed = RssData {
            atom_link: String::new(),
            author: String::new(),
            category: String::new(),
            copyright: String::new(),
            description: String::new(),
            docs: String::new(),
            generator: String::new(),
            guid: String::new(),
            image_title: String::new(),
            image_url: String::new(),
            image_link: String::new(),
            language: String::new(),
            last_build_date: String::new(),
            link: String::new(),
            managing_editor: String::new(),
            pub_date: String::new(),
            title: String::new(),
            ttl: String::new(),
            webmaster: String::new(),
            items: Vec::new(),
            version,
        };
        proof {
            assert(feed@.items == Seq::<Item>::empty());
        }
        feed
    }

    /// Stores `value` in `field` as it is.
    pub fn store(&mut self, field: RssDataField, value: String)
        ensures
            final(self)@ == old(self)@.with_field(field, value@),
    {
        match field {
            RssDataField::AtomLink => self.atom_link = value,
            RssDataField::Author => self.author = value,
            RssDataField::Category => self.category = value,
            RssDataField::Copyright => self.copyright = value,
            RssDataField::Description => self.description = value,
            RssDataField::Docs => self.docs = value,
            RssDataField::Generator => self.generator = value,
            RssDataField::Guid => self.guid = value,
            RssDataField::ImageTitle => self.image_title = value,
            RssDataField::ImageUrl => self.image_url = value,
            RssDataField::ImageLink => self.image_link = value,
            RssDataField::Language => self.language = value,
            RssDataField::LastBuildDate => self.last_build_date = value,
            RssDataField::Link => self.link = value,
            RssDataField::ManagingEditor => self.managing_editor = value,
            RssDataField::PubDate => self.pub_date = value,
            RssDataField::Title => self.title = value,
            RssDataField::Ttl => self.ttl = value,
            RssDataField::Webmaster => self.webmaster = value,
        }
    }

    /// Sets the value of a specified field and returns the `RssData` instance
    /// for method chaining. The value is escaped before it is stored.
    pub fn set<T: IntoText>(self, field: RssDataField, value: T) -> (r: RssData)
        ensures
            r@ == self@.with_field(field, escape_markup(value.text())),
    {
        let stored = sanitize_input(value.into_text().as_str());
        let mut feed = self;
        feed.store(field, stored);
        feed
    }

    /// Sets the value of a specified item field for the most recent RSS item.
    /// The value is escaped before it is stored.
    pub fn set_item_field<T: IntoText>(&mut self, field: RssItemField, value: T)
        ensures
            final(self)@ == (Feed {
                items: old(self)@.with_item_field(field, escape_markup(value.text())),
                ..old(self)@
            }),
    {
        let stored = sanitize_input(value.into_text().as_str());
        let item = match self.items.pop() {
            Some(item) => item,
            None => RssItem::new(),
        };
        let ghost kept = self.items@;
        let mut item = item;
        item.store(field, stored);
        self.items.push(item);
        proof {
            let want = old(self)@.with_item_field(field, escape_markup(value.text()));
            if old(self).items@.len() == 0 {
                assert(items_of(self.items@) =~= want);
            } else {
                assert(kept == old(self).items@.drop_last());
                assert(items_of(self.items@) =~= want);
            }
        }
    }

    /// Sets the image for the RSS feed. The three values are escaped before
    /// they are stored.
    pub fn set_image(&mut self, title: String, url: String, link: String)
        ensures
            final(self)@ == (Feed {
                image_title: escape_markup(title@),
                image_url: escape_markup(url@),
                image_link: escape_markup(link@),
                ..old(self)@
            }),
    {
        self.image_title = sanitize_input(title.as_str());
        self.image_url = sanitize_input(url.as_str());
        self.image_link = sanitize_input(link.as_str());
    }

    /// Adds an item to the end of the RSS feed.
    pub fn add_item(&mut self, item: RssItem)
        ensures
            final(self)@ == (Feed { items: old(self)@.items.push(item@), ..old(self)@ }),
    {
        self.items.push(item);
        proof {
            assert(items_of(self.items@) =~= old(self)@.items.push(item@));
        }
    }

    /// Removes every item whose GUID equals `guid`. Returns `true` if an
    /// item was removed, `false` otherwise.
    pub fn remove_item(&mut self, guid: &str) -> (removed: bool)
        ensures
            final(self)@ == (Feed {
                items: old(self)@.items.filter(|item: Item| item.guid != guid@),
                ..old(self)@
            }),
            removed == exists|i: int|
                0 <= i < old(self)@.items.len() && old(self)@.items[i].guid == guid@,
    {
        let ghost keeps = |item: Item| item.guid != guid@;
        let ghost before = items_of(self.items@);
        let mut kept: Vec<RssItem> = Vec::new();
        let mut removed = false;
        let mut i: usize = 0;
        proof {
            assert(before.take(0).filter(keeps) == Seq::<Item>::empty()) by {
                reveal(Seq::filter);
            }
        }
        while i < self.items.len()
            invariant
                i <= self.items@.len(),
                self.items == old(self).items,
                before == items_of(self.items@),
                keeps == (|item: Item| item.guid != guid@),
                items_of(kept@) == before.take(i as int).filter(keeps),
                removed == exists|j: int| 0 <= j < i && before[j].guid == guid@,
            decreases self.items@.len() - i,
        {
            let item = &self.items[i];
            let same = same_text(item.guid.as_str(), guid);
            proof {
                let next = before.take(i + 1);
                assert(next.drop_last() == before.take(i as int));
                assert(next.last() == item@);
                reveal(Seq::filter);
                assert(next.filter(keeps) == if keeps(item@) {
                    before.take(i as int).filter(keeps).push(item@)
                } else {
                    before.take(i as int).filter(keeps)
                });
            }
            if same {
                removed = true;
                proof {
                    assert(before[i as int].guid == guid@);
                }
            } else {
                kept.push(item.clone());
                proof {
                    assert(items_of(kept@) =~= before.take(i as int).filter(keeps).push(item@));
                }
            }
            i += 1;
        }
        proof {
            assert(before.take(self.items@.len() as int) == before);
        }
        self.items = kept;
        removed
    }

    /// Returns the number of items in the RSS feed.
    #[must_use]
    pub fn item_count(&self) -> (n: usize)
        ensures
            n == self@.items.len(),
    {
        self.items.len()
    }

    /// Clears all items from the RSS feed.
    pub fn clear_items(&mut self)
        ensures
            final(self)@ == (Feed { items: Seq::empty(), ..old(self)@ }),
    {
        self.items.clear();
        proof {
            assert(items_of(self.items@) =~= Seq::<Item>::empty());
        }
    }

    /// The flattened view of the scalar fields: one entry for each of the
    /// nineteen, under the field's name. Items and version are left out.
    pub open spec fn field_map(&self) -> Map<Seq<char>, String> {
        Map::<Seq<char>, String>::empty().insert("atom_link"@, self.atom_link).insert(
            "author"@,
            self.author,
        ).insert("category"@, self.category).insert("copyright"@, self.copyright).insert(
            "description"@,
            self.description,
        ).insert("docs"@, self.docs).insert("generator"@, self.generator).insert(
            "guid"@,
            self.guid,
        ).insert("image_title"@, self.image_title).insert("image_url"@, self.image_url).insert(
            "image_link"@,
            self.image_link,
        ).insert("language"@, self.language).insert(
            "last_build_date"@,
            self.last_build_date,
        ).insert("link"@, self.link).insert("managing_editor"@, self.managing_editor).insert(
            "pub_date"@,
            self.pub_date,
        ).insert("title"@, self.title).insert("ttl"@, self.ttl).insert(
            "webmaster"@,
            self.webmaster,
        )
    }

    /// Converts the scalar fields of the `RssData` into a map from field
    /// name to value.
    #[must_use]
    pub fn to_hash_map(&self) -> (map: StringHashMap<String>)
        ensures
            map@ == self.field_map(),
    {
        let mut map = StringHashMap::<String>::new();
        map.insert("atom_link".to_owned(), self.atom_link.clone());
        map.insert("author".to_owned(), self.author.clone());
        map.insert("category".to_owned(), self.category.clone());
        map.insert("copyright".to_owned(), self.copyright.clone());
        map.insert("description".to_owned(), self.description.clone());
        map.insert("docs".to_owned(), self.docs.clone());
        map.insert("generator".to_owned(), self.generator.clone());
        map.insert("guid".to_owned(), self.guid.clone());
        map.insert("image_title".to_owned(), self.image_title.clone());
        map.insert("image_url".to_owned(), self.image_url.clone());
        map.insert("image_link".to_owned(), self.image_link.clone());
        map.insert("language".to_owned(), self.language.clone());
        map.insert("last_build_date".to_owned(), self.last_build_date.clone());
        map.insert("link".to_owned(), self.link.clone());
        map.insert("managing_editor".to_owned(), self.managing_editor.clone());
        map.insert("pub_date".to_owned(), self.pub_date.clone());
        map.insert("title".to_owned(), self.title.clone());
        map.insert("ttl".to_owned(), self.ttl.clone());
        map.insert("webmaster".to_owned(), self.webmaster.clone());
        map
    }

    /// Sets the RSS version.
    #[must_use]
    pub fn version(self, version: RssVersion) -> (r: RssData)
        ensures
            r@ == (Feed { version, ..self@ }),
    {
        let mut feed = self;
        feed.version = version;
        feed
    }

    /// Sets the Atom link.
    #[must_use]
    pub fn atom_link<T: IntoText>(self, value: T) -> (r: RssData)
        ensures
            r@ == (Feed { atom_link: escape_markup(value.text()), ..self@ }),
    {
        self.set(RssDataField::AtomLink, value)
    }

    /// Sets the author.
    #[must_use]
    pub fn author<T: IntoText>(self, value: T) -> (r: RssData)
        ensures
            r@ == (Feed { author: escape_markup(value.text()), ..self@ }),
    {
        self.set(RssDataField::Author, value)
    }

    /// Sets the category.
    #[must_use]
    pub fn category<T: IntoText>(self, value: T) -> (r: RssData)
        ensures
            r@ == (Feed { category: escape_markup(value.text()), ..self@ }),
    {
        self.set(RssDataField::Category, value)
    }

    /// Sets the copyright.
    #[must_use]
    pub fn copyright<T: IntoText>(self, value: T) -> (r: RssData)
        ensures
            r@ == (Feed { copyright: escape_markup(value.text()), ..self@ }),
    {
        self.set(RssDataField::Copyright, value)
    }

    /// Sets the description.
    #[must_use]
    pub fn description<T: IntoText>(self, value: T) -> (r: RssData)
        ensures
            r@ == (Feed { description: escape_markup(value.text()), ..self@ }),
    {
        self.set(RssDataField::Description, value)
    }

    /// Sets the docs link.
    #[must_use]
    pub fn docs<T: IntoText>(self, value: T) -> (r: RssData)
        ensures
            r@ == (Feed { docs: escape_markup(value.text()), ..self@ }),
    {
        self.set(RssDataField::Docs, value)
    }

    /// Sets the generator.
    #[must_use]
    pub fn generator<T: IntoText>(self, value: T) -> (r: RssData)
        ensures
            r@ == (Feed { generator: escape_markup(value.text()), ..self@ }),
    {
        self.set(RssDataField::Generator, value)
    }

    /// Sets the GUID.
    #[must_use]
    pub fn guid<T: IntoText>(self, value: T) -> (r: RssData)
        ensures
            r@ == (Feed { guid: escape_markup(value.text()), ..self@ }),
    {
        self.set(RssDataField::Guid, value)
    }

    /// Sets the image title.
    #[must_use]
    pub fn image_title<T: IntoText>(self, value: T) -> (r: RssData)
        ensures
            r@ == (Feed { image_title: escape_markup(value.text()), ..self@ }),
    {
        self.set(RssDataField::ImageTitle, value)
    }

    /// Sets the image URL.
    #[must_use]
    pub fn image_url<T: IntoText>(self, value: T) -> (r: RssData)
        ensures
            r@ == (Feed { image_url: escape_markup(value.text()), ..self@ }),
    {
        self.set(RssDataField::ImageUrl, value)
    }

    /// Sets the image link.
    #[must_use]
    pub fn image_link<T: IntoText>(self, value: T) -> (r: RssData)
        ensures
            r@ == (Feed { image_link: escape_markup(value.text()), ..self@ }),
    {
        self.set(RssDataField::ImageLink, value)
    }

    /// Sets the language.
    #[must_use]
    pub fn language<T: IntoText>(self, value: T) -> (r: RssData)
        ensures
            r@ == (Feed { language: escape_markup(value.text()), ..self@ }),
    {
        self.set(RssDataField::Language, value)
    }

    /// Sets the last build date.
    #[must_use]
    pub fn last_build_date<T: IntoText>(self, value: T) -> (r: RssData)
        ensures
            r@ == (Feed { last_build_date: escape_markup(value.text()), ..self@ }),
    {
        self.set(RssDataField::LastBuildDate, value)
    }

    /// Sets the main link.
    #[must_use]
    pub fn link<T: IntoText>(self, value: T) -> (r: RssData)
        ensures
            r@ == (Feed { link: escape_markup(value.text()), ..self@ }),
    {
        self.set(RssDataField::Link, value)
    }

    /// Sets the managing editor.
    #[must_use]
    pub fn managing_editor<T: IntoText>(self, value: T) -> (r: RssData)
        ensures
            r@ == (Feed { managing_editor: escape_markup(value.text()), ..self@ }),
    {
        self.set(RssDataField::ManagingEditor, value)
    }

    /// Sets the publication date.
    #[must_use]
    pub fn pub_date<T: IntoText>(self, value: T) -> (r: RssData)
        ensures
            r@ == (Feed { pub_date: escape_markup(value.text()), ..self@ }),
    {
        self.set(RssDataField::PubDate, value)
    }

    /// Sets the title.
    #[must_use]
    pub fn title<T: IntoText>(self, value: T) -> (r: RssData)
        ensures
            r@ == (Feed { title: escape_markup(value.text()), ..self@ }),
    {
        self.set(RssDataField::Title, value)
    }

    /// Sets the TTL (Time To Live).
    #[must_use]
    pub fn ttl<T: IntoText>(self, value: T) -> (r: RssData)
        ensures
            r@ == (Feed { ttl: escape_markup(value.text()), ..self@ }),
    {
        self.set(RssDataField::Ttl, value)
    }

    /// Sets the webmaster.
    #[must_use]
    pub fn webmaster<T: IntoText>(self, value: T) -> (r: RssData)
        ensures
            r@ == (Feed { webmaster: escape_markup(value.text()), ..self@ }),
    {
        self.set(RssDataField::Webmaster, value)
    }
}

/// Why an address is refused as a link, if it is, given the scheme that was
/// read from it: the payload of the invalid-URL error. A link is a URL
/// whose scheme is `http` or `https`.
pub open spec fn scheme_failure(address: Seq<char>, scheme: Option<Seq<char>>) -> Option<
    Seq<char>,
> {
    match scheme {
        None => Some(address),
        Some(scheme) => if scheme == "http"@ || scheme == "https"@ {
            None
        } else {
            Some("URL must use http or https protocol"@)
        },
    }
}

/// Why an address is refused as a link, if it is: the payload of the
/// invalid-URL error.
pub open spec fn url_failure(address: Seq<char>) -> Option<Seq<char>> {
    scheme_failure(address, scheme(address))
}

/// Decides on an address from the scheme that was read from it: the
/// address must be a URL, and its scheme must be `http` or `https`.
pub fn check_scheme(url: &str, scheme: Option<String>) -> (r: Result<(), RssError>)
    ensures
        match scheme_failure(url@, optional_text(scheme)) {
            None => r is Ok,
            Some(message) => r matches Err(e) && e@ == Failure::InvalidUrl(message),
        },
{
    match scheme {
        None => Err(RssError::InvalidUrl(url.to_owned())),
        Some(scheme) => {
            if !same_text(scheme.as_str(), "http") && !same_text(scheme.as_str(), "https") {
                Err(RssError::InvalidUrl("URL must use http or https protocol".to_owned()))
            } else {
                Ok(())
            }
        },
    }
}

/// Validates a URL string: it must be a URL, and its scheme must be `http`
/// or `https`.
pub fn validate_url(url: &str) -> (r: Result<(), RssError>)
    ensures
        match url_failure(url@) {
            None => r is Ok,
            Some(message) => r matches Err(e) && e@ == Failure::InvalidUrl(message),
        },
{
    check_scheme(url, read_scheme(url))
}

/// The number of the month with the given English three-letter name.
pub open spec fn month_number(name: Seq<char>) -> Option<u8> {
    if name == "Jan"@ {
        Some(1u8)
    } else if name == "Feb"@ {
        Some(2u8)
    } else if name == "Mar"@ {
        Some(3u8)
    } else if name == "Apr"@ {
        Some(4u8)
    } else if name == "May"@ {
        Some(5u8)
    } else if name == "Jun"@ {
        Some(6u8)
    } else if name == "Jul"@ {
        Some(7u8)
    } else if name == "Aug"@ {
        Some(8u8)
    } else if name == "Sep"@ {
        Some(9u8)
    } else if name == "Oct"@ {
        Some(10u8)
    } else if name == "Nov"@ {
        Some(11u8)
    } else if name == "Dec"@ {
        Some(12u8)
    } else {
        None
    }
}

/// Parses a month name into its number. Any other text is refused with a
/// date error that carries the text.
pub fn parse_month(month: &str) -> (r: Result<u8, RssError>)
    ensures
        match month_number(month@) {
            Some(n) => r == Ok::<u8, RssError>(n),
            None => r matches Err(e) && e@ == Failure::DateParse(month@),
        },
{
    if same_text(month, "Jan") {
        Ok(1)
    } else if same_text(month, "Feb") {
        Ok(2)
    } else if same_text(month, "Mar") {
        Ok(3)
    } else if same_text(month, "Apr") {
        Ok(4)
    } else if same_text(month, "May") {
        Ok(5)
    } else if same_text(month, "Jun") {
        Ok(6)
    } else if same_text(month, "Jul") {
        Ok(7)
    } else if same_text(month, "Aug") {
        Ok(8)
    } else if same_text(month, "Sep") {
        Ok(9)
    } else if same_text(month, "Oct") {
        Ok(10)
    } else if same_text(month, "Nov") {
        Ok(11)
    } else if same_text(month, "Dec") {
        Ok(12)
    } else {
        Err(RssError::DateParseError(month.to_owned()))
    }
}

/// Whether a text is a clock: hours, minutes and seconds between colons,
/// as in `23:59:59`. The hours are a number from 0 to 23, the minutes and
/// the seconds numbers from 0 to 59.
pub open spec fn is_clock(clock: Seq<char>) -> bool {
    let parts = pieces(clock, ':');
    &&& parts.len() == 3
    &&& number(parts[0], false, 0, 23) is Some
    &&& number(parts[1], false, 0, 59) is Some
    &&& number(parts[2], false, 0, 59) is Some
}

/// Why a text is refused as a date in the legacy notation, if it is: the
/// payload of the date error.
///
/// The notation has six words: weekday, day, month, year, clock and zone,
/// as in `Mon, 01 Jan 2024 00:00:00 GMT`. The day is a number from 1 to 31,
/// the month an English three-letter name, the year a number of 32 bits.
/// Weekday and zone are not looked at: the date is taken to be in GMT. A
/// month that is no month is carried by the error; every other failure
/// carries the whole text.
pub open spec fn legacy_date_failure(text: Seq<char>) -> Option<Seq<char>> {
    let parts = words(text);
    if parts.len() != 6 {
        Some(text)
    } else if number(parts[1], false, 1, 31) is None {
        Some(text)
    } else if month_number(parts[2]) is None {
        Some(parts[2])
    } else if number(parts[3], true, -2147483648, 2147483647) is None {
        Some(text)
    } else if !is_clock(parts[4]) {
        Some(text)
    } else {
        None
    }
}

/// Why a text is refused as a date, if it is, given whether it is a date in
/// one of the two standard notations: the payload of the date error. What
/// is no date in a standard notation has to be one in the legacy notation.
pub open spec fn date_failure_of(text: Seq<char>, standard: bool) -> Option<Seq<char>> {
    if standard {
        None
    } else {
        legacy_date_failure(text)
    }
}

/// Why a text is refused as a date, if it is: the payload of the date
/// error. A date is written in the notation of RFC 2822, in that of
/// ISO 8601 or in the legacy notation.
pub open spec fn date_failure(text: Seq<char>) -> Option<Seq<char>> {
    date_failure_of(text, is_rfc2822(text) || is_iso8601(text))
}

/// Decides whether a text is a clock.
pub fn check_clock(clock: &Vec<char>) -> (r: bool)
    ensures
        r == is_clock(clock@),
{
    let parts = split_at_char(clock, ':');
    assert(parts@.len() == pieces(clock@, ':').len());
    if parts.len() != 3 {
        return false;
    }
    assert(parts@[0]@ == pieces(clock@, ':')[0]);
    assert(parts@[1]@ == pieces(clock@, ':')[1]);
    assert(parts@[2]@ == pieces(clock@, ':')[2]);
    parse_number(&parts[0], false, 0, 23).is_some() && parse_number(&parts[1], false, 0, 59).is_some()
        && parse_number(&parts[2], false, 0, 59).is_some()
}

/// Parses a date string.
///
/// The date that comes back on success is the present moment, marked as
/// UTC.
pub fn parse_date(date_str: &str) -> (r: Result<DateTime, RssError>)
    ensures
        match date_failure(date_str@) {
            None => r matches Ok(date) && in_utc(date) == date,
            Some(message) => r matches Err(e) && e@ == Failure::DateParse(message),
        },
{
    let standard = reads_as_rfc2822(date_str) || reads_as_iso8601(date_str);
    read_date(date_str, standard)
}

/// Parses a date string of which it is known whether it is a date in one
/// of the two standard notations.
pub fn read_date(date_str: &str, standard: bool) -> (r: Result<DateTime, RssError>)
    ensures
        match date_failure_of(date_str@, standard) {
            None => r matches Ok(date) && in_utc(date) == date,
            Some(message) => r matches Err(e) && e@ == Failure::DateParse(message),
        },
{
    if standard {
        return Ok(now_in_zone("UTC").unwrap());
    }
    let chars = to_chars(date_str);
    let parts = split_words(&chars);
    assert(parts@.len() == words(date_str@).len());
    if parts.len() != 6 {
        return Err(RssError::DateParseError(date_str.to_owned()));
    }
    assert(parts@[1]@ == words(date_str@)[1]);
    assert(parts@[2]@ == words(date_str@)[2]);
    assert(parts@[3]@ == words(date_str@)[3]);
    assert(parts@[4]@ == words(date_str@)[4]);
    if parse_number(&parts[1], false, 1, 31).is_none() {
        return Err(RssError::DateParseError(date_str.to_owned()));
    }
    let month = from_chars(&parts[2], 0, parts[2].len());
    assert(month@ == parts@[2]@);
    match parse_month(month.as_str()) {
        Ok(_) => {},
        Err(e) => {
            return Err(e);
        },
    }
    if parse_number(&parts[3], true, -2147483648, 2147483647).is_none() {
        return Err(RssError::DateParseError(date_str.to_owned()));
    }
    if !check_clock(&parts[4]) {
        return Err(RssError::DateParseError(date_str.to_owned()));
    }
    Ok(now_in_zone("UTC").unwrap())
}

/// The error that a missing value is reported with, if it is missing.
pub open spec fn presence_errors(value: Seq<char>, message: Seq<char>) -> Seq<Seq<char>> {
    if value.len() == 0 {
        seq![message]
    } else {
        Seq::empty()
    }
}

/// The errors of a link: it must be there and be valid.
pub open spec fn link_errors(link: Seq<char>) -> Seq<Seq<char>> {
    if link.len() == 0 {
        seq!["Link is missing"@]
    } else {
        match url_failure(link) {
            Some(message) => seq![
                "Invalid link: "@ + failure_line(Failure::InvalidUrl(message)),
            ],
            None => Seq::empty(),
        }
    }
}

/// The errors of a publication date: if it is there, it must be a date.
pub open spec fn pub_date_errors(date: Seq<char>) -> Seq<Seq<char>> {
    if date.len() == 0 {
        Seq::empty()
    } else {
        match date_failure(date) {
            Some(message) => seq![
                "Invalid publication date: "@ + failure_line(Failure::DateParse(message)),
            ],
            None => Seq::empty(),
        }
    }
}

/// Everything the basic check finds wrong with a feed, in order: a missing
/// title, a missing or invalid link, a missing description, a publication
/// date that is no date.
pub open spec fn feed_errors(feed: Feed) -> Seq<Seq<char>> {
    presence_errors(feed.title, "Title is missing"@) + link_errors(feed.link) + presence_errors(
        feed.description,
        "Description is missing"@,
    ) + pub_date_errors(feed.pub_date)
}

/// Everything the check of an item finds wrong with it, in order: a missing
/// title, a missing or invalid link, a missing GUID, a publication date
/// that is no date.
pub open spec fn item_errors(item: Item) -> Seq<Seq<char>> {
    presence_errors(item.title, "Title is missing"@) + link_errors(item.link) + presence_errors(
        item.guid,
        "GUID is missing"@,
    ) + pub_date_errors(item.pub_date)
}

fn note(errors: &mut Vec<String>, message: String)
    ensures
        texts(final(errors)@) == texts(old(errors)@).push(message@),
{
    errors.push(message);
    assert(texts(errors@) =~= texts(old(errors)@).push(message@));
}

fn check_presence(errors: &mut Vec<String>, value: &str, message: &str)
    ensures
        texts(final(errors)@) == texts(old(errors)@) + presence_errors(value@, message@),
{
    if value.is_empty() {
        note(errors, message.to_owned());
    }
    assert(texts(errors@) =~= texts(old(errors)@) + presence_errors(value@, message@));
}

fn check_link(errors: &mut Vec<String>, link: &str)
    ensures
        texts(final(errors)@) == texts(old(errors)@) + link_errors(link@),
{
    if link.is_empty() {
        note(errors, "Link is missing".to_owned());
    } else {
        match validate_url(link) {
            Ok(()) => {},
            Err(e) => {
                let line = e.to_string();
                note(errors, join("Invalid link: ", line.as_str()));
            },
        }
    }
    assert(texts(errors@) =~= texts(old(errors)@) + link_errors(link@));
}

fn check_pub_date(errors: &mut Vec<String>, date: &str)
    ensures
        texts(final(errors)@) == texts(old(errors)@) + pub_date_errors(date@),
{
    if !date.is_empty() {
        match parse_date(date) {
            Ok(_) => {},
            Err(e) => {
                let line = e.to_string();
                note(errors, join("Invalid publication date: ", line.as_str()));
            },
        }
    }
    assert(texts(errors@) =~= texts(old(errors)@) + pub_date_errors(date@));
}

impl RssData {
    /// Validates the `RssData` to ensure that all required fields are set
    /// and valid. Every rule is checked; the error carries all that failed.
    pub fn validate(&self) -> (r: Result<(), RssError>)
        ensures
            match r {
                Ok(()) => feed_errors(self@).len() == 0,
                Err(e) => e@ == Failure::ValidationErrors(feed_errors(self@)) && feed_errors(
                    self@,
                ).len() > 0,
            },
    {
        let mut errors: Vec<String> = Vec::new();
        assert(texts(errors@) =~= Seq::<Seq<char>>::empty());
        check_presence(&mut errors, self.title.as_str(), "Title is missing");
        check_link(&mut errors, self.link.as_str());
        check_presence(&mut errors, self.description.as_str(), "Description is missing");
        check_pub_date(&mut errors, self.pub_date.as_str());
        assert(texts(errors@) =~= feed_errors(self@));
        if !errors.is_empty() {
            return Err(RssError::ValidationErrors(errors));
        }
        Ok(())
    }
}

impl RssItem {
    /// Validates the `RssItem` to ensure all required fields are set and
    /// valid. Every rule is checked; the error carries all that failed.
    pub fn validate(&self) -> (r: Result<(), RssError>)
        ensures
            match r {
                Ok(()) => item_errors(self@).len() == 0,
                Err(e) => e@ == Failure::ValidationErrors(item_errors(self@)) && item_errors(
                    self@,
                ).len() > 0,
            },
    {
        let mut errors: Vec<String> = Vec::new();
        assert(texts(errors@) =~= Seq::<Seq<char>>::empty());
        check_presence(&mut errors, self.title.as_str(), "Title is missing");
        check_link(&mut errors, self.link.as_str());
        check_presence(&mut errors, self.guid.as_str(), "GUID is missing");
        check_pub_date(&mut errors, self.pub_date.as_str());
        assert(texts(errors@) =~= item_errors(self@));
        if !errors.is_empty() {
            return Err(RssError::ValidationErrors(errors));
        }
        Ok(())
    }

    /// Parses the `pub_date` string of the item. The date that comes back
    /// on success is the present moment, marked as UTC.
    pub fn pub_date_parsed(&self) -> (r: Result<DateTime, RssError>)
        ensures
            match date_failure(self@.pub_date) {
                None => r matches Ok(date) && in_utc(date) == date,
                Some(message) => r matches Err(e) && e@ == Failure::DateParse(message),
            },
    {
        parse_date(self.pub_date.as_str())
    }
}

} // verus!
