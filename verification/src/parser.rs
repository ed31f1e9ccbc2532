//! The feed parser: a state machine over the start, end, text and CDATA
//! events of an XML document.
//!
//! The machine keeps track of the scope it is in (channel, item or image),
//! of the element that was opened last and of the item under construction.
//! Each kind of event has a function of its own, so that the machine can be
//! driven event by event.

use crate::data::{version_named, Feed, Item, RssData, RssDataField, RssItem, RssItemField,
    RssVersion};
use crate::error::{Failure, RssError};
use crate::text::{escape_markup, find_quoted_after, join, join3, quoted_after, same_text};
use crate::xml::{next_token, open_reader, pending, unescape, unescaped, xml_tokens, Token,
    XmlToken};
use std::sync::Arc;
use vstd::prelude::*;
use vstd::string::*;

verus! {

/// A custom element handler, for RSS extensions.
///
/// Every handler is shown each text and CDATA event: the name of the open
/// element, the text and the element's attributes. A handler that returns
/// an error ends the parse with that error.
pub trait ElementHandler: Send + Sync {
    /// Whether `answer` is an answer that the handler may give to an
    /// element. Unless a handler says otherwise, it may give every answer.
    open spec fn answers(
        &self,
        name: Seq<char>,
        text: Seq<char>,
        attributes: Seq<(Seq<char>, Seq<char>)>,
        answer: Result<(), RssError>,
    ) -> bool {
        true
    }

    /// Handles one element.
    fn handle_element(&self, name: &str, text: &str, attributes: &[(String, String)]) -> (r: Result<
        (),
        RssError,
    >)
        ensures
            self.answers(name@, text@, pairs_of(attributes@), r),
    ;
}

/// Configuration options for the RSS parser.
pub struct ParserConfig {
    /// The custom handlers, in the order in which they are called.
    pub custom_handlers: Vec<Arc<dyn ElementHandler>>,
}

impl Default for ParserConfig {
    fn default() -> (config: ParserConfig)
        ensures
            config.custom_handlers@.len() == 0,
    {
        ParserConfig { custom_handlers: Vec::new() }
    }
}

/// The attributes of an element, as texts.
pub open spec fn pairs_of(v: Seq<(String, String)>) -> Seq<(Seq<char>, Seq<char>)> {
    Seq::new(v.len(), |i: int| (v[i].0@, v[i].1@))
}

/// The value of the first attribute at or after `from` whose key is `key`.
pub open spec fn attribute_value(
    attributes: Seq<(Seq<char>, Seq<char>)>,
    key: Seq<char>,
    from: int,
) -> Option<Seq<char>>
    decreases attributes.len() - from,
{
    if from < 0 || from >= attributes.len() {
        None
    } else if attributes[from].0 == key {
        Some(attributes[from].1)
    } else {
        attribute_value(attributes, key, from + 1)
    }
}

/// Looks up the value of the first attribute whose key is `key`.
pub fn find_attribute(attributes: &[(String, String)], key: &str) -> (r: Option<String>)
    ensures
        match attribute_value(pairs_of(attributes@), key@, 0) {
            Some(v) => r matches Some(s) && s@ == v,
            None => r is None,
        },
{
    let mut i: usize = 0;
    while i < attributes.len()
        invariant
            i <= attributes@.len(),
            attribute_value(pairs_of(attributes@), key@, 0) == attribute_value(
                pairs_of(attributes@),
                key@,
                i as int,
            ),
        decreases attributes@.len() - i,
    {
        if same_text(attributes[i].0.as_str(), key) {
            return Some(attributes[i].1.clone());
        }
        i += 1;
    }
    None
}

/// The channel field that the element of the given name fills.
pub open spec fn channel_field(element: Seq<char>) -> Option<RssDataField> {
    if element == "title"@ {
        Some(RssDataField::Title)
    } else if element == "link"@ {
        Some(RssDataField::Link)
    } else if element == "description"@ {
        Some(RssDataField::Description)
    } else if element == "language"@ {
        Some(RssDataField::Language)
    } else if element == "copyright"@ {
        Some(RssDataField::Copyright)
    } else if element == "managingEditor"@ {
        Some(RssDataField::ManagingEditor)
    } else if element == "webMaster"@ {
        Some(RssDataField::Webmaster)
    } else if element == "pubDate"@ {
        Some(RssDataField::PubDate)
    } else if element == "lastBuildDate"@ {
        Some(RssDataField::LastBuildDate)
    } else if element == "category"@ {
        Some(RssDataField::Category)
    } else if element == "generator"@ {
        Some(RssDataField::Generator)
    } else if element == "docs"@ {
        Some(RssDataField::Docs)
    } else if element == "ttl"@ {
        Some(RssDataField::Ttl)
    } else {
        None
    }
}

/// Whether the name is that of one of the three elements that only an RDF
/// channel has: `items`, `rdf:Seq` and `rdf:li`.
pub open spec fn is_rdf_structure(element: Seq<char>) -> bool {
    element == "items"@ || element == "rdf:Seq"@ || element == "rdf:li"@
}

/// The resource that an `rdf:li` element refers to: the value of its
/// `rdf:resource` attribute or, without the attribute, what its text gives
/// between `rdf:resource="` and the next double quote.
pub open spec fn rdf_resource(text: Seq<char>, attributes: Seq<(Seq<char>, Seq<char>)>) -> Option<
    Seq<char>,
> {
    match attribute_value(attributes, "rdf:resource"@, 0) {
        Some(v) => Some(v),
        None => quoted_after(text, "rdf:resource=\""@),
    }
}

/// The feed after the text of a channel-level element has been read, or the
/// message of the unknown-element error.
///
/// The thirteen scalar elements replace their field. The three RDF
/// structure elements are accepted in an RDF document only; there an
/// `rdf:li` that names a resource adds an item whose link is that resource.
/// Every other element is an error.
pub open spec fn channel_element(
    feed: Feed,
    element: Seq<char>,
    text: Seq<char>,
    attributes: Seq<(Seq<char>, Seq<char>)>,
    is_rdf: bool,
) -> Result<Feed, Seq<char>> {
    match channel_field(element) {
        Some(field) => Ok(feed.with_field(field, text)),
        None => if is_rdf_structure(element) {
            if !is_rdf {
                Err(element)
            } else if element == "rdf:li"@ {
                match rdf_resource(text, attributes) {
                    Some(resource) => Ok(
                        Feed {
                            items: feed.items.push(Item { link: resource, ..Item::empty() }),
                            ..feed
                        },
                    ),
                    None => Ok(feed),
                }
            } else {
                Ok(feed)
            }
        } else {
            Err("Unknown channel element: "@ + element)
        },
    }
}

/// Decides which channel field an element fills.
pub fn channel_field_of(element: &str) -> (r: Option<RssDataField>)
    ensures
        r == channel_field(element@),
{
    if same_text(element, "title") {
        Some(RssDataField::Title)
    } else if same_text(element, "link") {
        Some(RssDataField::Link)
    } else if same_text(element, "description") {
        Some(RssDataField::Description)
    } else if same_text(element, "language") {
        Some(RssDataField::Language)
    } else if same_text(element, "copyright") {
        Some(RssDataField::Copyright)
    } else if same_text(element, "managingEditor") {
        Some(RssDataField::ManagingEditor)
    } else if same_text(element, "webMaster") {
        Some(RssDataField::Webmaster)
    } else if same_text(element, "pubDate") {
        Some(RssDataField::PubDate)
    } else if same_text(element, "lastBuildDate") {
        Some(RssDataField::LastBuildDate)
    } else if same_text(element, "category") {
        Some(RssDataField::Category)
    } else if same_text(element, "generator") {
        Some(RssDataField::Generator)
    } else if same_text(element, "docs") {
        Some(RssDataField::Docs)
    } else if same_text(element, "ttl") {
        Some(RssDataField::Ttl)
    } else {
        None
    }
}

/// Reads the text of a channel-level element that has the given attributes
/// into the feed.
pub fn read_channel_element(
    rss_data: &mut RssData,
    element: &str,
    text: &str,
    attributes: &[(String, String)],
    is_rss_1_0: bool,
) -> (r: Result<(), RssError>)
    ensures
        match channel_element(old(rss_data)@, element@, text@, pairs_of(attributes@), is_rss_1_0) {
            Ok(feed) => r is Ok && final(rss_data)@ == feed,
            Err(message) => r matches Err(e) && e@ == Failure::UnknownElement(message)
                && final(rss_data)@ == old(rss_data)@,
        },
{
    match channel_field_of(element) {
        Some(field) => {
            rss_data.store(field, text.to_owned());
            Ok(())
        },
        None => {
            let is_li = same_text(element, "rdf:li");
            if same_text(element, "items") || same_text(element, "rdf:Seq") || is_li {
                if !is_rss_1_0 {
                    Err(RssError::UnknownElement(element.to_owned()))
                } else if is_li {
                    let resource = match find_attribute(attributes, "rdf:resource") {
                        Some(v) => Some(v),
                        None => find_quoted_after(text, "rdf:resource=\""),
                    };
                    match resource {
                        Some(link) => {
                            let mut item = RssItem::new();
                            item.store(RssItemField::Link, link);
                            rss_data.add_item(item);
                            Ok(())
                        },
                        None => Ok(()),
                    }
                } else {
                    Ok(())
                }
            } else {
                Err(RssError::UnknownElement(join("Unknown channel element: ", element)))
            }
        },
    }
}

/// Parses a channel element and sets the corresponding field in `RssData`.
///
/// The element is taken to have no attributes.
pub fn parse_channel_element(
    rss_data: &mut RssData,
    element: &str,
    text: &str,
    is_rss_1_0: bool,
) -> (r: Result<(), RssError>)
    ensures
        match channel_element(old(rss_data)@, element@, text@, Seq::empty(), is_rss_1_0) {
            Ok(feed) => r is Ok && final(rss_data)@ == feed,
            Err(message) => r matches Err(e) && e@ == Failure::UnknownElement(message)
                && final(rss_data)@ == old(rss_data)@,
        },
{
    let none: Vec<(String, String)> = Vec::new();
    proof {
        assert(pairs_of(none@) =~= Seq::empty());
    }
    read_channel_element(rss_data, element, text, none.as_slice(), is_rss_1_0)
}

/// The item field that the element of the given name fills with its text.
pub open spec fn item_field(element: Seq<char>) -> Option<RssItemField> {
    if element == "title"@ {
        Some(RssItemField::Title)
    } else if element == "link"@ {
        Some(RssItemField::Link)
    } else if element == "description"@ {
        Some(RssItemField::Description)
    } else if element == "author"@ {
        Some(RssItemField::Author)
    } else if element == "guid"@ {
        Some(RssItemField::Guid)
    } else if element == "pubDate"@ {
        Some(RssItemField::PubDate)
    } else if element == "category"@ {
        Some(RssItemField::Category)
    } else if element == "comments"@ {
        Some(RssItemField::Comments)
    } else if element == "source"@ {
        Some(RssItemField::Source)
    } else {
        None
    }
}

/// One attribute written as `key="value"`.
pub open spec fn attribute_text(attribute: (Seq<char>, Seq<char>)) -> Seq<char> {
    attribute.0 + seq!['=', '"'] + attribute.1 + seq!['"']
}

/// The attributes written as `key="value"` and joined by single spaces.
pub open spec fn enclosure_text(attributes: Seq<(Seq<char>, Seq<char>)>) -> Seq<char>
    decreases attributes.len(),
{
    if attributes.len() == 0 {
        Seq::empty()
    } else if attributes.len() == 1 {
        attribute_text(attributes[0])
    } else {
        enclosure_text(attributes.drop_last()) + seq![' '] + attribute_text(attributes.last())
    }
}

/// The item after the text of one of its elements has been read.
///
/// Nine elements replace their field by the text. An `enclosure` is read
/// from the attributes instead, and is absent where there are none. Every
/// other element leaves the item as it is.
pub open spec fn item_element(
    item: Item,
    element: Seq<char>,
    text: Seq<char>,
    attributes: Seq<(Seq<char>, Seq<char>)>,
) -> Item {
    match item_field(element) {
        Some(field) => item.with_field(field, text),
        None => if element == "enclosure"@ {
            if attributes.len() == 0 {
                Item { enclosure: None, ..item }
            } else {
                Item { enclosure: Some(enclosure_text(attributes)), ..item }
            }
        } else {
            item
        },
    }
}

/// Decides which item field an element fills with its text.
pub fn item_field_of(element: &str) -> (r: Option<RssItemField>)
    ensures
        r == item_field(element@),
{
    if same_text(element, "title") {
        Some(RssItemField::Title)
    } else if same_text(element, "link") {
        Some(RssItemField::Link)
    } else if same_text(element, "description") {
        Some(RssItemField::Description)
    } else if same_text(element, "author") {
        Some(RssItemField::Author)
    } else if same_text(element, "guid") {
        Some(RssItemField::Guid)
    } else if same_text(element, "pubDate") {
        Some(RssItemField::PubDate)
    } else if same_text(element, "category") {
        Some(RssItemField::Category)
    } else if same_text(element, "comments") {
        Some(RssItemField::Comments)
    } else if same_text(element, "source") {
        Some(RssItemField::Source)
    } else {
        None
    }
}

/// Writes the attributes as `key="value"`, joined by single spaces.
pub fn join_attributes(attributes: &[(String, String)]) -> (r: String)
    ensures
        r@ == enclosure_text(pairs_of(attributes@)),
{
    let ghost pairs = pairs_of(attributes@);
    let mut r = String::new();
    let mut i: usize = 0;
    while i < attributes.len()
        invariant
            i <= attributes@.len(),
            pairs == pairs_of(attributes@),
            r@ == enclosure_text(pairs.take(i as int)),
        decreases attributes@.len() - i,
    {
        let shown = join3(attributes[i].0.as_str(), "=\"", attributes[i].1.as_str());
        proof {
            reveal_strlit("=\"");
            assert("=\""@ == seq!['=', '"']);
            let next = pairs.take(i + 1);
            assert(next.drop_last() == pairs.take(i as int));
            assert(next.last() == pairs[i as int]);
            if i == 0 {
                assert(next[0] == pairs[0]);
            }
        }
        if i > 0 {
            crate::text::push_char(&mut r, ' ');
        }
        r.append(shown.as_str());
        crate::text::push_char(&mut r, '"');
        proof {
            let next = pairs.take(i + 1);
            assert(r@ =~= enclosure_text(next));
        }
        i += 1;
    }
    proof {
        assert(pairs.take(attributes@.len() as int) == pairs);
    }
    r
}

/// Parses an item element and sets the corresponding field in `RssItem`.
pub fn parse_item_element(
    item: &mut RssItem,
    element: &str,
    text: &str,
    attributes: &[(String, String)],
)
    ensures
        final(item)@ == item_element(old(item)@, element@, text@, pairs_of(attributes@)),
{
    match item_field_of(element) {
        Some(field) => {
            item.store(field, text.to_owned());
        },
        None => {
            if same_text(element, "enclosure") {
                if attributes.len() == 0 {
                    item.enclosure = None;
                } else {
                    item.enclosure = Some(join_attributes(attributes));
                }
            }
        },
    }
}

/// The scope that text is attributed to.
#[derive(Clone, Copy, Debug, PartialEq, Eq)]
pub enum ParsingState {
    /// Inside the channel, outside any item or image.
    Channel,
    /// Inside an item.
    Item,
    /// Inside the channel's image.
    Image,
    /// In none of these.
    Outside,
}

/// What a text event is handled with: the scope, the open element and the
/// text itself.
pub struct ParsingContext<'a> {
    /// Whether the document is an RDF document.
    pub is_rss_1_0: bool,
    /// The scope.
    pub state: ParsingState,
    /// The name of the element that was opened last, empty after an end tag.
    pub current_element: &'a str,
    /// The text of the event.
    pub text: &'a str,
    /// The attributes of the element that was opened last.
    pub current_attributes: &'a [(String, String)],
}

impl<'a> ParsingContext<'a> {
    /// Whether the current state is in a channel.
    pub fn in_channel(&self) -> (r: bool)
        ensures
            r == (self.state is Channel),
    {
        matches!(self.state, ParsingState::Channel)
    }

    /// Whether the current state is in an item.
    pub fn in_item(&self) -> (r: bool)
        ensures
            r == (self.state is Item),
    {
        matches!(self.state, ParsingState::Item)
    }

    /// Whether the current state is in an image.
    pub fn in_image(&self) -> (r: bool)
        ensures
            r == (self.state is Image),
    {
        matches!(self.state, ParsingState::Image)
    }
}

/// The image of a feed while it is being read.
pub struct ImageData {
    /// The title of the image.
    pub title: String,
    /// The address of the image.
    pub url: String,
    /// The page the image links to.
    pub link: String,
}

/// The image after the text of one of its elements has been read: `title`,
/// `url` and `link` replace their part, other elements leave it as it is.
pub open spec fn image_element(picture: Picture, element: Seq<char>, text: Seq<char>) -> Picture {
    if element == "title"@ {
        Picture { title: text, ..picture }
    } else if element == "url"@ {
        Picture { url: text, ..picture }
    } else if element == "link"@ {
        Picture { link: text, ..picture }
    } else {
        picture
    }
}

/// What a text event leaves behind: the feed, the item under construction
/// and the image.
pub struct Reading {
    pub feed: Feed,
    pub item: Item,
    pub picture: Picture,
}

/// The outcome of a text event, or the message of the unknown-element
/// error.
///
/// The text goes to the scope the machine is in: to the channel, to the
/// item under construction or to the image. Outside these scopes, and where
/// no element is open, the text is dropped.
pub open spec fn text_outcome(
    before: Reading,
    state: ParsingState,
    element: Seq<char>,
    text: Seq<char>,
    attributes: Seq<(Seq<char>, Seq<char>)>,
    is_rdf: bool,
) -> Result<Reading, Seq<char>> {
    if element.len() == 0 {
        Ok(before)
    } else {
        match state {
            ParsingState::Channel => match channel_element(
                before.feed,
                element,
                text,
                attributes,
                is_rdf,
            ) {
                Ok(feed) => Ok(Reading { feed, ..before }),
                Err(message) => Err(message),
            },
            ParsingState::Item => Ok(
                Reading { item: item_element(before.item, element, text, attributes), ..before },
            ),
            ParsingState::Image => Ok(
                Reading { picture: image_element(before.picture, element, text), ..before },
            ),
            ParsingState::Outside => Ok(before),
        }
    }
}

/// Handles text events for both regular text and CDATA in RSS feeds.
pub fn handle_text_event(
    rss_data: &mut RssData,
    context: &ParsingContext,
    current_item: &mut RssItem,
    image_data: &mut ImageData,
) -> (r: Result<(), RssError>)
    ensures
        match text_outcome(
            Reading { feed: old(rss_data)@, item: old(current_item)@, picture: old(image_data)@ },
            context.state,
            context.current_element@,
            context.text@,
            pairs_of(context.current_attributes@),
            context.is_rss_1_0,
        ) {
            Ok(after) => r is Ok && final(rss_data)@ == after.feed && final(current_item)@
                == after.item && final(image_data)@ == after.picture,
            Err(message) => r matches Err(e) && e@ == Failure::UnknownElement(message)
                && final(rss_data)@ == old(rss_data)@
                && final(current_item)@ == old(current_item)@
                && final(image_data)@ == old(image_data)@,
        },
{
    if context.in_channel() && !context.in_item() && !context.in_image() {
        if !context.current_element.is_empty() {
            read_channel_element(
                rss_data,
                context.current_element,
                context.text,
                context.current_attributes,
                context.is_rss_1_0,
            )?;
        }
    } else if context.in_item() && !context.current_element.is_empty() {
        parse_item_element(
            current_item,
            context.current_element,
            context.text,
            context.current_attributes,
        );
    } else if context.in_image() && !context.current_element.is_empty() {
        if same_text(context.current_element, "title") {
            image_data.title = context.text.to_owned();
        } else if same_text(context.current_element, "url") {
            image_data.url = context.text.to_owned();
        } else if same_text(context.current_element, "link") {
            image_data.link = context.text.to_owned();
        }
    }
    Ok(())
}

/// Shows one element to every custom handler, in order, and stops at the
/// first handler that fails.
pub fn apply_custom_handlers(
    element: &str,
    text: &str,
    attributes: &[(String, String)],
    config: Option<&ParserConfig>,
) -> (r: Result<(), RssError>)
    ensures
        no_handlers(config) ==> r is Ok,
        heard(handlers_of(config), element@, text@, pairs_of(attributes@), r),
{
    if let Some(cfg) = config {
        let mut i: usize = 0;
        while i < cfg.custom_handlers.len()
            invariant
                i <= cfg.custom_handlers@.len(),
                config == Some(cfg),
                forall|j: int|
                    0 <= j < i ==> (#[trigger] cfg.custom_handlers@[j]).answers(
                        element@,
                        text@,
                        pairs_of(attributes@),
                        Ok(()),
                    ),
            decreases cfg.custom_handlers@.len() - i,
        {
            let handler = &cfg.custom_handlers[i];
            let answer = handler.handle_element(element, text, attributes);
            proof {
                assert(cfg.custom_handlers@[i as int].answers(
                    element@,
                    text@,
                    pairs_of(attributes@),
                    answer,
                ));
            }
            if answer.is_err() {
                return answer;
            }
            proof {
                assert(answer->Ok_0 == ());
                assert(answer == Ok::<(), RssError>(answer->Ok_0));
            }
            i += 1;
        }
    }
    Ok(())
}

/// Whether the configuration, if there is one, names no custom handler.
pub open spec fn no_handlers(config: Option<&ParserConfig>) -> bool {
    match config {
        Some(c) => c.custom_handlers@.len() == 0,
        None => true,
    }
}

/// What an image holds.
pub struct Picture {
    pub title: Seq<char>,
    pub url: Seq<char>,
    pub link: Seq<char>,
}

impl View for ImageData {
    type V = Picture;

    open spec fn view(&self) -> Picture {
        Picture { title: self.title@, url: self.url@, link: self.link@ }
    }
}

/// The custom handlers of a configuration, in the order in which they are
/// called. Without a configuration there is none.
pub open spec fn handlers_of(config: Option<&ParserConfig>) -> Seq<Arc<dyn ElementHandler>> {
    match config {
        Some(c) => c.custom_handlers@,
        None => Seq::empty(),
    }
}

/// Whether `r` is what a list of handlers makes of an element that each is
/// shown in turn: the error of the first handler that answers with an
/// error, after which no handler is asked, or success where every handler
/// has answered with success.
pub open spec fn heard(
    handlers: Seq<Arc<dyn ElementHandler>>,
    name: Seq<char>,
    text: Seq<char>,
    attributes: Seq<(Seq<char>, Seq<char>)>,
    r: Result<(), RssError>,
) -> bool {
    match r {
        Ok(()) => forall|j: int|
            0 <= j < handlers.len() ==> (#[trigger] handlers[j]).answers(
                name,
                text,
                attributes,
                Ok(()),
            ),
        Err(e) => exists|k: int|
            0 <= k < handlers.len() && (#[trigger] handlers[k]).answers(
                name,
                text,
                attributes,
                Err(e),
            ) && forall|j: int|
                0 <= j < k ==> (#[trigger] handlers[j]).answers(name, text, attributes, Ok(())),
    }
}

/// The state that the parser carries from event to event.
pub struct ParserContext {
    /// Whether the root element was `rdf:RDF`.
    pub is_rdf: bool,
    /// The scope that text is attributed to.
    pub parsing_state: ParsingState,
    /// The name of the element that was opened last, empty after an end tag.
    pub current_element: String,
    /// The attributes of the element that was opened last.
    pub current_attributes: Vec<(String, String)>,
    /// The item under construction.
    pub current_item: RssItem,
    /// The title of the image, as far as it has been read.
    pub image_title: String,
    /// The address of the image, as far as it has been read.
    pub image_url: String,
    /// The link of the image, as far as it has been read.
    pub image_link: String,
}

/// What the parser carries from event to event.
pub struct Scope {
    pub is_rdf: bool,
    pub state: ParsingState,
    pub element: Seq<char>,
    pub attributes: Seq<(Seq<char>, Seq<char>)>,
    pub item: Item,
    pub picture: Picture,
}

impl Scope {
    /// The state before the first event: outside every scope, with no
    /// element open and nothing collected.
    pub open spec fn initial() -> Scope {
        Scope {
            is_rdf: false,
            state: ParsingState::Outside,
            element: Seq::empty(),
            attributes: Seq::empty(),
            item: Item::empty(),
            picture: Picture { title: Seq::empty(), url: Seq::empty(), link: Seq::empty() },
        }
    }
}

impl View for ParserContext {
    type V = Scope;

    open spec fn view(&self) -> Scope {
        Scope {
            is_rdf: self.is_rdf,
            state: self.parsing_state,
            element: self.current_element@,
            attributes: pairs_of(self.current_attributes@),
            item: self.current_item@,
            picture: Picture {
                title: self.image_title@,
                url: self.image_url@,
                link: self.image_link@,
            },
        }
    }
}

impl ParserContext {
    /// Initialize a new `ParserContext`: the state before the first event.
    pub fn new() -> (context: ParserContext)
        ensures
            context@ == Scope::initial(),
    {
        let context = ParserContext {
            is_rdf: false,
            parsing_state: ParsingState::Outside,
            current_element: String::new(),
            current_attributes: Vec::new(),
            current_item: RssItem::new(),
            image_title: String::new(),
            image_url: String::new(),
            image_link: String::new(),
        };
        proof {
            assert(pairs_of(context.current_attributes@) =~= Seq::empty());
        }
        context
    }
}

/// The feed read so far and the state of the parser.
pub struct Machine {
    pub feed: Feed,
    pub scope: Scope,
}

impl Machine {
    /// The machine before the first event: an empty RSS 2.0 feed and the
    /// initial state.
    pub open spec fn initial() -> Machine {
        Machine { feed: Feed::empty(RssVersion::RSS2_0), scope: Scope::initial() }
    }
}

/// The attributes of a start tag that could be read, in order.
pub open spec fn readable(attributes: Seq<Option<(Seq<char>, Seq<char>)>>) -> Seq<
    (Seq<char>, Seq<char>),
>
    decreases attributes.len(),
{
    if attributes.len() == 0 {
        Seq::empty()
    } else {
        match attributes.last() {
            Some(a) => readable(attributes.drop_last()).push(a),
            None => readable(attributes.drop_last()),
        }
    }
}

/// The machine after a start tag, or the failure that ends the parse.
///
/// The root element `rss` names the dialect in its `version` attribute,
/// which must be one of the five version strings if it is there. The root
/// element `rdf:RDF` makes the document an RDF document and the feed an RSS
/// 1.0 feed. `channel`, `item` and `image` enter their scope, and `item`
/// starts a fresh item. Every other element is an error outside the three
/// scopes. But for the root elements and `channel`, the element and its
/// attributes are kept for the text that follows.
pub open spec fn start_step(
    m: Machine,
    name: Seq<char>,
    attributes: Seq<Option<(Seq<char>, Seq<char>)>>,
) -> Result<Machine, Failure> {
    let opened = Scope { element: name, attributes: readable(attributes), ..m.scope };
    if name.len() == 0 {
        Ok(m)
    } else if name == "rss"@ {
        match attribute_value(readable(attributes), "version"@, 0) {
            Some(label) => match version_named(label) {
                Some(version) => Ok(Machine { feed: Feed { version, ..m.feed }, ..m }),
                None => Err(Failure::InvalidRssVersion(label)),
            },
            None => Ok(m),
        }
    } else if name == "rdf:RDF"@ {
        Ok(
            Machine {
                feed: Feed { version: RssVersion::RSS1_0, ..m.feed },
                scope: Scope { is_rdf: true, ..m.scope },
            },
        )
    } else if name == "channel"@ {
        Ok(Machine { scope: Scope { state: ParsingState::Channel, ..m.scope }, ..m })
    } else if name == "item"@ {
        Ok(
            Machine {
                scope: Scope { state: ParsingState::Item, item: Item::empty(), ..opened },
                ..m
            },
        )
    } else if name == "image"@ {
        Ok(Machine { scope: Scope { state: ParsingState::Image, ..opened }, ..m })
    } else if m.scope.state is Outside {
        Err(Failure::UnknownElement("Unknown element: "@ + name))
    } else {
        Ok(Machine { scope: opened, ..m })
    }
}

/// The machine after an end tag.
///
/// The end of the scope the machine is in leaves the scope: the end of an
/// item adds the item to the feed, the end of the image stores the image in
/// the feed, escaped. After every end tag no element is open.
pub open spec fn end_step(m: Machine, name: Seq<char>) -> Machine {
    let closed = Scope { element: Seq::empty(), attributes: Seq::empty(), ..m.scope };
    let left = Scope { state: ParsingState::Outside, ..closed };
    if name == "channel"@ && m.scope.state is Channel {
        Machine { scope: left, ..m }
    } else if name == "item"@ && m.scope.state is Item {
        Machine { feed: Feed { items: m.feed.items.push(m.scope.item), ..m.feed }, scope: left }
    } else if name == "image"@ && m.scope.state is Image {
        Machine {
            feed: Feed {
                image_title: escape_markup(m.scope.picture.title),
                image_url: escape_markup(m.scope.picture.url),
                image_link: escape_markup(m.scope.picture.link),
                ..m.feed
            },
            scope: left,
        }
    } else {
        Machine { scope: closed, ..m }
    }
}

/// The machine after text, or the failure that ends the parse.
pub open spec fn text_step(m: Machine, text: Seq<char>) -> Result<Machine, Failure> {
    match text_outcome(
        Reading { feed: m.feed, item: m.scope.item, picture: m.scope.picture },
        m.scope.state,
        m.scope.element,
        text,
        m.scope.attributes,
        m.scope.is_rdf,
    ) {
        Ok(after) => Ok(
            Machine {
                feed: after.feed,
                scope: Scope { item: after.item, picture: after.picture, ..m.scope },
            },
        ),
        Err(message) => Err(Failure::UnknownElement(message)),
    }
}

/// The machine after text whose entities are yet to be resolved, or the
/// failure that ends the parse. Text with an entity that cannot be resolved
/// is a failure.
pub open spec fn raw_text_step(m: Machine, raw: Seq<char>) -> Result<Machine, Failure> {
    match unescaped(raw) {
        Some(text) => text_step(m, text),
        None => Err(Failure::XmlWrite),
    }
}

/// The machine after one token, or the failure that ends the parse.
pub open spec fn token_step(m: Machine, token: Token) -> Result<Machine, Failure> {
    match token {
        Token::Start { name, attributes } => start_step(m, name, attributes),
        Token::End { name } => Ok(end_step(m, name)),
        Token::Text { raw } => raw_text_step(m, raw),
        Token::CData { text } => text_step(m, text),
        Token::Other => Ok(m),
        Token::Malformed => Err(Failure::XmlParse),
    }
}

/// The machine after a sequence of tokens, or the first failure.
pub open spec fn run(m: Machine, tokens: Seq<Token>) -> Result<Machine, Failure>
    decreases tokens.len(),
{
    if tokens.len() == 0 {
        Ok(m)
    } else {
        match token_step(m, tokens[0]) {
            Ok(next) => run(next, tokens.drop_first()),
            Err(failure) => Err(failure),
        }
    }
}

/// The feed that a sequence of tokens is read as, or the failure that ends
/// the parse.
pub open spec fn feed_of(tokens: Seq<Token>) -> Result<Feed, Failure> {
    match run(Machine::initial(), tokens) {
        Ok(m) => Ok(m.feed),
        Err(failure) => Err(failure),
    }
}

/// How an event leaves the parser.
///
/// Where the machine goes on, the parser is in the machine's new state, and
/// the event comes to what the custom handlers make of the element that
/// was open before the event, with the text of the event. Where the
/// machine fails, the event fails with that failure, and the parser is in
/// the state it was in.
pub open spec fn stepped(
    before: Machine,
    outcome: Result<Machine, Failure>,
    feed: Feed,
    scope: Scope,
    r: Result<(), RssError>,
    handlers: Seq<Arc<dyn ElementHandler>>,
    text: Seq<char>,
) -> bool {
    match outcome {
        Ok(m) => feed == m.feed && scope == m.scope && heard(
            handlers,
            before.scope.element,
            text,
            before.scope.attributes,
            r,
        ),
        Err(failure) => r matches Err(e) && e@ == failure && feed == before.feed && scope
            == before.scope,
    }
}

/// Whether an error is an answer that one of a list of handlers may give
/// to some element.
pub open spec fn refused(handlers: Seq<Arc<dyn ElementHandler>>, e: RssError) -> bool {
    exists|k: int, name: Seq<char>, text: Seq<char>, attributes: Seq<(Seq<char>, Seq<char>)>|
        0 <= k < handlers.len() && #[trigger] handlers[k].answers(name, text, attributes, Err(e))
}

/// A failure that the handlers make of an element is an answer of one of
/// them.
pub proof fn lemma_heard_failure(
    handlers: Seq<Arc<dyn ElementHandler>>,
    name: Seq<char>,
    text: Seq<char>,
    attributes: Seq<(Seq<char>, Seq<char>)>,
    e: RssError,
)
    requires
        heard(handlers, name, text, attributes, Err(e)),
    ensures
        refused(handlers, e),
{
    let k = choose|k: int|
        0 <= k < handlers.len() && (#[trigger] handlers[k]).answers(name, text, attributes, Err(e));
    assert(handlers[k].answers(name, text, attributes, Err(e)));
}

/// The attributes that could be read, in order.
pub fn readable_attributes(attributes: &[Option<(String, String)>]) -> (kept: Vec<
    (String, String),
>)
    ensures
        pairs_of(kept@) == readable(crate::xml::read_attributes(attributes@)),
{
    let ghost all = crate::xml::read_attributes(attributes@);
    let mut kept: Vec<(String, String)> = Vec::new();
    let mut i: usize = 0;
    proof {
        assert(pairs_of(kept@) =~= readable(all.take(0)));
    }
    while i < attributes.len()
        invariant
            i <= attributes@.len(),
            all == crate::xml::read_attributes(attributes@),
            pairs_of(kept@) == readable(all.take(i as int)),
        decreases attributes@.len() - i,
    {
        let ghost before = pairs_of(kept@);
        proof {
            let next = all.take(i + 1);
            assert(next.drop_last() == all.take(i as int));
            assert(next.last() == all[i as int]);
        }
        match &attributes[i] {
            Some(a) => {
                kept.push((a.0.clone(), a.1.clone()));
                proof {
                    assert(pairs_of(kept@) =~= before.push((a.0@, a.1@)));
                }
            },
            None => {},
        }
        i += 1;
    }
    proof {
        assert(all.take(attributes@.len() as int) == all);
    }
    kept
}

/// Processes the start of an XML element.
pub fn process_start_event(
    name: &str,
    attributes: &[Option<(String, String)>],
    context: &mut ParserContext,
    rss_data: &mut RssData,
) -> (r: Result<(), RssError>)
    ensures
        stepped(
            Machine { feed: old(rss_data)@, scope: old(context)@ },
            start_step(
                Machine { feed: old(rss_data)@, scope: old(context)@ },
                name@,
                crate::xml::read_attributes(attributes@),
            ),
            final(rss_data)@,
            final(context)@,
            r,
            Seq::empty(),
            Seq::empty(),
        ),
{
    if name.is_empty() {
        return Ok(());
    }
    let kept = readable_attributes(attributes);
    if same_text(name, "rss") {
        match find_attribute(kept.as_slice(), "version") {
            Some(label) => {
                let version = RssVersion::parse(label.as_str())?;
                rss_data.version = version;
            },
            None => {},
        }
        return Ok(());
    }
    if same_text(name, "rdf:RDF") {
        context.is_rdf = true;
        rss_data.version = RssVersion::RSS1_0;
        return Ok(());
    }
    if same_text(name, "channel") {
        context.parsing_state = ParsingState::Channel;
        return Ok(());
    }
    if same_text(name, "item") {
        context.parsing_state = ParsingState::Item;
        context.current_item = RssItem::new();
    } else if same_text(name, "image") {
        context.parsing_state = ParsingState::Image;
    } else if matches!(context.parsing_state, ParsingState::Outside) {
        return Err(RssError::UnknownElement(join("Unknown element: ", name)));
    }
    context.current_element = name.to_owned();
    context.current_attributes = kept;
    Ok(())
}

/// Processes the end of an XML element.
pub fn process_end_event(name: &str, context: &mut ParserContext, rss_data: &mut RssData)
    ensures
        end_step(Machine { feed: old(rss_data)@, scope: old(context)@ }, name@) == (Machine {
            feed: final(rss_data)@,
            scope: final(context)@,
        }),
{
    proof {
        reveal_strlit("channel");
        reveal_strlit("item");
        reveal_strlit("image");
        assert("channel"@.len() == 7 && "item"@.len() == 4 && "image"@.len() == 5);
    }
    let ghost before = Machine { feed: rss_data@, scope: context@ };
    if same_text(name, "channel") {
        if matches!(context.parsing_state, ParsingState::Channel) {
            context.parsing_state = ParsingState::Outside;
        }
    } else if same_text(name, "item") {
        if matches!(context.parsing_state, ParsingState::Item) {
            context.parsing_state = ParsingState::Outside;
            rss_data.add_item(context.current_item.clone());
        }
    } else if same_text(name, "image") && matches!(context.parsing_state, ParsingState::Image) {
        context.parsing_state = ParsingState::Outside;
        rss_data.set_image(
            context.image_title.clone(),
            context.image_url.clone(),
            context.image_link.clone(),
        );
    }
    context.current_element = String::new();
    context.current_attributes = Vec::new();
    proof {
        assert(pairs_of(context.current_attributes@) =~= Seq::empty());
    }
}

/// Attributes a text to the scope the parser is in, then shows it to the
/// custom handlers.
fn process_text(
    text: &str,
    context: &mut ParserContext,
    rss_data: &mut RssData,
    config: Option<&ParserConfig>,
) -> (r: Result<(), RssError>)
    ensures
        stepped(
            Machine { feed: old(rss_data)@, scope: old(context)@ },
            text_step(Machine { feed: old(rss_data)@, scope: old(context)@ }, text@),
            final(rss_data)@,
            final(context)@,
            r,
            handlers_of(config),
            text@,
        ),
{
    let mut image_data = ImageData {
        title: context.image_title.clone(),
        url: context.image_url.clone(),
        link: context.image_link.clone(),
    };
    let mut item = context.current_item.clone();
    let parse_context = ParsingContext {
        is_rss_1_0: context.is_rdf,
        state: context.parsing_state,
        current_element: context.current_element.as_str(),
        text,
        current_attributes: context.current_attributes.as_slice(),
    };
    handle_text_event(rss_data, &parse_context, &mut item, &mut image_data)?;
    let handled = apply_custom_handlers(
        context.current_element.as_str(),
        text,
        context.current_attributes.as_slice(),
        config,
    );
    finish_text_event(context, item, image_data, handled)
}

/// Ends a text event that the machine has attributed to its scope: the
/// item and the image go back to the state of the parser, and the event
/// comes to what the custom handlers have said of it.
pub fn finish_text_event(
    context: &mut ParserContext,
    item: RssItem,
    image_data: ImageData,
    handled: Result<(), RssError>,
) -> (r: Result<(), RssError>)
    ensures
        r == handled,
        final(context)@ == (Scope { item: item@, picture: image_data@, ..old(context)@ }),
{
    context.current_item = item;
    context.image_title = image_data.title;
    context.image_url = image_data.url;
    context.image_link = image_data.link;
    handled
}

/// Processes a text event: resolves the entities of the text, attributes
/// it to the scope the parser is in, then shows it to the custom handlers.
pub fn process_text_event(
    raw: &str,
    context: &mut ParserContext,
    rss_data: &mut RssData,
    config: Option<&ParserConfig>,
) -> (r: Result<(), RssError>)
    ensures
        stepped(
            Machine { feed: old(rss_data)@, scope: old(context)@ },
            raw_text_step(Machine { feed: old(rss_data)@, scope: old(context)@ }, raw@),
            final(rss_data)@,
            final(context)@,
            r,
            handlers_of(config),
            match unescaped(raw@) {
                Some(text) => text,
                None => Seq::empty(),
            },
        ),
{
    let text = match unescape(raw) {
        Ok(text) => text,
        Err(e) => {
            return Err(RssError::XmlWriteError(e));
        },
    };
    process_text(text.as_str(), context, rss_data, config)
}

/// Processes a CDATA event: attributes the text as it is to the scope the
/// parser is in, then shows it to the custom handlers.
pub fn process_cdata_event(
    text: &str,
    context: &mut ParserContext,
    rss_data: &mut RssData,
    config: Option<&ParserConfig>,
) -> (r: Result<(), RssError>)
    ensures
        stepped(
            Machine { feed: old(rss_data)@, scope: old(context)@ },
            text_step(Machine { feed: old(rss_data)@, scope: old(context)@ }, text@),
            final(rss_data)@,
            final(context)@,
            r,
            handlers_of(config),
            text@,
        ),
{
    process_text(text, context, rss_data, config)
}

/// The text that a token shows to the custom handlers, if it shows one:
/// the text of a text token with its entities resolved, and the text of a
/// CDATA token as it is.
pub open spec fn shown(token: Token) -> Option<Seq<char>> {
    match token {
        Token::Text { raw } => unescaped(raw),
        Token::CData { text } => Some(text),
        _ => None,
    }
}

/// Whether `r` is what comes of reading a sequence of tokens from the
/// state `m` with a list of custom handlers.
///
/// The tokens are read in order. A token at which the machine fails ends
/// the parse with that failure. The text of every other text or CDATA
/// token is shown to the handlers, with the element that was open before
/// the token: where a handler answers with an error, after those before it
/// have answered with success, that error ends the parse; else every
/// handler has answered with success, and the parse goes on from the
/// machine's new state. At the end of the tokens the parse succeeds with
/// the feed of the machine.
pub open spec fn listened(
    m: Machine,
    tokens: Seq<Token>,
    handlers: Seq<Arc<dyn ElementHandler>>,
    r: Result<RssData, RssError>,
) -> bool
    decreases tokens.len(),
{
    if tokens.len() == 0 {
        r matches Ok(data) && data@ == m.feed
    } else {
        match token_step(m, tokens[0]) {
            Err(failure) => r matches Err(e) && e@ == failure,
            Ok(next) => match shown(tokens[0]) {
                Some(text) => (r matches Err(e) && heard(
                    handlers,
                    m.scope.element,
                    text,
                    m.scope.attributes,
                    Err(e),
                )) || (heard(handlers, m.scope.element, text, m.scope.attributes, Ok(()))
                    && listened(next, tokens.drop_first(), handlers, r)),
                None => listened(next, tokens.drop_first(), handlers, r),
            },
        }
    }
}

/// What parsing a document comes to: what comes of reading the tokens of
/// the document from the initial state with the custom handlers.
pub open spec fn parsed(
    document: Seq<char>,
    r: Result<RssData, RssError>,
    handlers: Seq<Arc<dyn ElementHandler>>,
) -> bool {
    listened(Machine::initial(), xml_tokens(document), handlers, r)
}

/// A parse that succeeds returns the feed that the machine makes of the
/// tokens, whatever handlers there are. A parse fails with the failure of
/// the machine or with an error that a custom handler may answer with.
pub proof fn lemma_listened_run(
    m: Machine,
    tokens: Seq<Token>,
    handlers: Seq<Arc<dyn ElementHandler>>,
    r: Result<RssData, RssError>,
)
    requires
        listened(m, tokens, handlers, r),
    ensures
        match r {
            Ok(data) => run(m, tokens) matches Ok(end) && end.feed == data@,
            Err(e) => run(m, tokens) == Err::<Machine, Failure>(e@) || refused(handlers, e),
        },
    decreases tokens.len(),
{
    if tokens.len() > 0 {
        match token_step(m, tokens[0]) {
            Ok(next) => {
                match shown(tokens[0]) {
                    Some(text) => {
                        if r is Err && heard(
                            handlers,
                            m.scope.element,
                            text,
                            m.scope.attributes,
                            Err(r->Err_0),
                        ) {
                            lemma_heard_failure(
                                handlers,
                                m.scope.element,
                                text,
                                m.scope.attributes,
                                r->Err_0,
                            );
                        } else {
                            lemma_listened_run(next, tokens.drop_first(), handlers, r);
                        }
                    },
                    None => {
                        lemma_listened_run(next, tokens.drop_first(), handlers, r);
                    },
                }
            },
            Err(_) => {},
        }
    }
}

/// Without custom handlers a parse is what the machine makes of the
/// tokens: the feed of the machine, or its failure.
pub proof fn lemma_listened_alone(m: Machine, tokens: Seq<Token>, r: Result<RssData, RssError>)
    requires
        listened(m, tokens, Seq::empty(), r),
    ensures
        match run(m, tokens) {
            Ok(end) => r matches Ok(data) && data@ == end.feed,
            Err(failure) => r matches Err(e) && e@ == failure,
        },
    decreases tokens.len(),
{
    if tokens.len() > 0 {
        match token_step(m, tokens[0]) {
            Ok(next) => {
                lemma_listened_alone(next, tokens.drop_first(), r);
            },
            Err(_) => {},
        }
    }
}

/// Parses an RSS feed from XML content.
///
/// The custom handlers of the configuration are shown every text and CDATA
/// token that the machine has attributed, in order.
pub fn parse_rss(xml_content: &str, config: Option<&ParserConfig>) -> (r: Result<
    RssData,
    RssError,
>)
    ensures
        parsed(xml_content@, r, handlers_of(config)),
        no_handlers(config) ==> match feed_of(xml_tokens(xml_content@)) {
            Ok(feed) => r matches Ok(data) && data@ == feed,
            Err(failure) => r matches Err(e) && e@ == failure,
        },
{
    let mut reader = open_reader(xml_content);
    let mut rss_data = RssData::new(None);
    let mut context = ParserContext::new();
    let ghost handlers = handlers_of(config);
    let ghost tokens = xml_tokens(xml_content@);
    loop
        invariant
            handlers == handlers_of(config),
            tokens == xml_tokens(xml_content@),
            run(Machine::initial(), tokens) == run(
                Machine { feed: rss_data@, scope: context@ },
                pending(reader),
            ),
            forall|r: Result<RssData, RssError>| #[trigger]
                listened(Machine { feed: rss_data@, scope: context@ }, pending(reader), handlers, r)
                    ==> listened(Machine::initial(), tokens, handlers, r),
        decreases pending(reader).len(),
    {
        let ghost before = Machine { feed: rss_data@, scope: context@ };
        let ghost waiting = pending(reader);
        match next_token(&mut reader) {
            Err(e) => {
                let r = Err(RssError::XmlParseError(e));
                assert(listened(before, waiting, handlers, r));
                return r;
            },
            Ok(None) => {
                let r = Ok(rss_data);
                assert(listened(before, waiting, handlers, r));
                return r;
            },
            Ok(Some(token)) => {
                assert(token_step(before, token@) == token_step(before, waiting[0]));
                match token {
                    XmlToken::Start { name, attributes } => {
                        let step = process_start_event(
                            name.as_str(),
                            attributes.as_slice(),
                            &mut context,
                            &mut rss_data,
                        );
                        if let Err(e) = step {
                            let r = Err(e);
                            assert(listened(before, waiting, handlers, r));
                            return r;
                        }
                    },
                    XmlToken::End { name } => {
                        process_end_event(name.as_str(), &mut context, &mut rss_data);
                    },
                    XmlToken::Text { raw } => {
                        let step = process_text_event(
                            raw.as_str(),
                            &mut context,
                            &mut rss_data,
                            config,
                        );
                        if let Err(e) = step {
                            let r = Err(e);
                            assert(listened(before, waiting, handlers, r));
                            return r;
                        }
                    },
                    XmlToken::CData { text } => {
                        let step = process_cdata_event(
                            text.as_str(),
                            &mut context,
                            &mut rss_data,
                            config,
                        );
                        if let Err(e) = step {
                            let r = Err(e);
                            assert(listened(before, waiting, handlers, r));
                            return r;
                        }
                    },
                    XmlToken::Other => {},
                }
                proof {
                    let after = Machine { feed: rss_data@, scope: context@ };
                    assert(token_step(before, waiting[0]) == Ok::<Machine, Failure>(after));
                    assert forall|r: Result<RssData, RssError>| #[trigger]
                        listened(after, pending(reader), handlers, r) implies listened(
                        Machine::initial(),
                        tokens,
                        handlers,
                        r,
                    ) by {
                        assert(listened(before, waiting, handlers, r));
                    }
                }
            },
        }
    }
}

/// Unknown elements: text of an element that is no element of a channel is
/// a failure inside the channel, and text of an element that is no element
/// of an item is passed over inside an item.
pub proof fn lemma_unknown_elements(m: Machine, text: Seq<char>)
    requires
        m.scope.element.len() > 0,
    ensures
        m.scope.state is Channel && channel_field(m.scope.element) is None && !is_rdf_structure(
            m.scope.element,
        ) ==> text_step(m, text) == Err::<Machine, Failure>(
            Failure::UnknownElement("Unknown channel element: "@ + m.scope.element),
        ),
        m.scope.state is Item && item_field(m.scope.element) is None && m.scope.element
            != "enclosure"@ ==> text_step(m, text) == Ok::<Machine, Failure>(m),
{
}

} // verus!
