//! What the parser makes of what the generator writes.
//!
//! The generator writes a document as a sequence of events; the parser
//! reads a document as a sequence of tokens. This module replays the events
//! of the document of a feed to the machine of the parser, each event as
//! the token that stands for it, and states which feed the machine ends
//! with.

use crate::data::{lemma_version_label_round_trip, Feed, Item, RssDataField, RssItemField,
    RssVersion};
use crate::error::Failure;
use crate::generator::{atom_link_elements, channel_elements, document_text, channel_fields, document,
    element, extension_elements, image_elements, item_elements, item_fields, items_elements,
    optional_element, optional_elements, root_attributes, root_name, Markup};
use crate::parser::{attribute_value, channel_field, feed_of, item_field, readable, run, text_step,
    token_step, Machine, ParsingState, Scope};
use crate::text::escape_markup;
use crate::xml::{escaped, unescaped, xml_entity, xml_tokens, Token};
use vstd::prelude::*;

verus! {

/// The attributes of a start tag as they stand in the document: every
/// attribute can be read, and its value is escaped.
pub open spec fn as_written(attributes: Seq<(Seq<char>, Seq<char>)>) -> Seq<
    Option<(Seq<char>, Seq<char>)>,
> {
    Seq::new(attributes.len(), |i: int| Some((attributes[i].0, escaped(attributes[i].1))))
}

/// The token that stands for an event of a document: a start tag for a
/// start tag, an end tag for an end tag, text for text, with the text
/// escaped as it stands in the document. The declaration and elements
/// without content are tokens that the parser passes over.
pub open spec fn token_of(event: Markup) -> Token {
    match event {
        Markup::Declaration { .. } => Token::Other,
        Markup::Open { name, attributes } => Token::Start {
            name,
            attributes: as_written(attributes),
        },
        Markup::Close { name } => Token::End { name },
        Markup::Empty { .. } => Token::Other,
        Markup::Text { content } => Token::Text { raw: escaped(content) },
    }
}

/// The machine after one event of a document, where the text of a text
/// event reaches the machine as it was before it was escaped.
pub open spec fn replay_step(m: Machine, event: Markup) -> Result<Machine, Failure> {
    match event {
        Markup::Text { content } => text_step(m, content),
        _ => token_step(m, token_of(event)),
    }
}

/// The machine after the events of a document, or the first failure.
pub open spec fn replay(m: Machine, events: Seq<Markup>) -> Result<Machine, Failure>
    decreases events.len(),
{
    if events.len() == 0 {
        Ok(m)
    } else {
        match replay_step(m, events[0]) {
            Ok(next) => replay(next, events.drop_first()),
            Err(failure) => Err(failure),
        }
    }
}

/// Replaying an event is handing its token to the machine, wherever
/// resolving the entities of an escaped text gives the text back.
proof fn lemma_replay_is_reading(m: Machine, event: Markup)
    requires
        event matches Markup::Text { content } ==> unescaped(escaped(content)) == Some(content),
    ensures
        replay_step(m, event) == token_step(m, token_of(event)),
{
}

/// Replaying two sequences of events, one after the other.
pub proof fn lemma_replay_concat(m: Machine, a: Seq<Markup>, b: Seq<Markup>)
    ensures
        replay(m, a + b) == match replay(m, a) {
            Ok(next) => replay(next, b),
            Err(failure) => Err(failure),
        },
    decreases a.len(),
{
    if a.len() == 0 {
        assert(a + b == b);
    } else {
        assert((a + b)[0] == a[0]);
        assert((a + b).drop_first() == a.drop_first() + b);
        match replay_step(m, a[0]) {
            Ok(next) => {
                lemma_replay_concat(next, a.drop_first(), b);
            },
            Err(_) => {},
        }
    }
}

/// Replaying a single event.
pub proof fn lemma_replay_one(m: Machine, event: Markup)
    ensures
        replay(m, seq![event]) == replay_step(m, event),
{
    let s = seq![event];
    assert(s.drop_first() == Seq::<Markup>::empty());
    match replay_step(m, event) {
        Ok(next) => {
            assert(replay(next, s.drop_first()) == Ok::<Machine, Failure>(next));
        },
        Err(_) => {},
    }
}

/// Whether a name is that of an element that the machine has no rule for
/// when it opens: not empty, and none of `rss`, `rdf:RDF`, `channel`,
/// `item` and `image`.
pub open spec fn plain(name: Seq<char>) -> bool {
    name.len() > 0 && name != "rss"@ && name != "rdf:RDF"@ && name != "channel"@ && name
        != "item"@ && name != "image"@
}

/// Whether two states of the parser differ at most in the element that was
/// opened last and its attributes.
pub open spec fn alike(a: Scope, b: Scope) -> bool {
    a.is_rdf == b.is_rdf && a.state == b.state && a.item == b.item && a.picture == b.picture
}

/// Replaying an element with text content, inside a scope.
pub proof fn lemma_replay_element(m: Machine, name: Seq<char>, content: Seq<char>)
    requires
        plain(name),
        !(m.scope.state is Outside),
    ensures
        replay(m, element(name, content)) == match text_step(
            Machine {
                scope: Scope { element: name, attributes: Seq::empty(), ..m.scope },
                ..m
            },
            content,
        ) {
            Ok(after) => Ok(
                Machine {
                    scope: Scope {
                        element: Seq::empty(),
                        attributes: Seq::empty(),
                        ..after.scope
                    },
                    ..after
                },
            ),
            Err(failure) => Err(failure),
        },
{
    let open = Markup::Open { name, attributes: Seq::empty() };
    let text = Markup::Text { content };
    let close = Markup::Close { name };
    let events = element(name, content);
    assert(events =~= seq![open] + (seq![text] + seq![close]));
    lemma_replay_concat(m, seq![open], seq![text] + seq![close]);
    lemma_replay_one(m, open);
    assert(as_written(Seq::empty()) =~= Seq::empty());
    assert(readable(Seq::empty()) =~= Seq::empty());
    let opened = Machine {
        scope: Scope { element: name, attributes: Seq::empty(), ..m.scope },
        ..m
    };
    assert(replay_step(m, open) == Ok::<Machine, Failure>(opened));
    lemma_replay_concat(opened, seq![text], seq![close]);
    lemma_replay_one(opened, text);
    match text_step(opened, content) {
        Ok(after) => {
            lemma_replay_one(after, close);
            assert(after.scope.state == m.scope.state);
        },
        Err(_) => {},
    }
}

/// What the machine makes of the names of the elements that the generator
/// writes.
proof fn lemma_names()
    ensures
        plain("title"@) && channel_field("title"@) == Some(RssDataField::Title),
        plain("link"@) && channel_field("link"@) == Some(RssDataField::Link),
        plain("description"@) && channel_field("description"@) == Some(RssDataField::Description),
        plain("language"@) && channel_field("language"@) == Some(RssDataField::Language),
        plain("pubDate"@) && channel_field("pubDate"@) == Some(RssDataField::PubDate),
        plain("lastBuildDate"@) && channel_field("lastBuildDate"@) == Some(RssDataField::LastBuildDate),
        plain("docs"@) && channel_field("docs"@) == Some(RssDataField::Docs),
        plain("generator"@) && channel_field("generator"@) == Some(RssDataField::Generator),
        plain("managingEditor"@) && channel_field("managingEditor"@) == Some(RssDataField::ManagingEditor),
        plain("webMaster"@) && channel_field("webMaster"@) == Some(RssDataField::Webmaster),
        plain("category"@) && channel_field("category"@) == Some(RssDataField::Category),
        plain("ttl"@) && channel_field("ttl"@) == Some(RssDataField::Ttl),
        item_field("title"@) == Some(RssItemField::Title),
        item_field("link"@) == Some(RssItemField::Link),
        item_field("description"@) == Some(RssItemField::Description),
        item_field("guid"@) == Some(RssItemField::Guid),
        item_field("pubDate"@) == Some(RssItemField::PubDate),
        item_field("author"@) == Some(RssItemField::Author),
        plain("guid"@) && plain("author"@) && plain("url"@),
        "url"@ != "title"@ && "link"@ != "title"@ && "link"@ != "url"@,
        "rss"@.len() > 0 && "rdf:RDF"@.len() > 0 && "rss"@ != "rdf:RDF"@,
        "channel"@.len() > 0 && "channel"@ != "rss"@ && "channel"@ != "rdf:RDF"@,
        "item"@.len() > 0 && "item"@ != "rss"@ && "item"@ != "rdf:RDF"@ && "item"@ != "channel"@,
        "image"@.len() > 0 && "image"@ != "rss"@ && "image"@ != "rdf:RDF"@ && "image"@ != "channel"@ && "image"@ != "item"@,
        "rss"@ != "channel"@ && "rss"@ != "item"@ && "rss"@ != "image"@,
        "rdf:RDF"@ != "channel"@ && "rdf:RDF"@ != "item"@ && "rdf:RDF"@ != "image"@,
{
    reveal_strlit("title");
    reveal_strlit("link");
    reveal_strlit("description");
    reveal_strlit("language");
    reveal_strlit("copyright");
    reveal_strlit("managingEditor");
    reveal_strlit("webMaster");
    reveal_strlit("pubDate");
    reveal_strlit("lastBuildDate");
    reveal_strlit("category");
    reveal_strlit("generator");
    reveal_strlit("docs");
    reveal_strlit("ttl");
    reveal_strlit("rss");
    reveal_strlit("rdf:RDF");
    reveal_strlit("channel");
    reveal_strlit("item");
    reveal_strlit("image");
    reveal_strlit("author");
    reveal_strlit("guid");
    reveal_strlit("comments");
    reveal_strlit("source");
    reveal_strlit("url");
    reveal_strlit("version");
    assert("title"@.len() == 5 && "title"@[0] == 't');
    assert("link"@.len() == 4 && "link"@[0] == 'l');
    assert("description"@.len() == 11 && "description"@[0] == 'd');
    assert("language"@.len() == 8 && "language"@[0] == 'l');
    assert("copyright"@.len() == 9 && "copyright"@[0] == 'c');
    assert("managingEditor"@.len() == 14 && "managingEditor"@[0] == 'm');
    assert("webMaster"@.len() == 9 && "webMaster"@[0] == 'w');
    assert("pubDate"@.len() == 7 && "pubDate"@[0] == 'p');
    assert("lastBuildDate"@.len() == 13 && "lastBuildDate"@[0] == 'l');
    assert("category"@.len() == 8 && "category"@[0] == 'c');
    assert("generator"@.len() == 9 && "generator"@[0] == 'g');
    assert("docs"@.len() == 4 && "docs"@[0] == 'd');
    assert("ttl"@.len() == 3 && "ttl"@[0] == 't');
    assert("rss"@.len() == 3 && "rss"@[0] == 'r');
    assert("rdf:RDF"@.len() == 7 && "rdf:RDF"@[0] == 'r');
    assert("channel"@.len() == 7 && "channel"@[0] == 'c');
    assert("item"@.len() == 4 && "item"@[0] == 'i');
    assert("image"@.len() == 5 && "image"@[0] == 'i');
    assert("author"@.len() == 6 && "author"@[0] == 'a');
    assert("guid"@.len() == 4 && "guid"@[0] == 'g');
    assert("comments"@.len() == 8 && "comments"@[0] == 'c');
    assert("source"@.len() == 6 && "source"@[0] == 's');
    assert("url"@.len() == 3 && "url"@[0] == 'u');
    assert("version"@.len() == 7 && "version"@[0] == 'v');
    assert("rdf:RDF"@[1] == 'd');
}

/// A feed after the fields of a list have been read into it as channel
/// elements, in order: each field with content replaces the field of the
/// feed that its element fills.
pub open spec fn filled(feed: Feed, fields: Seq<(Seq<char>, Seq<char>)>) -> Feed
    decreases fields.len(),
{
    if fields.len() == 0 {
        feed
    } else {
        let before = filled(feed, fields.drop_last());
        match channel_field(fields.last().0) {
            Some(field) => if fields.last().1.len() > 0 {
                before.with_field(field, fields.last().1)
            } else {
                before
            },
            None => before,
        }
    }
}

/// An item after the fields of a list have been read into it as item
/// elements, in order.
pub open spec fn filled_item(item: Item, fields: Seq<(Seq<char>, Seq<char>)>) -> Item
    decreases fields.len(),
{
    if fields.len() == 0 {
        item
    } else {
        let before = filled_item(item, fields.drop_last());
        match item_field(fields.last().0) {
            Some(field) => if fields.last().1.len() > 0 {
                before.with_field(field, fields.last().1)
            } else {
                before
            },
            None => before,
        }
    }
}

proof fn lemma_filled_step(feed: Feed, fields: Seq<(Seq<char>, Seq<char>)>, k: int)
    requires
        0 < k <= fields.len(),
    ensures
        filled(feed, fields.take(k)) == match channel_field(fields[k - 1].0) {
            Some(field) => if fields[k - 1].1.len() > 0 {
                filled(feed, fields.take(k - 1)).with_field(field, fields[k - 1].1)
            } else {
                filled(feed, fields.take(k - 1))
            },
            None => filled(feed, fields.take(k - 1)),
        },
{
    assert(fields.take(k).drop_last() == fields.take(k - 1));
    assert(fields.take(k).last() == fields[k - 1]);
}

proof fn lemma_filled_item_step(item: Item, fields: Seq<(Seq<char>, Seq<char>)>, k: int)
    requires
        0 < k <= fields.len(),
    ensures
        filled_item(item, fields.take(k)) == match item_field(fields[k - 1].0) {
            Some(field) => if fields[k - 1].1.len() > 0 {
                filled_item(item, fields.take(k - 1)).with_field(field, fields[k - 1].1)
            } else {
                filled_item(item, fields.take(k - 1))
            },
            None => filled_item(item, fields.take(k - 1)),
        },
{
    assert(fields.take(k).drop_last() == fields.take(k - 1));
    assert(fields.take(k).last() == fields[k - 1]);
}

/// Replaying the elements of a list of channel fields inside the channel:
/// the machine stays in the channel, and the fields with content have been
/// read into the feed.
pub proof fn lemma_replay_channel_fields(m: Machine, fields: Seq<(Seq<char>, Seq<char>)>)
    requires
        m.scope.state is Channel,
        forall|j: int|
            0 <= j < fields.len() ==> plain((#[trigger] fields[j]).0) && channel_field(
                fields[j].0,
            ) is Some,
    ensures
        replay(m, optional_elements(fields)) matches Ok(after) && alike(after.scope, m.scope)
            && after.feed == filled(m.feed, fields),
    decreases fields.len(),
{
    if fields.len() > 0 {
        let last = fields.last();
        assert(fields[fields.len() - 1] == last);
        assert forall|j: int| 0 <= j < fields.drop_last().len() implies plain(
            (#[trigger] fields.drop_last()[j]).0,
        ) && channel_field(fields.drop_last()[j].0) is Some by {
            assert(fields.drop_last()[j] == fields[j]);
        }
        lemma_replay_channel_fields(m, fields.drop_last());
        lemma_replay_concat(
            m,
            optional_elements(fields.drop_last()),
            optional_element(last.0, last.1),
        );
        let before = replay(m, optional_elements(fields.drop_last()))->Ok_0;
        if last.1.len() > 0 {
            lemma_replay_element(before, last.0, last.1);
        } else {
            assert(replay(before, Seq::<Markup>::empty()) == Ok::<Machine, Failure>(before));
        }
    }
}

/// Replaying the elements of a list of item fields inside an item: the
/// machine stays in the item, and the fields with content have been read
/// into the item under construction.
pub proof fn lemma_replay_item_fields(m: Machine, fields: Seq<(Seq<char>, Seq<char>)>)
    requires
        m.scope.state is Item,
        forall|j: int|
            0 <= j < fields.len() ==> plain((#[trigger] fields[j]).0) && item_field(
                fields[j].0,
            ) is Some,
    ensures
        replay(m, optional_elements(fields)) matches Ok(after) && after.feed == m.feed
            && after.scope.state is Item && after.scope.is_rdf == m.scope.is_rdf
            && after.scope.picture == m.scope.picture && after.scope.item == filled_item(
            m.scope.item,
            fields,
        ),
    decreases fields.len(),
{
    if fields.len() > 0 {
        let last = fields.last();
        assert(fields[fields.len() - 1] == last);
        assert forall|j: int| 0 <= j < fields.drop_last().len() implies plain(
            (#[trigger] fields.drop_last()[j]).0,
        ) && item_field(fields.drop_last()[j].0) is Some by {
            assert(fields.drop_last()[j] == fields[j]);
        }
        lemma_replay_item_fields(m, fields.drop_last());
        lemma_replay_concat(
            m,
            optional_elements(fields.drop_last()),
            optional_element(last.0, last.1),
        );
        let before = replay(m, optional_elements(fields.drop_last()))->Ok_0;
        if last.1.len() > 0 {
            lemma_replay_element(before, last.0, last.1);
        } else {
            assert(replay(before, Seq::<Markup>::empty()) == Ok::<Machine, Failure>(before));
        }
    }
}

/// What the machine reads back of an item: the six fields that the
/// generator writes. The four optional fields are not written.
pub open spec fn legible_item(item: Item) -> Item {
    Item { category: None, comments: None, enclosure: None, source: None, ..item }
}

/// What the machine reads back of a list of items.
pub open spec fn legible_items(items: Seq<Item>) -> Seq<Item> {
    Seq::new(items.len(), |i: int| legible_item(items[i]))
}

/// Whether the document of a feed has an image block.
pub open spec fn has_image(feed: Feed) -> bool {
    feed.version is RSS2_0 && feed.image_url.len() > 0
}

/// What the machine reads back of a feed: the dialect, the twelve scalar
/// fields that the generator writes and the items. Of an RSS 2.0 feed with
/// an image address it also reads the image, which carries the title and
/// the link of the feed and is escaped once more when it is stored. The
/// Atom link, the copyright, the author and the GUID of the feed are not
/// read back.
pub open spec fn legible(feed: Feed) -> Feed {
    Feed {
        atom_link: Seq::empty(),
        author: Seq::empty(),
        copyright: Seq::empty(),
        guid: Seq::empty(),
        image_title: if has_image(feed) {
            escape_markup(feed.title)
        } else {
            Seq::empty()
        },
        image_url: if has_image(feed) {
            escape_markup(feed.image_url)
        } else {
            Seq::empty()
        },
        image_link: if has_image(feed) {
            escape_markup(feed.link)
        } else {
            Seq::empty()
        },
        items: legible_items(feed.items),
        ..feed
    }
}

proof fn lemma_empty_text(t: Seq<char>)
    ensures
        t.len() == 0 ==> t == Seq::<char>::empty(),
{
    if t.len() == 0 {
        assert(t =~= Seq::<char>::empty());
    }
}

/// The six fields of an item, read into an empty item, give what is
/// legible of the item.
proof fn lemma_filled_item(item: Item)
    ensures
        filled_item(Item::empty(), item_fields(item)) == legible_item(item),
{
    lemma_names();
    let f = item_fields(item);
    let base = Item::empty();
    assert(f.take(0) =~= Seq::empty());
    assert(f.take(6) =~= f);
    lemma_filled_item_step(base, f, 1);
    lemma_filled_item_step(base, f, 2);
    lemma_filled_item_step(base, f, 3);
    lemma_filled_item_step(base, f, 4);
    lemma_filled_item_step(base, f, 5);
    lemma_filled_item_step(base, f, 6);
    lemma_empty_text(item.title);
    lemma_empty_text(item.link);
    lemma_empty_text(item.description);
    lemma_empty_text(item.guid);
    lemma_empty_text(item.pub_date);
    lemma_empty_text(item.author);
}

/// The twelve scalar fields of a feed, read into a feed without them, give
/// the feed with these fields.
proof fn lemma_filled_feed(base: Feed, feed: Feed)
    requires
        base.title.len() == 0,
        base.link.len() == 0,
        base.description.len() == 0,
        base.language.len() == 0,
        base.pub_date.len() == 0,
        base.last_build_date.len() == 0,
        base.docs.len() == 0,
        base.generator.len() == 0,
        base.managing_editor.len() == 0,
        base.webmaster.len() == 0,
        base.category.len() == 0,
        base.ttl.len() == 0,
    ensures
        filled(base, channel_fields(feed)) == (Feed {
            title: feed.title,
            link: feed.link,
            description: feed.description,
            language: feed.language,
            pub_date: feed.pub_date,
            last_build_date: feed.last_build_date,
            docs: feed.docs,
            generator: feed.generator,
            managing_editor: feed.managing_editor,
            webmaster: feed.webmaster,
            category: feed.category,
            ttl: feed.ttl,
            ..base
        }),
{
    lemma_names();
    let f = channel_fields(feed);
    assert(f.take(0) =~= Seq::empty());
    assert(f.take(12) =~= f);
    lemma_filled_step(base, f, 1);
    lemma_filled_step(base, f, 2);
    lemma_filled_step(base, f, 3);
    lemma_filled_step(base, f, 4);
    lemma_filled_step(base, f, 5);
    lemma_filled_step(base, f, 6);
    lemma_filled_step(base, f, 7);
    lemma_filled_step(base, f, 8);
    lemma_filled_step(base, f, 9);
    lemma_filled_step(base, f, 10);
    lemma_filled_step(base, f, 11);
    lemma_filled_step(base, f, 12);
    lemma_empty_text(feed.title);
    lemma_empty_text(feed.link);
    lemma_empty_text(feed.description);
    lemma_empty_text(feed.language);
    lemma_empty_text(feed.pub_date);
    lemma_empty_text(feed.last_build_date);
    lemma_empty_text(feed.docs);
    lemma_empty_text(feed.generator);
    lemma_empty_text(feed.managing_editor);
    lemma_empty_text(feed.webmaster);
    lemma_empty_text(feed.category);
    lemma_empty_text(feed.ttl);
    lemma_empty_text(base.title);
    lemma_empty_text(base.link);
    lemma_empty_text(base.description);
    lemma_empty_text(base.language);
    lemma_empty_text(base.pub_date);
    lemma_empty_text(base.last_build_date);
    lemma_empty_text(base.docs);
    lemma_empty_text(base.generator);
    lemma_empty_text(base.managing_editor);
    lemma_empty_text(base.webmaster);
    lemma_empty_text(base.category);
    lemma_empty_text(base.ttl);
}

/// Replaying the block of an item: the machine is outside every scope, and
/// what is legible of the item has been added to the feed.
pub proof fn lemma_replay_item(m: Machine, item: Item)
    ensures
        replay(m, item_elements(item)) == Ok::<Machine, Failure>(
            Machine {
                feed: Feed { items: m.feed.items.push(legible_item(item)), ..m.feed },
                scope: Scope {
                    state: ParsingState::Outside,
                    element: Seq::empty(),
                    attributes: Seq::empty(),
                    item: legible_item(item),
                    ..m.scope
                },
            },
        ),
{
    lemma_names();
    let open = Markup::Open { name: "item"@, attributes: Seq::empty() };
    let close = Markup::Close { name: "item"@ };
    let fields = optional_elements(item_fields(item));
    assert(item_elements(item) =~= seq![open] + (fields + seq![close]));
    lemma_replay_concat(m, seq![open], fields + seq![close]);
    lemma_replay_one(m, open);
    assert(as_written(Seq::empty()) =~= Seq::empty());
    assert(readable(Seq::empty()) =~= Seq::empty());
    let opened = Machine {
        scope: Scope {
            state: ParsingState::Item,
            item: Item::empty(),
            element: "item"@,
            attributes: Seq::empty(),
            ..m.scope
        },
        ..m
    };
    assert(replay_step(m, open) == Ok::<Machine, Failure>(opened));
    lemma_replay_concat(opened, fields, seq![close]);
    lemma_replay_item_fields(opened, item_fields(item));
    lemma_filled_item(item);
    let read = replay(opened, fields)->Ok_0;
    lemma_replay_one(read, close);
}

/// Replaying the blocks of the items: what is legible of the items has been
/// added to the feed, in order.
pub proof fn lemma_replay_items(m: Machine, items: Seq<Item>)
    ensures
        replay(m, items_elements(items)) matches Ok(after) && after.feed == (Feed {
            items: m.feed.items + legible_items(items),
            ..m.feed
        }) && after.scope.is_rdf == m.scope.is_rdf && after.scope.picture == m.scope.picture,
    decreases items.len(),
{
    if items.len() == 0 {
        assert(m.feed.items + legible_items(items) =~= m.feed.items);
    } else {
        lemma_replay_items(m, items.drop_last());
        lemma_replay_concat(
            m,
            items_elements(items.drop_last()),
            item_elements(items.last()),
        );
        let before = replay(m, items_elements(items.drop_last()))->Ok_0;
        lemma_replay_item(before, items.last());
        assert((m.feed.items + legible_items(items.drop_last())).push(legible_item(items.last()))
            =~= m.feed.items + legible_items(items));
    }
}

/// Replaying the image block inside the channel: the machine is outside
/// every scope, and the image has been stored in the feed, escaped.
pub proof fn lemma_replay_image(m: Machine, feed: Feed)
    requires
        feed.image_url.len() > 0,
    ensures
        replay(m, image_elements(feed)) matches Ok(after) && after.feed == (Feed {
            image_title: escape_markup(feed.title),
            image_url: escape_markup(feed.image_url),
            image_link: escape_markup(feed.link),
            ..m.feed
        }) && after.scope.is_rdf == m.scope.is_rdf && after.scope.state is Outside,
{
    lemma_names();
    let open = Markup::Open { name: "image"@, attributes: Seq::empty() };
    let close = Markup::Close { name: "image"@ };
    let url = element("url"@, feed.image_url);
    let title = element("title"@, feed.title);
    let link = element("link"@, feed.link);
    assert(image_elements(feed) =~= seq![open] + (url + (title + (link + seq![close]))));
    lemma_replay_concat(m, seq![open], url + (title + (link + seq![close])));
    lemma_replay_one(m, open);
    assert(as_written(Seq::empty()) =~= Seq::empty());
    assert(readable(Seq::empty()) =~= Seq::empty());
    let m1 = Machine {
        scope: Scope {
            state: ParsingState::Image,
            element: "image"@,
            attributes: Seq::empty(),
            ..m.scope
        },
        ..m
    };
    assert(replay_step(m, open) == Ok::<Machine, Failure>(m1));
    lemma_replay_concat(m1, url, title + (link + seq![close]));
    lemma_replay_element(m1, "url"@, feed.image_url);
    let m2 = replay(m1, url)->Ok_0;
    lemma_replay_concat(m2, title, link + seq![close]);
    lemma_replay_element(m2, "title"@, feed.title);
    let m3 = replay(m2, title)->Ok_0;
    lemma_replay_concat(m3, link, seq![close]);
    lemma_replay_element(m3, "link"@, feed.link);
    let m4 = replay(m3, link)->Ok_0;
    lemma_replay_one(m4, close);
}

/// The round trip of the events: the machine of the parser, given the
/// events of the document of a feed, ends with what is legible of the feed.
pub proof fn lemma_round_trip(feed: Feed)
    ensures
        replay(Machine::initial(), document(feed)) matches Ok(after) && after.feed == legible(
            feed,
        ),
{
    lemma_names();
    let version = feed.version;
    let decl = Markup::Declaration { version: "1.0"@, encoding: "utf-8"@ };
    let root = Markup::Open { name: root_name(version), attributes: root_attributes(version) };
    let open = Markup::Open { name: "channel"@, attributes: Seq::empty() };
    let close = Markup::Close { name: "channel"@ };
    let end = Markup::Close { name: root_name(version) };
    let scalars = channel_elements(feed);
    let extensions = extension_elements(feed);
    let items = items_elements(feed.items);
    let m0 = Machine::initial();
    assert(document(feed) =~= seq![decl] + (seq![root] + (seq![open] + (scalars + (extensions + (
    items + (seq![close] + seq![end])))))));
    lemma_replay_concat(
        m0,
        seq![decl],
        seq![root] + (seq![open] + (scalars + (extensions + (items + (seq![close] + seq![end]))))),
    );
    lemma_replay_one(m0, decl);
    lemma_replay_concat(
        m0,
        seq![root],
        seq![open] + (scalars + (extensions + (items + (seq![close] + seq![end])))),
    );
    lemma_replay_one(m0, root);
    lemma_root(m0, version);
    let m1 = replay_step(m0, root)->Ok_0;
    lemma_replay_concat(
        m1,
        seq![open],
        scalars + (extensions + (items + (seq![close] + seq![end]))),
    );
    lemma_replay_one(m1, open);
    assert(as_written(Seq::empty()) =~= Seq::empty());
    assert(readable(Seq::empty()) =~= Seq::empty());
    let m2 = Machine { scope: Scope { state: ParsingState::Channel, ..m1.scope }, ..m1 };
    assert(replay_step(m1, open) == Ok::<Machine, Failure>(m2));
    lemma_replay_concat(m2, scalars, extensions + (items + (seq![close] + seq![end])));
    lemma_replay_channel_fields(m2, channel_fields(feed));
    lemma_filled_feed(m2.feed, feed);
    let m3 = replay(m2, scalars)->Ok_0;
    lemma_replay_concat(m3, extensions, items + (seq![close] + seq![end]));
    lemma_extensions(m3, feed);
    let m4 = replay(m3, extensions)->Ok_0;
    lemma_replay_concat(m4, items, seq![close] + seq![end]);
    lemma_replay_items(m4, feed.items);
    let m5 = replay(m4, items)->Ok_0;
    assert(Seq::<Item>::empty() + legible_items(feed.items) =~= legible_items(feed.items));
    lemma_replay_concat(m5, seq![close], seq![end]);
    lemma_replay_one(m5, close);
    let m6 = replay_step(m5, close)->Ok_0;
    lemma_replay_one(m6, end);
}

/// Replaying the start tag of the root element of a dialect: the feed is of
/// the dialect.
proof fn lemma_root(m: Machine, version: RssVersion)
    ensures
        replay_step(
            m,
            Markup::Open { name: root_name(version), attributes: root_attributes(version) },
        ) matches Ok(after) && after.feed == (Feed { version, ..m.feed }) && after.scope.state
            == m.scope.state && after.scope.picture == m.scope.picture,
{
    lemma_names();
    lemma_version_label_round_trip(version);
    let attributes = root_attributes(version);
    let written = as_written(attributes);
    if !(version is RSS1_0) {
        let label = version.label();
        assert(attributes[0] == ("version"@, label));
        lemma_escaped_label(version);
        assert(written[0] == Some(("version"@, label)));
        lemma_readable_first(written);
        assert(attribute_value(readable(written), "version"@, 0) == Some(label));
    }
}

/// The version string of a dialect is written as it is.
proof fn lemma_escaped_label(version: RssVersion)
    ensures
        escaped(version.label()) == version.label(),
{
    reveal_strlit("0.90");
    reveal_strlit("0.91");
    reveal_strlit("0.92");
    reveal_strlit("1.0");
    reveal_strlit("2.0");
    let label = version.label();
    assert(label.len() <= 4);
    assert forall|i: int| 0 <= i < label.len() implies xml_entity(#[trigger] label[i]) == seq![
        label[i],
    ] by {
        if i == 0 {
        } else if i == 1 {
        } else if i == 2 {
        } else {
        }
    }
    crate::tags::lemma_plain_is_written_as_it_is(label);
}

/// The first of the attributes that can be read is the first attribute, if
/// it can be read.
proof fn lemma_readable_first(attributes: Seq<Option<(Seq<char>, Seq<char>)>>)
    requires
        attributes.len() > 0,
        attributes[0] is Some,
    ensures
        readable(attributes).len() > 0,
        readable(attributes)[0] == attributes[0]->Some_0,
    decreases attributes.len(),
{
    if attributes.len() > 1 {
        lemma_readable_first(attributes.drop_last());
    } else {
        assert(attributes.drop_last() =~= Seq::empty());
        assert(readable(attributes.drop_last()) =~= Seq::empty());
        assert(attributes.last() == attributes[0]);
    }
}

/// Replaying what only an RSS 2.0 channel has.
proof fn lemma_extensions(m: Machine, feed: Feed)
    ensures
        replay(m, extension_elements(feed)) matches Ok(after) && after.feed == (Feed {
            image_title: if has_image(feed) {
                escape_markup(feed.title)
            } else {
                m.feed.image_title
            },
            image_url: if has_image(feed) {
                escape_markup(feed.image_url)
            } else {
                m.feed.image_url
            },
            image_link: if has_image(feed) {
                escape_markup(feed.link)
            } else {
                m.feed.image_link
            },
            ..m.feed
        }) && after.scope.is_rdf == m.scope.is_rdf,
{
    if feed.version is RSS2_0 {
        lemma_replay_concat(m, image_elements(feed), atom_link_elements(feed));
        if feed.image_url.len() > 0 {
            lemma_replay_image(m, feed);
        }
        let mid = replay(m, image_elements(feed))->Ok_0;
        if feed.atom_link.len() > 0 {
            lemma_replay_one(mid, atom_link_elements(feed)[0]);
            assert(atom_link_elements(feed) =~= seq![atom_link_elements(feed)[0]]);
        }
    }
}

/// Whether a feed holds only what the generator writes and the parser
/// reads back as it is: no Atom link, copyright, author, GUID or image, and
/// no item with a category, a comments address, an enclosure or a source.
pub open spec fn fully_legible(feed: Feed) -> bool {
    &&& feed.atom_link.len() == 0
    &&& feed.author.len() == 0
    &&& feed.copyright.len() == 0
    &&& feed.guid.len() == 0
    &&& feed.image_title.len() == 0
    &&& feed.image_url.len() == 0
    &&& feed.image_link.len() == 0
    &&& forall|i: int|
        0 <= i < feed.items.len() ==> legible_item(#[trigger] feed.items[i]) == feed.items[i]
}

/// Round trip: the machine of the parser, given the events of the document
/// of a feed that holds only what the generator writes, ends with the feed
/// itself: with its dialect, its scalar fields and its items.
pub proof fn lemma_round_trip_exact(feed: Feed)
    requires
        fully_legible(feed),
    ensures
        replay(Machine::initial(), document(feed)) matches Ok(after) && after.feed == feed,
{
    lemma_round_trip(feed);
    lemma_empty_text(feed.atom_link);
    lemma_empty_text(feed.author);
    lemma_empty_text(feed.copyright);
    lemma_empty_text(feed.guid);
    lemma_empty_text(feed.image_title);
    lemma_empty_text(feed.image_url);
    lemma_empty_text(feed.image_link);
    assert(legible_items(feed.items) =~= feed.items);
}

/// The tokens that stand for the events of a document.
pub open spec fn tokens_of(events: Seq<Markup>) -> Seq<Token> {
    Seq::new(events.len(), |i: int| token_of(events[i]))
}

/// Whether resolving the entities of each text of a sequence of events, as
/// it stands escaped in the document, gives the text back.
pub open spec fn texts_resolve(events: Seq<Markup>) -> bool {
    forall|i: int|
        0 <= i < events.len() ==> (#[trigger] events[i] matches Markup::Text { content }
            ==> unescaped(escaped(content)) == Some(content))
}

/// Replaying the events of a document is running the machine on their
/// tokens, wherever the texts resolve.
proof fn lemma_replay_is_run(m: Machine, events: Seq<Markup>)
    requires
        texts_resolve(events),
    ensures
        run(m, tokens_of(events)) == replay(m, events),
    decreases events.len(),
{
    if events.len() > 0 {
        assert(tokens_of(events)[0] == token_of(events[0]));
        assert(tokens_of(events).drop_first() =~= tokens_of(events.drop_first()));
        lemma_replay_is_reading(m, events[0]);
        assert forall|i: int| 0 <= i < events.drop_first().len() implies (
        #[trigger] events.drop_first()[i] matches Markup::Text { content } ==> unescaped(
            escaped(content),
        ) == Some(content)) by {
            assert(events.drop_first()[i] == events[i + 1]);
        }
        match replay_step(m, events[0]) {
            Ok(next) => {
                lemma_replay_is_run(next, events.drop_first());
            },
            Err(_) => {},
        }
    }
}

/// Round trip, given the reader: if the reader hands out, for the text of
/// the document of a feed, the tokens that stand for the events of the
/// document, and the texts of the document resolve, then the text of the
/// document of the feed is read as what is legible of the feed.
pub proof fn lemma_round_trip_given(feed: Feed)
    ensures
        xml_tokens(document_text(document(feed))) == tokens_of(document(feed)) && texts_resolve(
            document(feed),
        ) ==> feed_of(xml_tokens(document_text(document(feed)))) == Ok::<Feed, Failure>(
            legible(feed),
        ),
{
    if texts_resolve(document(feed)) {
        lemma_replay_is_run(Machine::initial(), document(feed));
    }
    lemma_round_trip(feed);
}

} // verus!
