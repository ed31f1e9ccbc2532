//! The feed generator: it turns a feed into the XML document of its
//! dialect.
//!
//! A document is described as a sequence of markup events. What the
//! generator writes for a feed is `document(feed)`; the text of a document is
//! `document_text`.

use crate::data::{feed_errors, Feed, Item, RssData, RssItem, RssVersion};
use crate::error::{Failure, RssError};
use crate::text::{entity, escape_markup, expand, has_prefix, has_suffix, is_markup,
    push_entity};
use crate::xml::{attribute_texts, declaration, empty_tag, end_tag, escaped, start_tag,
    write_declaration, write_empty, write_end, write_start, write_text, written, XmlWriter};
use vstd::prelude::*;
use vstd::utf8::{encode_utf8, encode_utf8_decode_utf8, encode_utf8_valid_utf8};

verus! {

/// The version that the XML declaration of a feed names.
pub const XML_VERSION: &'static str = "1.0";

/// The encoding that the XML declaration of a feed names.
pub const XML_ENCODING: &'static str = "utf-8";

/// Whether `c` is a control character: one of the characters of the
/// Unicode general category `Cc`.
pub open spec fn control(c: char) -> bool {
    c <= '\u{1f}' || '\u{7f}' <= c <= '\u{9f}'
}

/// Decides whether a character is a control character.
pub fn is_control(c: char) -> (r: bool)
    ensures
        r == control(c),
{
    c <= '\u{1f}' || (c >= '\u{7f}' && c <= '\u{9f}')
}

/// Whether `c` may stand in content: every character but the control
/// characters, of which line feed, carriage return and tab are kept.
pub open spec fn printable(c: char) -> bool {
    !(control(c) && c != '\n' && c != '\r' && c != '\t')
}

/// `s` without the characters that may not stand in content.
pub open spec fn printable_part(s: Seq<char>) -> Seq<char> {
    s.filter(|c: char| printable(c))
}

/// The content that `s` is sanitized to: the characters that may not stand
/// in content are removed, then the five markup characters are escaped.
pub open spec fn sanitized(s: Seq<char>) -> Seq<char> {
    escape_markup(printable_part(s))
}

/// Sanitizes the content by removing invalid XML characters and escaping
/// special characters.
#[must_use]
pub fn sanitize_content(content: &str) -> (out: String)
    ensures
        out@ == sanitized(content@),
{
    let mut out = String::new();
    let ghost f = |c: char| entity(c);
    let ghost keep = |c: char| printable(c);
    proof {
        assert(content@.take(0) =~= Seq::<char>::empty());
        reveal(Seq::filter);
        assert(Seq::<char>::empty().filter(keep) =~= Seq::<char>::empty());
    }
    for c in it: content.chars()
        invariant
            it.seq() == content@,
            f == (|c: char| entity(c)),
            keep == (|c: char| printable(c)),
            out@ == expand(it.seq().take(it.index()).filter(keep), f),
    {
        let ghost before = it.seq().take(it.index()).filter(keep);
        proof {
            let next = it.seq().take(it.index() + 1);
            assert(next.drop_last() == it.seq().take(it.index()));
            assert(next.last() == c);
            reveal(Seq::filter);
            assert(next.filter(keep) == if keep(c) {
                before.push(c)
            } else {
                before
            });
        }
        let dropped = is_control(c) && c != '\n' && c != '\r' && c != '\t';
        if !dropped {
            push_entity(&mut out, c);
            proof {
                assert(before.push(c).drop_last() == before);
            }
        }
    }
    proof {
        assert(content@.take(content@.len() as int) == content@);
    }
    out
}

/// Escaping leaves a text without markup characters as it is.
pub proof fn lemma_escape_plain(s: Seq<char>)
    requires
        forall|i: int| 0 <= i < s.len() ==> !is_markup(#[trigger] s[i]),
    ensures
        escape_markup(s) == s,
    decreases s.len(),
{
    let f = |c: char| entity(c);
    if s.len() > 0 {
        lemma_escape_plain(s.drop_last());
        assert(!is_markup(s[s.len() - 1]));
        assert(expand(s, f) == expand(s.drop_last(), f) + f(s.last()));
        assert(s.drop_last() + seq![s.last()] =~= s);
    }
}

/// Sanitizing content a second time changes nothing, for content that holds
/// none of the five markup characters `& < > " '`.
///
/// A markup character is replaced by an entity that begins with `&`, which
/// a second pass replaces again: for `&` the first pass gives `&amp;` and
/// the second `&amp;amp;`.
pub proof fn lemma_sanitize_idempotent(s: Seq<char>)
    requires
        forall|i: int| 0 <= i < s.len() ==> !is_markup(#[trigger] s[i]),
    ensures
        sanitized(sanitized(s)) == sanitized(s),
{
    let keep = |c: char| printable(c);
    let kept = s.filter(keep);
    assert forall|i: int| 0 <= i < kept.len() implies !is_markup(#[trigger] kept[i]) && keep(
        kept[i],
    ) by {
        s.lemma_filter_pred(keep, i);
        s.lemma_filter_contains_rev(keep, kept[i]);
    }
    lemma_escape_plain(kept);
    assert(kept.filter(keep) == kept) by {
        lemma_filter_all(kept, keep);
    }
}

/// Escaping does not shorten a text, and lengthens a text that holds a
/// markup character.
proof fn lemma_escape_length(s: Seq<char>)
    ensures
        escape_markup(s).len() >= s.len(),
        (exists|i: int| 0 <= i < s.len() && is_markup(#[trigger] s[i])) ==> escape_markup(s).len()
            > s.len(),
    decreases s.len(),
{
    let f = |c: char| entity(c);
    if s.len() > 0 {
        lemma_escape_length(s.drop_last());
        assert(expand(s, f) == expand(s.drop_last(), f) + f(s.last()));
        if exists|i: int| 0 <= i < s.len() && is_markup(#[trigger] s[i]) {
            let i = choose|i: int| 0 <= i < s.len() && is_markup(#[trigger] s[i]);
            if i < s.len() - 1 {
                assert(is_markup(s.drop_last()[i]));
            } else {
                assert(is_markup(s.last()));
            }
        }
    }
}

/// Escaping a text of characters that may stand in content gives a text of
/// such characters.
proof fn lemma_escape_keeps_printable(s: Seq<char>)
    requires
        forall|i: int| 0 <= i < s.len() ==> printable(#[trigger] s[i]),
    ensures
        forall|j: int| 0 <= j < escape_markup(s).len() ==> printable(#[trigger] escape_markup(s)[j]),
    decreases s.len(),
{
    let f = |c: char| entity(c);
    if s.len() > 0 {
        let before = expand(s.drop_last(), f);
        assert forall|i: int| 0 <= i < s.drop_last().len() implies printable(
            #[trigger] s.drop_last()[i],
        ) by {
            assert(s.drop_last()[i] == s[i]);
        }
        lemma_escape_keeps_printable(s.drop_last());
        assert(expand(s, f) == before + f(s.last()));
        assert(printable(s[s.len() - 1]));
        assert forall|j: int| 0 <= j < escape_markup(s).len() implies printable(
            #[trigger] escape_markup(s)[j],
        ) by {
            if j < before.len() {
                assert(escape_markup(s)[j] == escape_markup(s.drop_last())[j]);
            } else {
                let k = j - before.len();
                assert(escape_markup(s)[j] == entity(s.last())[k]);
            }
        }
    }
}

/// Escaping a text that holds a markup character gives a text that holds
/// an ampersand.
proof fn lemma_escape_leaves_ampersand(s: Seq<char>)
    requires
        exists|i: int| 0 <= i < s.len() && is_markup(#[trigger] s[i]),
    ensures
        exists|j: int| 0 <= j < escape_markup(s).len() && #[trigger] escape_markup(s)[j] == '&',
    decreases s.len(),
{
    let f = |c: char| entity(c);
    let before = expand(s.drop_last(), f);
    assert(expand(s, f) == before + f(s.last()));
    if is_markup(s.last()) {
        assert(escape_markup(s)[before.len() as int] == entity(s.last())[0]);
    } else {
        let i = choose|i: int| 0 <= i < s.len() && is_markup(#[trigger] s[i]);
        assert(is_markup(s.drop_last()[i]));
        lemma_escape_leaves_ampersand(s.drop_last());
        let j = choose|j: int|
            0 <= j < escape_markup(s.drop_last()).len() && #[trigger] escape_markup(
                s.drop_last(),
            )[j] == '&';
        assert(escape_markup(s)[j] == '&');
    }
}

/// Sanitizing content a second time lengthens it, for content that holds
/// one of the five markup characters.
pub proof fn lemma_sanitize_grows_with_markup(s: Seq<char>)
    requires
        exists|i: int| 0 <= i < s.len() && is_markup(#[trigger] s[i]),
    ensures
        sanitized(sanitized(s)).len() > sanitized(s).len(),
{
    let keep = |c: char| printable(c);
    let kept = s.filter(keep);
    let i = choose|i: int| 0 <= i < s.len() && is_markup(#[trigger] s[i]);
    s.lemma_filter_contains(keep, i);
    let j = choose|j: int| 0 <= j < kept.len() && kept[j] == s[i];
    assert(is_markup(kept[j]));
    assert forall|k: int| 0 <= k < kept.len() implies printable(#[trigger] kept[k]) by {
        s.lemma_filter_pred(keep, k);
    }
    let once = escape_markup(kept);
    lemma_escape_keeps_printable(kept);
    lemma_filter_all(once, keep);
    lemma_escape_leaves_ampersand(kept);
    let a = choose|a: int| 0 <= a < once.len() && #[trigger] once[a] == '&';
    assert(is_markup(once[a]));
    lemma_escape_length(once);
}

/// Idempotent sanitization: sanitizing content a second time changes
/// nothing if and only if the content holds none of the five markup
/// characters.
pub proof fn lemma_sanitize_idempotent_exactly(s: Seq<char>)
    ensures
        sanitized(sanitized(s)) == sanitized(s) <==> forall|i: int|
            0 <= i < s.len() ==> !is_markup(#[trigger] s[i]),
{
    if forall|i: int| 0 <= i < s.len() ==> !is_markup(#[trigger] s[i]) {
        lemma_sanitize_idempotent(s);
    } else {
        lemma_sanitize_grows_with_markup(s);
    }
}

/// Filtering keeps a sequence whose elements all pass as it is.
pub proof fn lemma_filter_all(s: Seq<char>, keep: spec_fn(char) -> bool)
    requires
        forall|i: int| 0 <= i < s.len() ==> keep(#[trigger] s[i]),
    ensures
        s.filter(keep) == s,
    decreases s.len(),
{
    reveal(Seq::filter);
    if s.len() > 0 {
        lemma_filter_all(s.drop_last(), keep);
        assert(keep(s[s.len() - 1]));
        assert(s.drop_last().push(s.last()) =~= s);
    }
}

/// One event of a document.
pub enum Markup {
    /// The XML declaration.
    Declaration { version: Seq<char>, encoding: Seq<char> },
    /// The start tag of an element.
    Open { name: Seq<char>, attributes: Seq<(Seq<char>, Seq<char>)> },
    /// The end tag of an element.
    Close { name: Seq<char> },
    /// An element without content.
    Empty { name: Seq<char>, attributes: Seq<(Seq<char>, Seq<char>)> },
    /// Text, which is escaped when it is written.
    Text { content: Seq<char> },
}

/// What is written for one event.
pub open spec fn markup_text(m: Markup) -> Seq<char> {
    match m {
        Markup::Declaration { version, encoding } => declaration(version, encoding),
        Markup::Open { name, attributes } => start_tag(name, attributes),
        Markup::Close { name } => end_tag(name),
        Markup::Empty { name, attributes } => empty_tag(name, attributes),
        Markup::Text { content } => escaped(content),
    }
}

/// What is written for a sequence of events: the texts of the events, one
/// after the other, with nothing between them.
pub open spec fn document_text(events: Seq<Markup>) -> Seq<char>
    decreases events.len(),
{
    if events.len() == 0 {
        Seq::empty()
    } else {
        document_text(events.drop_last()) + markup_text(events.last())
    }
}

/// The bytes that are written for a sequence of events.
pub open spec fn document_bytes(events: Seq<Markup>) -> Seq<u8> {
    encode_utf8(document_text(events))
}

/// The text of two sequences of events, one after the other.
pub proof fn lemma_document_text_concat(a: Seq<Markup>, b: Seq<Markup>)
    ensures
        document_text(a + b) == document_text(a) + document_text(b),
    decreases b.len(),
{
    if b.len() == 0 {
        assert(a + b == a);
    } else {
        lemma_document_text_concat(a, b.drop_last());
        assert((a + b).drop_last() == a + b.drop_last());
        assert((a + b).last() == b.last());
    }
}

/// The text of a single event.
pub proof fn lemma_document_text_one(m: Markup)
    ensures
        document_text(seq![m]) == markup_text(m),
{
    let s = seq![m];
    assert(s.drop_last() == Seq::<Markup>::empty());
    assert(document_text(s.drop_last()) == Seq::<char>::empty());
    assert(s.last() == m);
}

/// The encoding of two texts, one after the other.
pub proof fn lemma_encode_concat(a: Seq<char>, b: Seq<char>)
    ensures
        encode_utf8(a + b) == encode_utf8(a) + encode_utf8(b),
    decreases a.len(),
{
    if a.len() == 0 {
        assert(a + b == b);
    } else {
        lemma_encode_concat(a.drop_first(), b);
        assert((a + b).drop_first() == a.drop_first() + b);
        assert((a + b)[0] == a[0]);
    }
}

/// The bytes of two sequences of events, one after the other.
pub proof fn lemma_document_bytes_concat(a: Seq<Markup>, b: Seq<Markup>)
    ensures
        document_bytes(a + b) == document_bytes(a) + document_bytes(b),
{
    lemma_document_text_concat(a, b);
    lemma_encode_concat(document_text(a), document_text(b));
}

/// An element with text content.
pub open spec fn element(name: Seq<char>, content: Seq<char>) -> Seq<Markup> {
    seq![
        Markup::Open { name, attributes: Seq::empty() },
        Markup::Text { content },
        Markup::Close { name },
    ]
}

/// An element with text content, which is left out where the content is
/// empty.
pub open spec fn optional_element(name: Seq<char>, content: Seq<char>) -> Seq<Markup> {
    if content.len() == 0 {
        Seq::empty()
    } else {
        element(name, content)
    }
}

/// The elements of a list of fields, each given by its name and its
/// content: the fields with empty content are left out.
pub open spec fn optional_elements(fields: Seq<(Seq<char>, Seq<char>)>) -> Seq<Markup>
    decreases fields.len(),
{
    if fields.len() == 0 {
        Seq::empty()
    } else {
        optional_elements(fields.drop_last()) + optional_element(fields.last().0, fields.last().1)
    }
}

/// The scalar fields of a channel that are written, in the order in which
/// they are written, each with the name of its element.
pub open spec fn channel_fields(feed: Feed) -> Seq<(Seq<char>, Seq<char>)> {
    seq![
        ("title"@, feed.title),
        ("link"@, feed.link),
        ("description"@, feed.description),
        ("language"@, feed.language),
        ("pubDate"@, feed.pub_date),
        ("lastBuildDate"@, feed.last_build_date),
        ("docs"@, feed.docs),
        ("generator"@, feed.generator),
        ("managingEditor"@, feed.managing_editor),
        ("webMaster"@, feed.webmaster),
        ("category"@, feed.category),
        ("ttl"@, feed.ttl),
    ]
}

/// The scalar elements of a channel.
pub open spec fn channel_elements(feed: Feed) -> Seq<Markup> {
    optional_elements(channel_fields(feed))
}

/// The image block of a channel: the address of the image, then the title
/// and the link of the feed. It is left out where the feed has no image
/// address.
pub open spec fn image_elements(feed: Feed) -> Seq<Markup> {
    if feed.image_url.len() == 0 {
        Seq::empty()
    } else {
        seq![Markup::Open { name: "image"@, attributes: Seq::empty() }] + element(
            "url"@,
            feed.image_url,
        ) + element("title"@, feed.title) + element("link"@, feed.link) + seq![
            Markup::Close { name: "image"@ },
        ]
    }
}

/// The attributes of the Atom link of a feed.
pub open spec fn atom_link_attributes(address: Seq<char>) -> Seq<(Seq<char>, Seq<char>)> {
    seq![("href"@, address), ("rel"@, "self"@), ("type"@, "application/rss+xml"@)]
}

/// The Atom link of a channel, an element without content that refers to
/// the feed itself. It is left out where the feed has no Atom link.
pub open spec fn atom_link_elements(feed: Feed) -> Seq<Markup> {
    if feed.atom_link.len() == 0 {
        Seq::empty()
    } else {
        seq![
            Markup::Empty { name: "atom:link"@, attributes: atom_link_attributes(feed.atom_link) },
        ]
    }
}

/// The fields of an item that are written, in the order in which they are
/// written, each with the name of its element.
pub open spec fn item_fields(item: Item) -> Seq<(Seq<char>, Seq<char>)> {
    seq![
        ("title"@, item.title),
        ("link"@, item.link),
        ("description"@, item.description),
        ("guid"@, item.guid),
        ("pubDate"@, item.pub_date),
        ("author"@, item.author),
    ]
}

/// The block of one item.
pub open spec fn item_elements(item: Item) -> Seq<Markup> {
    seq![Markup::Open { name: "item"@, attributes: Seq::empty() }] + optional_elements(
        item_fields(item),
    ) + seq![Markup::Close { name: "item"@ }]
}

/// The blocks of the items, in order.
pub open spec fn items_elements(items: Seq<Item>) -> Seq<Markup>
    decreases items.len(),
{
    if items.len() == 0 {
        Seq::empty()
    } else {
        items_elements(items.drop_last()) + item_elements(items.last())
    }
}

/// The name of the root element of a dialect.
pub open spec fn root_name(version: RssVersion) -> Seq<char> {
    match version {
        RssVersion::RSS1_0 => "rdf:RDF"@,
        _ => "rss"@,
    }
}

/// The attributes of the root element of a dialect.
pub open spec fn root_attributes(version: RssVersion) -> Seq<(Seq<char>, Seq<char>)> {
    match version {
        RssVersion::RSS0_90 => seq![("version"@, "0.90"@)],
        RssVersion::RSS0_91 => seq![("version"@, "0.91"@)],
        RssVersion::RSS0_92 => seq![("version"@, "0.92"@)],
        RssVersion::RSS1_0 => seq![
            ("xmlns:rdf"@, "http://www.w3.org/1999/02/22-rdf-syntax-ns#"@),
            ("xmlns"@, "http://purl.org/rss/1.0/"@),
        ],
        RssVersion::RSS2_0 => seq![
            ("version"@, "2.0"@),
            ("xmlns:atom"@, "http://www.w3.org/2005/Atom"@),
        ],
    }
}

/// What only an RSS 2.0 channel has: the image block and the Atom link.
pub open spec fn extension_elements(feed: Feed) -> Seq<Markup> {
    match feed.version {
        RssVersion::RSS2_0 => image_elements(feed) + atom_link_elements(feed),
        _ => Seq::empty(),
    }
}

/// What stands inside the root element: the channel with its scalar
/// elements, its extensions and its items.
pub open spec fn channel(feed: Feed) -> Seq<Markup> {
    seq![Markup::Open { name: "channel"@, attributes: Seq::empty() }] + channel_elements(feed)
        + extension_elements(feed) + items_elements(feed.items) + seq![
        Markup::Close { name: "channel"@ },
    ]
}

/// The root element of the document of a feed, with all that stands in it.
pub open spec fn root_element(feed: Feed) -> Seq<Markup> {
    seq![
        Markup::Open { name: root_name(feed.version), attributes: root_attributes(feed.version) },
    ] + channel(feed) + seq![Markup::Close { name: root_name(feed.version) }]
}

/// The document of a feed: the XML declaration and the root element.
pub open spec fn document(feed: Feed) -> Seq<Markup> {
    seq![Markup::Declaration { version: "1.0"@, encoding: "utf-8"@ }] + root_element(feed)
}

/// What a step of writing leaves behind: it succeeds, and the bytes of
/// the events have been added to what was written.
pub open spec fn wrote(
    before: XmlWriter,
    after: XmlWriter,
    r: Result<(), RssError>,
    events: Seq<Markup>,
) -> bool {
    r is Ok && written(after) == written(before) + document_bytes(events)
}

/// Two steps of writing, one after the other, write the events of both.
proof fn lemma_then(
    before: XmlWriter,
    between: XmlWriter,
    after: XmlWriter,
    a: Seq<Markup>,
    b: Seq<Markup>,
)
    requires
        written(between) == written(before) + document_bytes(a),
        written(after) == written(between) + document_bytes(b),
    ensures
        written(after) == written(before) + document_bytes(a + b),
{
    lemma_document_bytes_concat(a, b);
    assert(written(before) + document_bytes(a) + document_bytes(b) =~= written(before) + (
    document_bytes(a) + document_bytes(b)));
}

/// A step that writes nothing.
proof fn lemma_nothing(w: XmlWriter)
    ensures
        written(w) == written(w) + document_bytes(Seq::<Markup>::empty()),
{
    assert(document_bytes(Seq::<Markup>::empty()) =~= Seq::<u8>::empty());
    assert(written(w) + Seq::<u8>::empty() =~= written(w));
}

fn emit_open(writer: &mut XmlWriter, name: &str, attributes: &[(String, String)]) -> (r: Result<
    (),
    RssError,
>)
    ensures
        wrote(
            *old(writer),
            *final(writer),
            r,
            seq![Markup::Open { name: name@, attributes: attribute_texts(attributes@) }],
        ),
{
    proof {
        lemma_document_text_one(
            Markup::Open { name: name@, attributes: attribute_texts(attributes@) },
        );
    }
    match write_start(writer, name, attributes) {
        Ok(()) => Ok(()),
        Err(e) => Err(RssError::from(e)),
    }
}

fn emit_empty(writer: &mut XmlWriter, name: &str, attributes: &[(String, String)]) -> (r: Result<
    (),
    RssError,
>)
    ensures
        wrote(
            *old(writer),
            *final(writer),
            r,
            seq![Markup::Empty { name: name@, attributes: attribute_texts(attributes@) }],
        ),
{
    proof {
        lemma_document_text_one(
            Markup::Empty { name: name@, attributes: attribute_texts(attributes@) },
        );
    }
    match write_empty(writer, name, attributes) {
        Ok(()) => Ok(()),
        Err(e) => Err(RssError::from(e)),
    }
}

fn emit_close(writer: &mut XmlWriter, name: &str) -> (r: Result<(), RssError>)
    ensures
        wrote(*old(writer), *final(writer), r, seq![Markup::Close { name: name@ }]),
{
    proof {
        lemma_document_text_one(Markup::Close { name: name@ });
    }
    match write_end(writer, name) {
        Ok(()) => Ok(()),
        Err(e) => Err(RssError::from(e)),
    }
}

fn emit_text(writer: &mut XmlWriter, content: &str) -> (r: Result<(), RssError>)
    ensures
        wrote(*old(writer), *final(writer), r, seq![Markup::Text { content: content@ }]),
{
    proof {
        lemma_document_text_one(Markup::Text { content: content@ });
    }
    match write_text(writer, content) {
        Ok(()) => Ok(()),
        Err(e) => Err(RssError::from(e)),
    }
}

/// The start tag of an element without attributes.
fn emit_plain_open(writer: &mut XmlWriter, name: &str) -> (r: Result<(), RssError>)
    ensures
        wrote(
            *old(writer),
            *final(writer),
            r,
            seq![Markup::Open { name: name@, attributes: Seq::empty() }],
        ),
{
    let none: Vec<(String, String)> = Vec::new();
    proof {
        assert(attribute_texts(none@) =~= Seq::empty());
    }
    emit_open(writer, name, none.as_slice())
}

/// Writes an XML element with the given name and content.
pub fn write_element(writer: &mut XmlWriter, name: &str, content: &str) -> (r: Result<
    (),
    RssError,
>)
    ensures
        wrote(*old(writer), *final(writer), r, element(name@, content@)),
{
    let ghost open = seq![Markup::Open { name: name@, attributes: Seq::empty() }];
    let ghost text = seq![Markup::Text { content: content@ }];
    let ghost close = seq![Markup::Close { name: name@ }];
    let ghost w0 = *writer;
    emit_plain_open(writer, name)?;
    let ghost w1 = *writer;
    emit_text(writer, content)?;
    let ghost w2 = *writer;
    emit_close(writer, name)?;
    proof {
        lemma_then(w0, w1, w2, open, text);
        lemma_then(w0, w2, *writer, open + text, close);
        assert(open + text + close =~= element(name@, content@));
    }
    Ok(())
}

/// Writes the XML declaration to the writer.
pub fn write_xml_declaration(writer: &mut XmlWriter) -> (r: Result<(), RssError>)
    ensures
        wrote(
            *old(writer),
            *final(writer),
            r,
            seq![Markup::Declaration { version: "1.0"@, encoding: "utf-8"@ }],
        ),
{
    proof {
        lemma_document_text_one(Markup::Declaration { version: "1.0"@, encoding: "utf-8"@ });
    }
    match write_declaration(writer, XML_VERSION, XML_ENCODING) {
        Ok(()) => Ok(()),
        Err(e) => Err(RssError::from(e)),
    }
}

/// The names and contents of a list of fields, as texts.
pub open spec fn field_texts(fields: Seq<(&str, &str)>) -> Seq<(Seq<char>, Seq<char>)> {
    Seq::new(fields.len(), |i: int| (fields[i].0@, fields[i].1@))
}

/// Writes the elements of a list of fields and leaves out those with empty
/// content.
fn write_fields(writer: &mut XmlWriter, fields: &Vec<(&str, &str)>) -> (r: Result<(), RssError>)
    ensures
        wrote(*old(writer), *final(writer), r, optional_elements(field_texts(fields@))),
{
    let ghost all = field_texts(fields@);
    let mut i: usize = 0;
    proof {
        assert(optional_elements(all.take(0)) == Seq::<Markup>::empty());
        lemma_nothing(*writer);
    }
    while i < fields.len()
        invariant
            i <= fields@.len(),
            all == field_texts(fields@),
            written(*writer) == written(*old(writer)) + document_bytes(
                optional_elements(all.take(i as int)),
            ),
        decreases fields@.len() - i,
    {
        let name = fields[i].0;
        let content = fields[i].1;
        let ghost done = optional_elements(all.take(i as int));
        let ghost here = *writer;
        proof {
            let next = all.take(i + 1);
            assert(next.drop_last() == all.take(i as int));
            assert(next.last() == all[i as int]);
            assert(optional_elements(next) == done + optional_element(name@, content@));
        }
        if !content.is_empty() {
            write_element(writer, name, content)?;
        } else {
            proof {
                lemma_nothing(here);
            }
        }
        proof {
            lemma_then(*old(writer), here, *writer, done, optional_element(name@, content@));
        }
        i += 1;
    }
    proof {
        assert(all.take(fields@.len() as int) == all);
    }
    Ok(())
}

/// Writes the channel elements to the writer.
pub fn write_channel_elements(writer: &mut XmlWriter, options: &RssData) -> (r: Result<
    (),
    RssError,
>)
    ensures
        wrote(*old(writer), *final(writer), r, channel_elements(options@)),
{
    let mut fields: Vec<(&str, &str)> = Vec::new();
    fields.push(("title", options.title.as_str()));
    fields.push(("link", options.link.as_str()));
    fields.push(("description", options.description.as_str()));
    fields.push(("language", options.language.as_str()));
    fields.push(("pubDate", options.pub_date.as_str()));
    fields.push(("lastBuildDate", options.last_build_date.as_str()));
    fields.push(("docs", options.docs.as_str()));
    fields.push(("generator", options.generator.as_str()));
    fields.push(("managingEditor", options.managing_editor.as_str()));
    fields.push(("webMaster", options.webmaster.as_str()));
    fields.push(("category", options.category.as_str()));
    fields.push(("ttl", options.ttl.as_str()));
    proof {
        assert(field_texts(fields@) =~= channel_fields(options@));
    }
    write_fields(writer, &fields)
}

/// Writes the image element to the writer.
pub fn write_image_element(writer: &mut XmlWriter, options: &RssData) -> (r: Result<
    (),
    RssError,
>)
    ensures
        wrote(*old(writer), *final(writer), r, image_elements(options@)),
{
    if !options.image_url.as_str().is_empty() {
        let ghost open = seq![Markup::Open { name: "image"@, attributes: Seq::empty() }];
        let ghost url = element("url"@, options@.image_url);
        let ghost title = element("title"@, options@.title);
        let ghost link = element("link"@, options@.link);
        let ghost close = seq![Markup::Close { name: "image"@ }];
        let ghost w0 = *writer;
        emit_plain_open(writer, "image")?;
        let ghost w1 = *writer;
        write_element(writer, "url", options.image_url.as_str())?;
        let ghost w2 = *writer;
        write_element(writer, "title", options.title.as_str())?;
        let ghost w3 = *writer;
        write_element(writer, "link", options.link.as_str())?;
        let ghost w4 = *writer;
        emit_close(writer, "image")?;
        proof {
            lemma_then(w0, w1, w2, open, url);
            lemma_then(w0, w2, w3, open + url, title);
            lemma_then(w0, w3, w4, open + url + title, link);
            lemma_then(w0, w4, *writer, open + url + title + link, close);
        }
    } else {
        proof {
            lemma_nothing(*writer);
        }
    }
    Ok(())
}

/// Writes the Atom link element to the writer.
pub fn write_atom_link_element(writer: &mut XmlWriter, options: &RssData) -> (r: Result<
    (),
    RssError,
>)
    ensures
        wrote(*old(writer), *final(writer), r, atom_link_elements(options@)),
{
    if !options.atom_link.as_str().is_empty() {
        let mut attributes: Vec<(String, String)> = Vec::new();
        attributes.push(("href".to_owned(), options.atom_link.clone()));
        attributes.push(("rel".to_owned(), "self".to_owned()));
        attributes.push(("type".to_owned(), "application/rss+xml".to_owned()));
        proof {
            assert(attribute_texts(attributes@) =~= atom_link_attributes(options@.atom_link));
        }
        emit_empty(writer, "atom:link", attributes.as_slice())?;
    } else {
        proof {
            lemma_nothing(*writer);
        }
    }
    Ok(())
}

/// Writes a single item element to the RSS feed.
pub fn write_item(writer: &mut XmlWriter, item: &RssItem) -> (r: Result<(), RssError>)
    ensures
        wrote(*old(writer), *final(writer), r, item_elements(item@)),
{
    let ghost open = seq![Markup::Open { name: "item"@, attributes: Seq::empty() }];
    let ghost close = seq![Markup::Close { name: "item"@ }];
    let ghost w0 = *writer;
    emit_plain_open(writer, "item")?;
    let ghost w1 = *writer;
    let mut fields: Vec<(&str, &str)> = Vec::new();
    fields.push(("title", item.title.as_str()));
    fields.push(("link", item.link.as_str()));
    fields.push(("description", item.description.as_str()));
    fields.push(("guid", item.guid.as_str()));
    fields.push(("pubDate", item.pub_date.as_str()));
    fields.push(("author", item.author.as_str()));
    proof {
        assert(field_texts(fields@) =~= item_fields(item@));
    }
    write_fields(writer, &fields)?;
    let ghost w2 = *writer;
    emit_close(writer, "item")?;
    proof {
        let inner = optional_elements(item_fields(item@));
        lemma_then(w0, w1, w2, open, inner);
        lemma_then(w0, w2, *writer, open + inner, close);
    }
    Ok(())
}

/// Writes the item elements to the RSS feed.
pub fn write_items(writer: &mut XmlWriter, options: &RssData) -> (r: Result<(), RssError>)
    ensures
        wrote(*old(writer), *final(writer), r, items_elements(options@.items)),
{
    let ghost all = options@.items;
    let mut i: usize = 0;
    proof {
        assert(items_elements(all.take(0)) == Seq::<Markup>::empty());
        lemma_nothing(*writer);
    }
    while i < options.items.len()
        invariant
            i <= options.items@.len(),
            all == options@.items,
            written(*writer) == written(*old(writer)) + document_bytes(
                items_elements(all.take(i as int)),
            ),
        decreases options.items@.len() - i,
    {
        let item = &options.items[i];
        let ghost here = *writer;
        proof {
            let next = all.take(i + 1);
            assert(next.drop_last() == all.take(i as int));
            assert(next.last() == item@);
        }
        write_item(writer, item)?;
        proof {
            lemma_then(
                *old(writer),
                here,
                *writer,
                items_elements(all.take(i as int)),
                item_elements(item@),
            );
        }
        i += 1;
    }
    proof {
        assert(all.take(options.items@.len() as int) == all);
    }
    Ok(())
}

/// What stands inside the root element of the given dialect.
fn write_channel(writer: &mut XmlWriter, options: &RssData, version: RssVersion) -> (r: Result<
    (),
    RssError,
>)
    ensures
        wrote(*old(writer), *final(writer), r, channel(Feed { version, ..options@ })),
{
    let ghost feed = Feed { version, ..options@ };
    let ghost open = seq![Markup::Open { name: "channel"@, attributes: Seq::empty() }];
    let ghost scalars = channel_elements(feed);
    let ghost extensions = extension_elements(feed);
    let ghost items = items_elements(feed.items);
    let ghost close = seq![Markup::Close { name: "channel"@ }];
    proof {
        assert(channel_fields(feed) == channel_fields(options@));
    }
    let ghost w0 = *writer;
    emit_plain_open(writer, "channel")?;
    let ghost w1 = *writer;
    write_channel_elements(writer, options)?;
    let ghost w2 = *writer;
    if matches!(version, RssVersion::RSS2_0) {
        write_image_element(writer, options)?;
        let ghost between = *writer;
        write_atom_link_element(writer, options)?;
        proof {
            assert(image_elements(feed) == image_elements(options@));
            assert(atom_link_elements(feed) == atom_link_elements(options@));
            lemma_then(w2, between, *writer, image_elements(feed), atom_link_elements(feed));
        }
    } else {
        proof {
            lemma_nothing(w2);
        }
    }
    let ghost w3 = *writer;
    write_items(writer, options)?;
    let ghost w4 = *writer;
    emit_close(writer, "channel")?;
    proof {
        lemma_then(w0, w1, w2, open, scalars);
        lemma_then(w0, w2, w3, open + scalars, extensions);
        lemma_then(w0, w3, w4, open + scalars + extensions, items);
        lemma_then(w0, w4, *writer, open + scalars + extensions + items, close);
    }
    Ok(())
}

/// The name of the root element of a dialect.
fn root_name_of(version: RssVersion) -> (name: &'static str)
    ensures
        name@ == root_name(version),
{
    match version {
        RssVersion::RSS1_0 => "rdf:RDF",
        _ => "rss",
    }
}

/// The attributes of the root element of a dialect.
fn root_attributes_of(version: RssVersion) -> (attributes: Vec<(String, String)>)
    ensures
        attribute_texts(attributes@) == root_attributes(version),
{
    let mut attributes: Vec<(String, String)> = Vec::new();
    match version {
        RssVersion::RSS0_90 => {
            attributes.push(("version".to_owned(), "0.90".to_owned()));
        },
        RssVersion::RSS0_91 => {
            attributes.push(("version".to_owned(), "0.91".to_owned()));
        },
        RssVersion::RSS0_92 => {
            attributes.push(("version".to_owned(), "0.92".to_owned()));
        },
        RssVersion::RSS1_0 => {
            attributes.push(
                ("xmlns:rdf".to_owned(), "http://www.w3.org/1999/02/22-rdf-syntax-ns#".to_owned()),
            );
            attributes.push(("xmlns".to_owned(), "http://purl.org/rss/1.0/".to_owned()));
        },
        RssVersion::RSS2_0 => {
            attributes.push(("version".to_owned(), "2.0".to_owned()));
            attributes.push(("xmlns:atom".to_owned(), "http://www.w3.org/2005/Atom".to_owned()));
        },
    }
    proof {
        assert(attribute_texts(attributes@) =~= root_attributes(version));
    }
    attributes
}

/// The root element of the given dialect, with all that stands in it.
fn write_root(writer: &mut XmlWriter, options: &RssData, version: RssVersion) -> (r: Result<
    (),
    RssError,
>)
    ensures
        wrote(*old(writer), *final(writer), r, root_element(Feed { version, ..options@ })),
{
    let ghost feed = Feed { version, ..options@ };
    let name = root_name_of(version);
    let attributes = root_attributes_of(version);
    let ghost open = seq![
        Markup::Open { name: root_name(version), attributes: root_attributes(version) },
    ];
    let ghost close = seq![Markup::Close { name: root_name(version) }];
    let ghost w0 = *writer;
    emit_open(writer, name, attributes.as_slice())?;
    let ghost w1 = *writer;
    write_channel(writer, options, version)?;
    let ghost w2 = *writer;
    emit_close(writer, name)?;
    proof {
        lemma_then(w0, w1, w2, open, channel(feed));
        lemma_then(w0, w2, *writer, open + channel(feed), close);
    }
    Ok(())
}

/// Writes the RSS 0.90 channel element and its contents.
pub fn write_rss_channel_0_90(writer: &mut XmlWriter, options: &RssData) -> (r: Result<
    (),
    RssError,
>)
    ensures
        wrote(
            *old(writer),
            *final(writer),
            r,
            root_element(Feed { version: RssVersion::RSS0_90, ..options@ }),
        ),
{
    write_root(writer, options, RssVersion::RSS0_90)
}

/// Writes the RSS 0.91 channel element and its contents.
pub fn write_rss_channel_0_91(writer: &mut XmlWriter, options: &RssData) -> (r: Result<
    (),
    RssError,
>)
    ensures
        wrote(
            *old(writer),
            *final(writer),
            r,
            root_element(Feed { version: RssVersion::RSS0_91, ..options@ }),
        ),
{
    write_root(writer, options, RssVersion::RSS0_91)
}

/// Writes the RSS 0.92 channel element and its contents.
pub fn write_rss_channel_0_92(writer: &mut XmlWriter, options: &RssData) -> (r: Result<
    (),
    RssError,
>)
    ensures
        wrote(
            *old(writer),
            *final(writer),
            r,
            root_element(Feed { version: RssVersion::RSS0_92, ..options@ }),
        ),
{
    write_root(writer, options, RssVersion::RSS0_92)
}

/// Writes the RSS 1.0 channel element and its contents.
pub fn write_rss_channel_1_0(writer: &mut XmlWriter, options: &RssData) -> (r: Result<
    (),
    RssError,
>)
    ensures
        wrote(
            *old(writer),
            *final(writer),
            r,
            root_element(Feed { version: RssVersion::RSS1_0, ..options@ }),
        ),
{
    write_root(writer, options, RssVersion::RSS1_0)
}

/// Writes the RSS 2.0 channel element and its contents.
pub fn write_rss_channel_2_0(writer: &mut XmlWriter, options: &RssData) -> (r: Result<
    (),
    RssError,
>)
    ensures
        wrote(
            *old(writer),
            *final(writer),
            r,
            root_element(Feed { version: RssVersion::RSS2_0, ..options@ }),
        ),
{
    write_root(writer, options, RssVersion::RSS2_0)
}

/// What generating a feed comes to.
///
/// A feed that fails the basic check is refused with all that the check
/// found. For every other feed the result is the text of its document.
pub open spec fn generated(feed: Feed, r: Result<String, RssError>) -> bool {
    if feed_errors(feed).len() > 0 {
        r matches Err(e) && e@ == Failure::ValidationErrors(feed_errors(feed))
    } else {
        r matches Ok(xml) && xml@ == document_text(document(feed))
    }
}

/// Generates an RSS feed from the given `RssData` struct, in the dialect
/// that the feed names.
pub fn generate_rss(options: &RssData) -> (r: Result<String, RssError>)
    ensures
        generated(options@, r),
{
    options.validate()?;
    let mut writer = XmlWriter::new();
    let ghost decl = seq![Markup::Declaration { version: "1.0"@, encoding: "utf-8"@ }];
    let ghost w0 = writer;
    write_xml_declaration(&mut writer)?;
    let ghost w1 = writer;
    match options.version {
        RssVersion::RSS0_90 => {
            write_rss_channel_0_90(&mut writer, options)?;
        },
        RssVersion::RSS0_91 => {
            write_rss_channel_0_91(&mut writer, options)?;
        },
        RssVersion::RSS0_92 => {
            write_rss_channel_0_92(&mut writer, options)?;
        },
        RssVersion::RSS1_0 => {
            write_rss_channel_1_0(&mut writer, options)?;
        },
        RssVersion::RSS2_0 => {
            write_rss_channel_2_0(&mut writer, options)?;
        },
    }
    proof {
        assert((Feed { version: options@.version, ..options@ }) == options@);
        lemma_then(w0, w1, writer, decl, root_element(options@));
        assert(Seq::<u8>::empty() + document_bytes(document(options@)) =~= document_bytes(
            document(options@),
        ));
        encode_utf8_valid_utf8(document_text(document(options@)));
        encode_utf8_decode_utf8(document_text(document(options@)));
    }
    let xml = writer.into_bytes();
    match String::from_utf8(xml) {
        Ok(text) => Ok(text),
        Err(e) => Err(RssError::from(e)),
    }
}

/// Whether an event is a tag of the element of the given name.
pub open spec fn is_tag(m: Markup, name: Seq<char>) -> bool {
    match m {
        Markup::Open { name: n, .. } => n == name,
        Markup::Close { name: n } => n == name,
        Markup::Empty { name: n, .. } => n == name,
        _ => false,
    }
}

/// Whether a sequence of events holds a tag of the element of the given
/// name.
pub open spec fn mentions(events: Seq<Markup>, name: Seq<char>) -> bool {
    exists|i: int| 0 <= i < events.len() && is_tag(#[trigger] events[i], name)
}

/// An element that is written for a list of fields is the element of a
/// field whose content is not empty.
pub proof fn lemma_written_fields_have_content(fields: Seq<(Seq<char>, Seq<char>)>, name: Seq<char>)
    requires
        mentions(optional_elements(fields), name),
    ensures
        exists|j: int| 0 <= j < fields.len() && (#[trigger] fields[j]).0 == name && fields[j].1.len() > 0,
    decreases fields.len(),
{
    let events = optional_elements(fields);
    let i = choose|i: int| 0 <= i < events.len() && is_tag(#[trigger] events[i], name);
    if fields.len() > 0 {
        let before = optional_elements(fields.drop_last());
        let last = fields.last();
        if i < before.len() {
            assert(before[i] == events[i]);
            lemma_written_fields_have_content(fields.drop_last(), name);
            let j = choose|j: int|
                0 <= j < fields.drop_last().len() && (#[trigger] fields.drop_last()[j]).0 == name
                    && fields.drop_last()[j].1.len() > 0;
            assert(fields[j] == fields.drop_last()[j]);
        } else {
            let here = optional_element(last.0, last.1);
            assert(events[i] == here[i - before.len()]);
            assert(fields[fields.len() - 1] == last);
        }
    }
}

/// Omit if empty: a field whose content is empty has no element among those
/// written for a list of fields, provided that no other field of the list
/// has its name.
pub proof fn lemma_empty_field_is_omitted(fields: Seq<(Seq<char>, Seq<char>)>, k: int)
    requires
        0 <= k < fields.len(),
        fields[k].1.len() == 0,
        forall|j: int| 0 <= j < fields.len() && j != k ==> (#[trigger] fields[j]).0 != fields[k].0,
    ensures
        !mentions(optional_elements(fields), fields[k].0),
{
    if mentions(optional_elements(fields), fields[k].0) {
        lemma_written_fields_have_content(fields, fields[k].0);
    }
}

/// The names of the twelve scalar elements of a channel differ from one
/// another, as do the names of the six elements of an item.
pub proof fn lemma_field_names_differ(feed: Feed, item: Item)
    ensures
        forall|j: int, k: int|
            0 <= j < k < 12 ==> (#[trigger] channel_fields(feed)[j]).0 != (
            #[trigger] channel_fields(feed)[k]).0,
        forall|j: int, k: int|
            0 <= j < k < 6 ==> (#[trigger] item_fields(item)[j]).0 != (#[trigger] item_fields(
                item,
            )[k]).0,
{
    reveal_strlit("title");
    reveal_strlit("link");
    reveal_strlit("description");
    reveal_strlit("language");
    reveal_strlit("pubDate");
    reveal_strlit("lastBuildDate");
    reveal_strlit("docs");
    reveal_strlit("generator");
    reveal_strlit("managingEditor");
    reveal_strlit("webMaster");
    reveal_strlit("category");
    reveal_strlit("ttl");
    reveal_strlit("guid");
    reveal_strlit("author");
    assert("title"@.len() == 5);
    assert("link"@.len() == 4 && "link"@[0] == 'l');
    assert("description"@.len() == 11);
    assert("language"@.len() == 8 && "language"@[0] == 'l');
    assert("pubDate"@.len() == 7);
    assert("lastBuildDate"@.len() == 13);
    assert("docs"@.len() == 4 && "docs"@[0] == 'd');
    assert("generator"@.len() == 9 && "generator"@[0] == 'g');
    assert("managingEditor"@.len() == 14);
    assert("webMaster"@.len() == 9 && "webMaster"@[0] == 'w');
    assert("category"@.len() == 8 && "category"@[0] == 'c');
    assert("ttl"@.len() == 3);
    assert("guid"@.len() == 4 && "guid"@[0] == 'g');
    assert("author"@.len() == 6);
}

/// Omit if empty, for a feed: a scalar field of the channel whose value is
/// empty has no element among the scalar elements of the channel, a field
/// of an item whose value is empty has no element in the block of the item,
/// and a feed without image address or Atom link has no image block or Atom
/// link.
pub proof fn lemma_omit_if_empty(feed: Feed, item: Item)
    ensures
        forall|k: int|
            0 <= k < 12 && (#[trigger] channel_fields(feed)[k]).1.len() == 0 ==> !mentions(
                channel_elements(feed),
                channel_fields(feed)[k].0,
            ),
        forall|k: int|
            0 <= k < 6 && (#[trigger] item_fields(item)[k]).1.len() == 0 ==> !mentions(
                optional_elements(item_fields(item)),
                item_fields(item)[k].0,
            ),
        feed.image_url.len() == 0 ==> image_elements(feed) == Seq::<Markup>::empty(),
        feed.atom_link.len() == 0 ==> atom_link_elements(feed) == Seq::<Markup>::empty(),
{
    lemma_field_names_differ(feed, item);
    assert forall|k: int|
        0 <= k < 12 && (#[trigger] channel_fields(feed)[k]).1.len() == 0 implies !mentions(
        channel_elements(feed),
        channel_fields(feed)[k].0,
    ) by {
        lemma_empty_field_is_omitted(channel_fields(feed), k);
    }
    assert forall|k: int|
        0 <= k < 6 && (#[trigger] item_fields(item)[k]).1.len() == 0 implies !mentions(
        optional_elements(item_fields(item)),
        item_fields(item)[k].0,
    ) by {
        lemma_empty_field_is_omitted(item_fields(item), k);
    }
}

/// Whether every text event of a sequence has content.
pub open spec fn solid(events: Seq<Markup>) -> bool {
    forall|i: int|
        0 <= i < events.len() ==> match #[trigger] events[i] {
            Markup::Text { content } => content.len() > 0,
            _ => true,
        }
}

proof fn lemma_solid_concat(a: Seq<Markup>, b: Seq<Markup>)
    requires
        solid(a),
        solid(b),
    ensures
        solid(a + b),
{
    assert forall|i: int| 0 <= i < (a + b).len() implies match #[trigger] (a + b)[i] {
        Markup::Text { content } => content.len() > 0,
        _ => true,
    } by {
        if i < a.len() {
            assert((a + b)[i] == a[i]);
        } else {
            assert((a + b)[i] == b[i - a.len()]);
        }
    }
}

proof fn lemma_solid_fields(fields: Seq<(Seq<char>, Seq<char>)>)
    ensures
        solid(optional_elements(fields)),
    decreases fields.len(),
{
    if fields.len() > 0 {
        lemma_solid_fields(fields.drop_last());
        lemma_solid_concat(
            optional_elements(fields.drop_last()),
            optional_element(fields.last().0, fields.last().1),
        );
    }
}

proof fn lemma_solid_items(items: Seq<Item>)
    ensures
        solid(items_elements(items)),
    decreases items.len(),
{
    if items.len() > 0 {
        lemma_solid_items(items.drop_last());
        let item = items.last();
        let open = seq![Markup::Open { name: "item"@, attributes: Seq::empty() }];
        let close = seq![Markup::Close { name: "item"@ }];
        lemma_solid_fields(item_fields(item));
        lemma_solid_concat(open, optional_elements(item_fields(item)));
        lemma_solid_concat(open + optional_elements(item_fields(item)), close);
        lemma_solid_concat(items_elements(items.drop_last()), item_elements(item));
    }
}

/// Omit if empty, for a document: no text of the document of a feed is
/// empty, provided that the feed has a title and a link, as every feed that
/// is generated has.
pub proof fn lemma_no_empty_text(feed: Feed)
    requires
        feed.title.len() > 0,
        feed.link.len() > 0,
    ensures
        solid(document(feed)),
{
    let open = seq![Markup::Open { name: "channel"@, attributes: Seq::empty() }];
    let close = seq![Markup::Close { name: "channel"@ }];
    lemma_solid_fields(channel_fields(feed));
    lemma_solid_items(feed.items);
    assert(solid(image_elements(feed))) by {
        if feed.image_url.len() > 0 {
            let a = seq![Markup::Open { name: "image"@, attributes: Seq::empty() }];
            let b = element("url"@, feed.image_url);
            let c = element("title"@, feed.title);
            let d = element("link"@, feed.link);
            let e = seq![Markup::Close { name: "image"@ }];
            lemma_solid_concat(a, b);
            lemma_solid_concat(a + b, c);
            lemma_solid_concat(a + b + c, d);
            lemma_solid_concat(a + b + c + d, e);
        }
    }
    assert(solid(extension_elements(feed))) by {
        lemma_solid_concat(image_elements(feed), atom_link_elements(feed));
    }
    lemma_solid_concat(open, channel_elements(feed));
    lemma_solid_concat(open + channel_elements(feed), extension_elements(feed));
    lemma_solid_concat(
        open + channel_elements(feed) + extension_elements(feed),
        items_elements(feed.items),
    );
    lemma_solid_concat(
        open + channel_elements(feed) + extension_elements(feed) + items_elements(feed.items),
        close,
    );
    let root = seq![
        Markup::Open { name: root_name(feed.version), attributes: root_attributes(feed.version) },
    ];
    lemma_solid_concat(root, channel(feed));
    lemma_solid_concat(root + channel(feed), seq![Markup::Close { name: root_name(feed.version) }]);
    lemma_solid_concat(
        seq![Markup::Declaration { version: "1.0"@, encoding: "utf-8"@ }],
        root_element(feed),
    );
}

/// What the document of every feed of a dialect begins with: the XML
/// declaration and the start tag of the root element of the dialect.
pub open spec fn prologue(version: RssVersion) -> Seq<char> {
    declaration("1.0"@, "utf-8"@) + start_tag(root_name(version), root_attributes(version))
}

/// Dialect dispatch: the document of a feed begins with the XML
/// declaration, its second event is the start tag of the root element of
/// the dialect, with the name and the attributes of the dialect, and its
/// last event is the end tag of that element. The text of the document
/// begins with the prologue of the dialect and ends with the end tag of its
/// root element.
pub proof fn lemma_dialect_dispatch(feed: Feed)
    ensures
        document(feed).len() >= 5,
        document(feed)[0] == (Markup::Declaration { version: "1.0"@, encoding: "utf-8"@ }),
        document(feed)[1] == (Markup::Open {
            name: root_name(feed.version),
            attributes: root_attributes(feed.version),
        }),
        document(feed).last() == (Markup::Close { name: root_name(feed.version) }),
        has_prefix(document_text(document(feed)), prologue(feed.version)),
        has_suffix(document_text(document(feed)), end_tag(root_name(feed.version))),
{
    let decl = Markup::Declaration { version: "1.0"@, encoding: "utf-8"@ };
    let open = Markup::Open {
        name: root_name(feed.version),
        attributes: root_attributes(feed.version),
    };
    let close = Markup::Close { name: root_name(feed.version) };
    let all = document(feed);
    let inner = channel(feed);
    assert(all =~= seq![decl, open] + inner + seq![close]);
    lemma_document_text_concat(seq![decl, open] + inner, seq![close]);
    lemma_document_text_concat(seq![decl, open], inner);
    lemma_document_text_concat(seq![decl], seq![open]);
    assert(seq![decl] + seq![open] =~= seq![decl, open]);
    lemma_document_text_one(decl);
    lemma_document_text_one(open);
    lemma_document_text_one(close);
    let text = document_text(all);
    let head = prologue(feed.version);
    let rest = document_text(inner);
    let tail = end_tag(root_name(feed.version));
    assert(text == head + rest + tail);
    assert(text.subrange(0, head.len() as int) =~= head);
    assert(text.subrange(text.len() - tail.len(), text.len() as int) =~= tail);
}

} // verus!
