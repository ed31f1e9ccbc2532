//! XML as the `quick_xml` library writes and reads it.
//!
//! Writing: a writer collects the bytes of a document, and each event that
//! is written adds the bytes of its markup. Reading: a reader turns a
//! document into a sequence of tokens and hands them out one by one.

use crate::text::expand;
use quick_xml::events::{BytesDecl, BytesEnd, BytesStart, BytesText, Event};
use std::io::Cursor;
use vstd::prelude::*;
use vstd::utf8::{decode_utf8, encode_utf8, valid_utf8};

verus! {

/// `quick_xml::Writer`, the XML writer. What is in the buffer that it
/// writes to is named `buffer`.
#[verifier::external_type_specification]
#[verifier::external_body]
#[verifier::reject_recursive_types(W)]
pub struct ExWriter<W>(quick_xml::Writer<W>);

/// `std::io::Cursor`, which the writer writes to.
#[verifier::external_type_specification]
#[verifier::external_body]
#[verifier::reject_recursive_types(T)]
pub struct ExCursor<T>(Cursor<T>);

/// `quick_xml::Reader`, the XML reader. What it has yet to hand out is
/// named `pending`.
#[verifier::external_type_specification]
#[verifier::external_body]
#[verifier::reject_recursive_types(R)]
pub struct ExReader<R>(quick_xml::Reader<R>);

/// A writer that collects a document in memory.
///
/// A writer is made empty and is written to through the functions of this
/// module only: it does not indent, and what it writes is added at the end
/// of what it has written. Its buffer is a vector in memory, so that every
/// write to it succeeds.
pub struct XmlWriter {
    writer: quick_xml::Writer<Cursor<Vec<u8>>>,
}

/// The bytes in the buffer that a `quick_xml::Writer` writes to.
pub uninterp spec fn buffer(writer: quick_xml::Writer<Cursor<Vec<u8>>>) -> Seq<u8>;

/// The bytes that have been written to a writer.
pub closed spec fn written(writer: XmlWriter) -> Seq<u8> {
    buffer(writer.writer)
}

/// What stands for `c` in the text and the attribute values of a document:
/// the characters `< > & ' "` are written as entities, every other
/// character as it is.
pub open spec fn xml_entity(c: char) -> Seq<char> {
    if c == '<' {
        seq!['&', 'l', 't', ';']
    } else if c == '>' {
        seq!['&', 'g', 't', ';']
    } else if c == '&' {
        seq!['&', 'a', 'm', 'p', ';']
    } else if c == '\'' {
        seq!['&', 'a', 'p', 'o', 's', ';']
    } else if c == '"' {
        seq!['&', 'q', 'u', 'o', 't', ';']
    } else {
        seq![c]
    }
}

/// `s` as it is written in the text and the attribute values of a document.
pub open spec fn escaped(s: Seq<char>) -> Seq<char> {
    expand(s, |c: char| xml_entity(c))
}

/// The markup of one attribute: a space, the key, and the escaped value
/// between double quotes.
pub open spec fn attribute_markup(attribute: (Seq<char>, Seq<char>)) -> Seq<char> {
    seq![' '] + attribute.0 + seq!['=', '"'] + escaped(attribute.1) + seq!['"']
}

/// The markup of a list of attributes.
pub open spec fn attributes_markup(attributes: Seq<(Seq<char>, Seq<char>)>) -> Seq<char>
    decreases attributes.len(),
{
    if attributes.len() == 0 {
        Seq::empty()
    } else {
        attributes_markup(attributes.drop_last()) + attribute_markup(attributes.last())
    }
}

/// The XML declaration with a version and an encoding.
pub open spec fn declaration(version: Seq<char>, encoding: Seq<char>) -> Seq<char> {
    "<?xml version=\""@ + version + "\" encoding=\""@ + encoding + "\"?>"@
}

/// The start tag of an element.
pub open spec fn start_tag(name: Seq<char>, attributes: Seq<(Seq<char>, Seq<char>)>) -> Seq<char> {
    seq!['<'] + name + attributes_markup(attributes) + seq!['>']
}

/// The tag of an element without content.
pub open spec fn empty_tag(name: Seq<char>, attributes: Seq<(Seq<char>, Seq<char>)>) -> Seq<char> {
    seq!['<'] + name + attributes_markup(attributes) + seq!['/', '>']
}

/// The end tag of an element.
pub open spec fn end_tag(name: Seq<char>) -> Seq<char> {
    seq!['<', '/'] + name + seq!['>']
}

/// The attributes of an element, as texts.
pub open spec fn attribute_texts(v: Seq<(String, String)>) -> Seq<(Seq<char>, Seq<char>)> {
    Seq::new(v.len(), |i: int| (v[i].0@, v[i].1@))
}

/// A writer to which nothing has been written.
///
/// Trusted: `quick_xml::Writer::new` over `std::io::Cursor::new` of an empty
/// vector: a writer without indentation, whose buffer is empty.
#[verifier::external_body]
fn fresh_writer() -> (writer: XmlWriter)
    ensures
        buffer(writer.writer) == Seq::<u8>::empty(),
{
    XmlWriter { writer: quick_xml::Writer::new(Cursor::new(Vec::new())) }
}

/// Writes the XML declaration.
///
/// Trusted: `Writer::write_event` on a `Decl` event made by
/// `BytesDecl::new` from a version and an encoding. The writer is one that
/// `fresh_writer` has made and only the functions of this module have
/// written to, so it does not indent and writes at the end of its buffer.
/// The call fails only where a write to the buffer fails, and a write to a
/// vector in memory does not: the call succeeds, and the declaration has
/// been added to the buffer.
#[verifier::external_body]
fn put_declaration(writer: &mut XmlWriter, version: &str, encoding: &str) -> (r: Result<(), quick_xml::Error>)
    ensures
        r is Ok,
        buffer(final(writer).writer) == buffer(old(writer).writer) + encode_utf8(
            declaration(version@, encoding@),
        ),
{
    writer.writer.write_event(Event::Decl(BytesDecl::new(version, Some(encoding), None)))
}

/// Writes the start tag of an element.
///
/// Trusted: `Writer::write_event` on a `Start` event made by
/// `BytesStart::new` and `with_attributes`, on a writer that does not
/// indent and writes at the end of its buffer, as every `XmlWriter` does.
/// The call fails only where a write to the buffer fails, and a write to a
/// vector in memory does not: the call succeeds, and the start tag has
/// been added to the buffer.
#[verifier::external_body]
fn put_start(writer: &mut XmlWriter, name: &str, attributes: &[(String, String)]) -> (r: Result<(), quick_xml::Error>)
    ensures
        r is Ok,
        buffer(final(writer).writer) == buffer(old(writer).writer) + encode_utf8(
            start_tag(name@, attribute_texts(attributes@)),
        ),
{
    let pairs = attributes.iter().map(|a| (a.0.as_str(), a.1.as_str()));
    writer.writer.write_event(Event::Start(BytesStart::new(name).with_attributes(pairs)))
}

/// Writes the tag of an element without content.
///
/// Trusted: `Writer::write_event` on an `Empty` event made by
/// `BytesStart::new` and `with_attributes`, on a writer that does not
/// indent and writes at the end of its buffer, as every `XmlWriter` does.
/// The call fails only where a write to the buffer fails, and a write to a
/// vector in memory does not: the call succeeds, and the tag has been
/// added to the buffer.
#[verifier::external_body]
fn put_empty(writer: &mut XmlWriter, name: &str, attributes: &[(String, String)]) -> (r: Result<(), quick_xml::Error>)
    ensures
        r is Ok,
        buffer(final(writer).writer) == buffer(old(writer).writer) + encode_utf8(
            empty_tag(name@, attribute_texts(attributes@)),
        ),
{
    let pairs = attributes.iter().map(|a| (a.0.as_str(), a.1.as_str()));
    writer.writer.write_event(Event::Empty(BytesStart::new(name).with_attributes(pairs)))
}

/// Writes the end tag of an element.
///
/// Trusted: `Writer::write_event` on an `End` event made by
/// `BytesEnd::new`, on a writer that does not indent and writes at the end
/// of its buffer, as every `XmlWriter` does. The call fails only where a
/// write to the buffer fails, and a write to a vector in memory does not:
/// the call succeeds, and the end tag has been added to the buffer.
#[verifier::external_body]
fn put_end(writer: &mut XmlWriter, name: &str) -> (r: Result<(), quick_xml::Error>)
    ensures
        r is Ok,
        buffer(final(writer).writer) == buffer(old(writer).writer) + encode_utf8(
            end_tag(name@),
        ),
{
    writer.writer.write_event(Event::End(BytesEnd::new(name)))
}

/// Writes text.
///
/// Trusted: `Writer::write_event` on a `Text` event made by
/// `BytesText::new`, which escapes the text, on a writer that writes at the
/// end of its buffer, as every `XmlWriter` does. The call fails only
/// where a write to the buffer fails, and a write to a vector in memory
/// does not: the call succeeds, and the escaped text has been added to the
/// buffer.
#[verifier::external_body]
fn put_text(writer: &mut XmlWriter, content: &str) -> (r: Result<(), quick_xml::Error>)
    ensures
        r is Ok,
        buffer(final(writer).writer) == buffer(old(writer).writer) + encode_utf8(
            escaped(content@),
        ),
{
    writer.writer.write_event(Event::Text(BytesText::new(content)))
}

/// The bytes in the buffer of a writer.
///
/// Trusted: `Writer::into_inner` followed by `Cursor::into_inner`.
#[verifier::external_body]
fn take_bytes(writer: XmlWriter) -> (bytes: Vec<u8>)
    ensures
        bytes@ == buffer(writer.writer),
{
    writer.writer.into_inner().into_inner()
}

impl XmlWriter {
    /// A writer to which nothing has been written.
    pub fn new() -> (writer: XmlWriter)
        ensures
            written(writer) == Seq::<u8>::empty(),
    {
        fresh_writer()
    }

    /// The bytes that were written.
    pub fn into_bytes(self) -> (bytes: Vec<u8>)
        ensures
            bytes@ == written(self),
    {
        take_bytes(self)
    }
}

/// Writes the XML declaration: it succeeds, and the declaration has been
/// added to what was written.
pub fn write_declaration(writer: &mut XmlWriter, version: &str, encoding: &str) -> (r: Result<(), quick_xml::Error>)
    ensures
        r is Ok,
        written(*final(writer)) == written(*old(writer)) + encode_utf8(
            declaration(version@, encoding@),
        ),
{
    put_declaration(writer, version, encoding)
}

/// Writes the start tag of an element: it succeeds, and the start tag has
/// been added to what was written.
pub fn write_start(writer: &mut XmlWriter, name: &str, attributes: &[(String, String)]) -> (r: Result<(), quick_xml::Error>)
    ensures
        r is Ok,
        written(*final(writer)) == written(*old(writer)) + encode_utf8(
            start_tag(name@, attribute_texts(attributes@)),
        ),
{
    put_start(writer, name, attributes)
}

/// Writes the tag of an element without content: it succeeds, and the tag
/// has been added to what was written.
pub fn write_empty(writer: &mut XmlWriter, name: &str, attributes: &[(String, String)]) -> (r: Result<(), quick_xml::Error>)
    ensures
        r is Ok,
        written(*final(writer)) == written(*old(writer)) + encode_utf8(
            empty_tag(name@, attribute_texts(attributes@)),
        ),
{
    put_empty(writer, name, attributes)
}

/// Writes the end tag of an element: it succeeds, and the end tag has been
/// added to what was written.
pub fn write_end(writer: &mut XmlWriter, name: &str) -> (r: Result<(), quick_xml::Error>)
    ensures
        r is Ok,
        written(*final(writer)) == written(*old(writer)) + encode_utf8(end_tag(name@)),
{
    put_end(writer, name)
}

/// Writes text: it succeeds, and the escaped text has been added to what
/// was written.
pub fn write_text(writer: &mut XmlWriter, content: &str) -> (r: Result<(), quick_xml::Error>)
    ensures
        r is Ok,
        written(*final(writer)) == written(*old(writer)) + encode_utf8(
            escaped(content@),
        ),
{
    put_text(writer, content)
}

/// `String::from_utf8` accepts the bytes that are valid UTF-8, and the
/// string it makes of them holds the characters they encode.
pub assume_specification[String::from_utf8](vec: Vec<u8>) -> (r: Result<String, std::string::FromUtf8Error>)
    ensures
        r is Ok <==> valid_utf8(vec@),
        r matches Ok(s) ==> s@ == decode_utf8(vec@);

/// One event of a document that is being read.
#[derive(Debug)]
pub enum XmlToken {
    /// A start tag. An attribute that could not be read stands as `None`.
    Start { name: String, attributes: Vec<Option<(String, String)>> },
    /// An end tag.
    End { name: String },
    /// Text between tags, with its entities not yet resolved.
    Text { raw: String },
    /// A CDATA section.
    CData { text: String },
    /// Anything else: a declaration, a comment, an element without content.
    Other,
}

/// What a token holds. `Malformed` stands for the place where a document
/// stops being XML.
pub enum Token {
    Start { name: Seq<char>, attributes: Seq<Option<(Seq<char>, Seq<char>)>> },
    End { name: Seq<char> },
    Text { raw: Seq<char> },
    CData { text: Seq<char> },
    Other,
    Malformed,
}

/// The attributes of a start tag as they were read, as texts.
pub open spec fn read_attributes(v: Seq<Option<(String, String)>>) -> Seq<
    Option<(Seq<char>, Seq<char>)>,
> {
    Seq::new(
        v.len(),
        |i: int|
            match v[i] {
                Some(a) => Some((a.0@, a.1@)),
                None => None,
            },
    )
}

impl View for XmlToken {
    type V = Token;

    open spec fn view(&self) -> Token {
        match self {
            XmlToken::Start { name, attributes } => Token::Start {
                name: name@,
                attributes: read_attributes(attributes@),
            },
            XmlToken::End { name } => Token::End { name: name@ },
            XmlToken::Text { raw } => Token::Text { raw: raw@ },
            XmlToken::CData { text } => Token::CData { text: text@ },
            XmlToken::Other => Token::Other,
        }
    }
}

/// The tokens of a document, in order. Where the document stops being XML
/// the sequence ends with `Malformed`.
pub uninterp spec fn xml_tokens(document: Seq<char>) -> Seq<Token>;

/// The tokens that a reader has yet to hand out.
pub uninterp spec fn pending(reader: quick_xml::Reader<&[u8]>) -> Seq<Token>;

/// A reader at the start of a document.
///
/// Trusted: `quick_xml::Reader::from_str`. What the reader will hand out
/// depends on the document alone and is named `xml_tokens`.
#[verifier::external_body]
pub(crate) fn open_reader<'a>(document: &'a str) -> (reader: quick_xml::Reader<&'a [u8]>)
    ensures
        pending(reader) == xml_tokens(document@),
{
    quick_xml::Reader::from_str(document)
}

/// Hands out the next token of a document, `None` at its end.
///
/// Trusted: `Reader::read_event`. Each call hands out the first of the
/// pending tokens and leaves the rest; at the end of the document none is
/// pending; an error is the token `Malformed`. Names are read by
/// `String::from_utf8_lossy`, as are keys, values and texts.
#[verifier::external_body]
pub(crate) fn next_token(
    reader: &mut quick_xml::Reader<&[u8]>,
) -> (r: Result<Option<XmlToken>, quick_xml::Error>)
    ensures
        match r {
            Ok(Some(token)) => pending(*old(reader)).len() > 0 && token@ == pending(
                *old(reader),
            )[0] && pending(*final(reader)) == pending(*old(reader)).drop_first(),
            Ok(None) => pending(*old(reader)).len() == 0,
            Err(_) => pending(*old(reader)).len() > 0 && pending(*old(reader))[0] is Malformed,
        },
{
    let text = |b: &[u8]| String::from_utf8_lossy(b).into_owned();
    Ok(Some(match reader.read_event()? {
        Event::Start(e) => XmlToken::Start {
            name: text(e.name().0),
            attributes: e.attributes().map(|a| a.ok().map(|a| (text(a.key.0), text(&a.value)))).collect(),
        },
        Event::End(e) => XmlToken::End { name: text(e.name().0) },
        Event::Text(e) => XmlToken::Text { raw: text(&e) },
        Event::CData(e) => XmlToken::CData { text: text(&e) },
        Event::Eof => return Ok(None),
        _ => XmlToken::Other,
    }))
}

/// The text that `raw` stands for once its entities are resolved, if they
/// can be.
pub uninterp spec fn unescaped(raw: Seq<char>) -> Option<Seq<char>>;

/// Resolves the entities of a text.
///
/// Trusted: `BytesText::unescape` on the text made by
/// `BytesText::from_escaped`. The outcome depends on the text alone and is
/// named `unescaped`.
#[verifier::external_body]
pub(crate) fn unescape(raw: &str) -> (r: Result<String, quick_xml::Error>)
    ensures
        match unescaped(raw@) {
            Some(text) => r matches Ok(s) && s@ == text,
            None => r is Err,
        },
{
    BytesText::from_escaped(raw).unescape().map(|text| text.into_owned())
}

} // verus!
