//! Where the tags of a document stand in its text.
//!
//! The text of a document is the markup of its events, one after the
//! other. Every `<` of the text is the first character of the markup of a
//! tag, so that a tag that is found in the text is the tag of an event.

use crate::data::{Feed, Item, RssVersion};
use crate::generator::{atom_link_elements, channel, channel_elements, channel_fields, document,
    document_text, element, extension_elements, image_elements, item_elements, item_fields,
    items_elements, lemma_dialect_dispatch, lemma_field_names_differ, markup_text,
    optional_element, optional_elements, root_attributes, root_element, root_name, Markup};
use crate::text::{expand, has_prefix, has_suffix, matches_at};
use crate::xml::{attribute_markup, attributes_markup, end_tag, escaped, start_tag, xml_entity};
use vstd::prelude::*;

verus! {

/// Whether a text holds no `<`.
pub open spec fn no_lt(s: Seq<char>) -> bool {
    forall|j: int| 0 <= j < s.len() ==> #[trigger] s[j] != '<'
}

/// Whether the names that an event brings into a document hold no `<`: the
/// name of an element and the keys of its attributes, the version and the
/// encoding of a declaration.
pub open spec fn well_named(event: Markup) -> bool {
    match event {
        Markup::Declaration { version, encoding } => version == "1.0"@ && encoding == "utf-8"@,
        Markup::Open { name, attributes } => no_lt(name) && forall|k: int|
            0 <= k < attributes.len() ==> no_lt((#[trigger] attributes[k]).0),
        Markup::Close { name } => no_lt(name),
        Markup::Empty { name, attributes } => no_lt(name) && forall|k: int|
            0 <= k < attributes.len() ==> no_lt((#[trigger] attributes[k]).0),
        Markup::Text { .. } => true,
    }
}

/// Whether every event of a sequence is well named.
pub open spec fn all_well_named(events: Seq<Markup>) -> bool {
    forall|i: int| 0 <= i < events.len() ==> well_named(#[trigger] events[i])
}

/// Where the markup of the event at `i` begins in the text of a sequence of
/// events.
pub open spec fn offset(events: Seq<Markup>, i: int) -> int {
    document_text(events.take(i)).len() as int
}

/// Text holds no `<` once it is escaped.
pub proof fn lemma_escaped_no_lt(s: Seq<char>)
    ensures
        no_lt(escaped(s)),
    decreases s.len(),
{
    let f = |c: char| xml_entity(c);
    if s.len() > 0 {
        lemma_escaped_no_lt(s.drop_last());
        let before = expand(s.drop_last(), f);
        assert(expand(s, f) == before + f(s.last()));
        assert forall|j: int| 0 <= j < escaped(s).len() implies #[trigger] escaped(s)[j] != '<' by {
            if j < before.len() {
                assert(escaped(s)[j] == escaped(s.drop_last())[j]);
            } else {
                assert(escaped(s)[j] == xml_entity(s.last())[j - before.len()]);
            }
        }
    }
}

/// The markup of attributes whose keys hold no `<` holds none, and begins
/// with a space where there is an attribute.
pub proof fn lemma_attributes_shape(attributes: Seq<(Seq<char>, Seq<char>)>)
    requires
        forall|k: int| 0 <= k < attributes.len() ==> no_lt((#[trigger] attributes[k]).0),
    ensures
        no_lt(attributes_markup(attributes)),
        attributes.len() > 0 ==> attributes_markup(attributes).len() > 0 && attributes_markup(
            attributes,
        )[0] == ' ',
    decreases attributes.len(),
{
    if attributes.len() > 0 {
        let init = attributes.drop_last();
        let last = attributes.last();
        assert forall|k: int| 0 <= k < init.len() implies no_lt((#[trigger] init[k]).0) by {
            assert(init[k] == attributes[k]);
        }
        lemma_attributes_shape(init);
        lemma_escaped_no_lt(last.1);
        assert(no_lt(attributes[attributes.len() - 1].0));
        let before = attributes_markup(init);
        let here = attribute_markup(last);
        let all = attributes_markup(attributes);
        assert(all == before + here);
        assert(here[0] == ' ');
        assert forall|j: int| 0 <= j < here.len() implies #[trigger] here[j] != '<' by {
            let key = last.0;
            let value = escaped(last.1);
            if j == 0 {
            } else if j < 1 + key.len() {
                assert(here[j] == key[j - 1]);
            } else if j < 3 + key.len() {
            } else if j < 3 + key.len() + value.len() {
                assert(here[j] == value[j - 3 - key.len()]);
            } else {
            }
        }
        assert forall|j: int| 0 <= j < all.len() implies #[trigger] all[j] != '<' by {
            if j < before.len() {
                assert(all[j] == before[j]);
            } else {
                assert(all[j] == here[j - before.len()]);
            }
        }
        if init.len() > 0 {
            assert(all[0] == before[0]);
        } else {
            assert(before.len() == 0);
            assert(all[0] == here[0]);
        }
    }
}

/// The text of the XML declaration: its only `<` is its first character,
/// and a question mark follows.
pub proof fn lemma_declaration_shape()
    ensures
        crate::xml::declaration("1.0"@, "utf-8"@).len() > 1,
        crate::xml::declaration("1.0"@, "utf-8"@)[0] == '<',
        crate::xml::declaration("1.0"@, "utf-8"@)[1] == '?',
        no_lt(crate::xml::declaration("1.0"@, "utf-8"@).skip(1)),
{
    reveal_strlit("<?xml version=\"");
    reveal_strlit("\" encoding=\"");
    reveal_strlit("\"?>");
    reveal_strlit("1.0");
    reveal_strlit("utf-8");
    let a = "<?xml version=\""@;
    let b = "1.0"@;
    let c = "\" encoding=\""@;
    let d = "utf-8"@;
    let e = "\"?>"@;
    let all = crate::xml::declaration("1.0"@, "utf-8"@);
    assert(all == a + b + c + d + e);
    assert(a.len() == 15 && b.len() == 3 && c.len() == 12 && d.len() == 5 && e.len() == 3);
    assert(all[0] == a[0]);
    assert(all[1] == a[1]);
    assert forall|j: int| 0 <= j < all.skip(1).len() implies #[trigger] all.skip(1)[j] != '<' by {
        let i = j + 1;
        assert(all.skip(1)[j] == all[i]);
        if i < 15 {
            assert(all[i] == a[i]);
        } else if i < 18 {
            assert(all[i] == b[i - 15]);
        } else if i < 30 {
            assert(all[i] == c[i - 18]);
        } else if i < 35 {
            assert(all[i] == d[i - 30]);
        } else {
            assert(all[i] == e[i - 35]);
        }
    }
}

/// The markup of a well-named event: a `<` stands at its beginning only,
/// and only where the event is a tag.
pub proof fn lemma_markup_shape(event: Markup, j: int)
    requires
        well_named(event),
        0 <= j < markup_text(event).len(),
        markup_text(event)[j] == '<',
    ensures
        j == 0,
        !(event is Text),
{
    let m = markup_text(event);
    match event {
        Markup::Declaration { version, encoding } => {
            lemma_declaration_shape();
            if j > 0 {
                assert(m.skip(1)[j - 1] == m[j]);
            }
        },
        Markup::Open { name, attributes } => {
            lemma_attributes_shape(attributes);
            let a = attributes_markup(attributes);
            if j > 0 {
                if j < 1 + name.len() {
                    assert(m[j] == name[j - 1]);
                } else if j < 1 + name.len() + a.len() {
                    assert(m[j] == a[j - 1 - name.len()]);
                } else {
                }
            }
        },
        Markup::Close { name } => {
            if j > 1 {
                if j < 2 + name.len() {
                    assert(m[j] == name[j - 2]);
                }
            }
        },
        Markup::Empty { name, attributes } => {
            lemma_attributes_shape(attributes);
            let a = attributes_markup(attributes);
            if j > 0 {
                if j < 1 + name.len() {
                    assert(m[j] == name[j - 1]);
                } else if j < 1 + name.len() + a.len() {
                    assert(m[j] == a[j - 1 - name.len()]);
                } else {
                }
            }
        },
        Markup::Text { content } => {
            lemma_escaped_no_lt(content);
        },
    }
}

/// Every `<` in the text of well-named events is the first character of
/// the markup of a tag.
pub proof fn lemma_tag_starts(events: Seq<Markup>, p: int) -> (i: int)
    requires
        all_well_named(events),
        0 <= p < document_text(events).len(),
        document_text(events)[p] == '<',
    ensures
        0 <= i < events.len(),
        offset(events, i) == p,
        !(events[i] is Text),
    decreases events.len(),
{
    let init = events.drop_last();
    let before = document_text(init);
    let here = markup_text(events.last());
    assert(document_text(events) == before + here);
    if p < before.len() {
        assert(document_text(events)[p] == before[p]);
        assert forall|k: int| 0 <= k < init.len() implies well_named(#[trigger] init[k]) by {
            assert(init[k] == events[k]);
        }
        let i = lemma_tag_starts(init, p);
        assert(init.take(i) == events.take(i));
        assert(init[i] == events[i]);
        i
    } else {
        assert(document_text(events)[p] == here[p - before.len()]);
        assert(well_named(events[events.len() - 1]));
        lemma_markup_shape(events.last(), p - before.len());
        assert(events.take(events.len() - 1) == init);
        events.len() - 1
    }
}

/// The markup of each event stands in the text at the offset of the event.
pub proof fn lemma_markup_stands(events: Seq<Markup>, i: int)
    requires
        0 <= i < events.len(),
    ensures
        matches_at(document_text(events), offset(events, i), markup_text(events[i])),
    decreases events.len(),
{
    let init = events.drop_last();
    let before = document_text(init);
    let here = markup_text(events.last());
    let text = document_text(events);
    assert(text == before + here);
    if i < events.len() - 1 {
        lemma_markup_stands(init, i);
        assert(init.take(i) == events.take(i));
        assert(init[i] == events[i]);
        let m = markup_text(events[i]);
        let o = offset(events, i);
        assert(text.subrange(o, o + m.len()) =~= before.subrange(o, o + m.len()));
    } else {
        assert(events.take(i) == init);
        assert(text.subrange(before.len() as int, text.len() as int) =~= here);
    }
}

/// Whether a text can be the beginning of the name of an element: it is
/// not empty and holds none of the characters `<`, `>`, `/`, `?` and the
/// space.
pub open spec fn tag_like(n: Seq<char>) -> bool {
    n.len() > 0 && forall|j: int|
        0 <= j < n.len() ==> (#[trigger] n[j]) != '<' && n[j] != '>' && n[j] != '/' && n[j] != '?'
            && n[j] != ' '
}

/// Whether an event is the start tag of an element, with or without
/// content, whose name begins with `n`.
pub open spec fn opens(event: Markup, n: Seq<char>) -> bool {
    match event {
        Markup::Open { name, .. } => has_prefix(name, n),
        Markup::Empty { name, .. } => has_prefix(name, n),
        _ => false,
    }
}

/// A tag that is found in the text is the tag of an event: where `<` and
/// `n` stand in the text of well-named events, the markup of an event
/// begins there, and the event is the start tag of an element whose name
/// begins with `n`.
pub proof fn lemma_tag_in_text(events: Seq<Markup>, n: Seq<char>, p: int) -> (i: int)
    requires
        all_well_named(events),
        tag_like(n),
        matches_at(document_text(events), p, seq!['<'] + n),
    ensures
        0 <= i < events.len(),
        opens(events[i], n),
        offset(events, i) == p,
{
    let text = document_text(events);
    let pattern = seq!['<'] + n;
    let found = text.subrange(p, p + pattern.len());
    assert(found[0] == pattern[0]);
    assert(text[p] == '<');
    assert forall|j: int| 0 <= j < n.len() implies text[p + 1 + j] == n[j] by {
        assert(found[1 + j] == pattern[1 + j]);
    }
    let i = lemma_tag_starts(events, p);
    lemma_markup_stands(events, i);
    let m = markup_text(events[i]);
    assert forall|j: int| 0 <= j < m.len() implies text[p + j] == #[trigger] m[j] by {
        assert(text.subrange(p, p + m.len())[j] == m[j]);
    }
    assert(n[0] != '/' && n[0] != '?');
    match events[i] {
        Markup::Declaration { .. } => {
            lemma_declaration_shape();
            assert(text[p + 1] == m[1]);
        },
        Markup::Close { name } => {
            assert(m[1] == '/');
            assert(text[p + 1] == m[1]);
        },
        Markup::Open { name, attributes } => {
            assert(well_named(events[i]));
            lemma_attributes_shape(attributes);
            let a = attributes_markup(attributes);
            if n.len() > name.len() {
                let after = m[1 + name.len() as int];
                assert(after == ' ' || after == '>') by {
                    if attributes.len() > 0 {
                        assert(m[1 + name.len() as int] == a[0]);
                    }
                }
                assert(text[p + 1 + name.len()] == n[name.len() as int]);
            }
            assert forall|j: int| 0 <= j < n.len() implies name[j] == n[j] by {
                assert(m[1 + j] == name[j]);
            }
            assert(name.subrange(0, n.len() as int) =~= n);
        },
        Markup::Empty { name, attributes } => {
            assert(well_named(events[i]));
            lemma_attributes_shape(attributes);
            let a = attributes_markup(attributes);
            if n.len() > name.len() {
                let after = m[1 + name.len() as int];
                assert(after == ' ' || after == '/') by {
                    if attributes.len() > 0 {
                        assert(m[1 + name.len() as int] == a[0]);
                    }
                }
                assert(text[p + 1 + name.len()] == n[name.len() as int]);
            }
            assert forall|j: int| 0 <= j < n.len() implies name[j] == n[j] by {
                assert(m[1 + j] == name[j]);
            }
            assert(name.subrange(0, n.len() as int) =~= n);
        },
        Markup::Text { .. } => {},
    }
    i
}

/// Whether no event of a sequence is the start tag of an element whose
/// name begins with `n`.
pub open spec fn avoids(events: Seq<Markup>, n: Seq<char>) -> bool {
    forall|i: int| 0 <= i < events.len() ==> !opens(#[trigger] events[i], n)
}

/// Whether `<` and `n` stand somewhere in a text, one after the other.
pub open spec fn holds_tag(text: Seq<char>, n: Seq<char>) -> bool {
    exists|p: int| matches_at(text, p, seq!['<'] + n)
}

/// The text of well-named events that avoid a tag does not hold the tag.
pub proof fn lemma_avoided_tag_is_absent(events: Seq<Markup>, n: Seq<char>)
    requires
        all_well_named(events),
        tag_like(n),
        avoids(events, n),
    ensures
        !holds_tag(document_text(events), n),
{
    if holds_tag(document_text(events), n) {
        let p = choose|p: int| matches_at(document_text(events), p, seq!['<'] + n);
        let i = lemma_tag_in_text(events, n, p);
    }
}

/// Two sequences of events that avoid a tag avoid it together.
pub proof fn lemma_avoids_concat(a: Seq<Markup>, b: Seq<Markup>, n: Seq<char>)
    requires
        avoids(a, n),
        avoids(b, n),
    ensures
        avoids(a + b, n),
{
    assert forall|i: int| 0 <= i < (a + b).len() implies !opens(#[trigger] (a + b)[i], n) by {
        if i < a.len() {
            assert((a + b)[i] == a[i]);
        } else {
            assert((a + b)[i] == b[i - a.len()]);
        }
    }
}

/// Two sequences of well-named events are well named together.
pub proof fn lemma_well_named_concat(a: Seq<Markup>, b: Seq<Markup>)
    requires
        all_well_named(a),
        all_well_named(b),
    ensures
        all_well_named(a + b),
{
    assert forall|i: int| 0 <= i < (a + b).len() implies well_named(#[trigger] (a + b)[i]) by {
        if i < a.len() {
            assert((a + b)[i] == a[i]);
        } else {
            assert((a + b)[i] == b[i - a.len()]);
        }
    }
}

/// An element is well named where its name holds no `<`, and avoids a tag
/// that its name does not begin with.
pub proof fn lemma_element_shape(name: Seq<char>, content: Seq<char>, n: Seq<char>)
    ensures
        no_lt(name) ==> all_well_named(element(name, content)),
        !has_prefix(name, n) ==> avoids(element(name, content), n),
{
    assert(Seq::<(Seq<char>, Seq<char>)>::empty().len() == 0);
}

/// The elements of a list of fields are well named where the names of the
/// fields hold no `<`, and avoid a tag where the name of no field with
/// content begins with it.
pub proof fn lemma_fields_shape(fields: Seq<(Seq<char>, Seq<char>)>, n: Seq<char>)
    ensures
        (forall|k: int| 0 <= k < fields.len() ==> no_lt((#[trigger] fields[k]).0))
            ==> all_well_named(optional_elements(fields)),
        (forall|k: int|
            0 <= k < fields.len() && (#[trigger] fields[k]).1.len() > 0 ==> !has_prefix(
                fields[k].0,
                n,
            )) ==> avoids(optional_elements(fields), n),
    decreases fields.len(),
{
    if fields.len() > 0 {
        let init = fields.drop_last();
        let last = fields.last();
        lemma_fields_shape(init, n);
        lemma_element_shape(last.0, last.1, n);
        assert(fields[fields.len() - 1] == last);
        if forall|k: int| 0 <= k < fields.len() ==> no_lt((#[trigger] fields[k]).0) {
            assert forall|k: int| 0 <= k < init.len() implies no_lt((#[trigger] init[k]).0) by {
                assert(init[k] == fields[k]);
            }
            lemma_well_named_concat(optional_elements(init), optional_element(last.0, last.1));
        }
        if forall|k: int|
            0 <= k < fields.len() && (#[trigger] fields[k]).1.len() > 0 ==> !has_prefix(
                fields[k].0,
                n,
            ) {
            assert forall|k: int|
                0 <= k < init.len() && (#[trigger] init[k]).1.len() > 0 implies !has_prefix(
                init[k].0,
                n,
            ) by {
                assert(init[k] == fields[k]);
            }
            lemma_avoids_concat(optional_elements(init), optional_element(last.0, last.1), n);
        }
    }
}

/// Whether `n` is the name of one of the nine elements of a channel that
/// are written for optional fields only.
pub open spec fn channel_tag(n: Seq<char>) -> bool {
    ||| n == "language"@
    ||| n == "pubDate"@
    ||| n == "lastBuildDate"@
    ||| n == "docs"@
    ||| n == "generator"@
    ||| n == "managingEditor"@
    ||| n == "webMaster"@
    ||| n == "category"@
    ||| n == "ttl"@
}

/// Whether `n` is the name of one of the two elements that only an RSS 2.0
/// channel has.
pub open spec fn extension_tag(n: Seq<char>) -> bool {
    ||| n == "image"@
    ||| n == "atom:link"@
}

/// Whether `n` is the name of one of the other elements of a document.
pub open spec fn fixed_name(n: Seq<char>) -> bool {
    ||| n == "rss"@
    ||| n == "rdf:RDF"@
    ||| n == "channel"@
    ||| n == "title"@
    ||| n == "link"@
    ||| n == "description"@
    ||| n == "url"@
    ||| n == "item"@
}

/// Whether `n` is the name of one of the two elements that only an item
/// has.
pub open spec fn item_tag(n: Seq<char>) -> bool {
    ||| n == "guid"@
    ||| n == "author"@
}

/// Whether `n` is the name of an element that is written for an optional
/// field only.
pub open spec fn optional_tag(n: Seq<char>) -> bool {
    channel_tag(n) || extension_tag(n) || item_tag(n)
}

/// Whether `n` is the name of an element that the generator writes.
pub open spec fn document_name(n: Seq<char>) -> bool {
    fixed_name(n) || optional_tag(n)
}

/// The names that the generator writes hold no `<`.
pub proof fn lemma_names_hold_no_lt()
    ensures
        no_lt("rss"@),
        no_lt("rdf:RDF"@),
        no_lt("channel"@),
        no_lt("title"@),
        no_lt("link"@),
        no_lt("description"@),
        no_lt("url"@),
        no_lt("item"@),
        no_lt("guid"@),
        no_lt("author"@),
        no_lt("language"@),
        no_lt("pubDate"@),
        no_lt("lastBuildDate"@),
        no_lt("docs"@),
        no_lt("generator"@),
        no_lt("managingEditor"@),
        no_lt("webMaster"@),
        no_lt("category"@),
        no_lt("ttl"@),
        no_lt("image"@),
        no_lt("atom:link"@),
        no_lt("version"@),
        no_lt("xmlns:rdf"@),
        no_lt("xmlns"@),
        no_lt("xmlns:atom"@),
        no_lt("href"@),
        no_lt("rel"@),
        no_lt("type"@),
{
    reveal_strlit("rss");
    reveal_strlit("rdf:RDF");
    reveal_strlit("channel");
    reveal_strlit("title");
    reveal_strlit("link");
    reveal_strlit("description");
    reveal_strlit("url");
    reveal_strlit("item");
    reveal_strlit("guid");
    reveal_strlit("author");
    reveal_strlit("language");
    reveal_strlit("pubDate");
    reveal_strlit("lastBuildDate");
    reveal_strlit("docs");
    reveal_strlit("generator");
    reveal_strlit("managingEditor");
    reveal_strlit("webMaster");
    reveal_strlit("category");
    reveal_strlit("ttl");
    reveal_strlit("image");
    reveal_strlit("atom:link");
    reveal_strlit("version");
    reveal_strlit("xmlns:rdf");
    reveal_strlit("xmlns");
    reveal_strlit("xmlns:atom");
    reveal_strlit("href");
    reveal_strlit("rel");
    reveal_strlit("type");
}

/// The names of the optional elements: each can be found as a tag, none is
/// the name of another kind of element, and no other name that the
/// generator writes begins with one of them.
pub proof fn lemma_tag_facts(n: Seq<char>)
    requires
        optional_tag(n),
    ensures
        tag_like(n),
        !fixed_name(n),
        !(channel_tag(n) && extension_tag(n)),
        !(item_tag(n) && (channel_tag(n) || extension_tag(n))),
        "guid"@ != "author"@,
        "image"@ != "atom:link"@,
        forall|name: Seq<char>|
            document_name(name) && name != n ==> !#[trigger] has_prefix(name, n),
{
    reveal_strlit("rss");
    reveal_strlit("rdf:RDF");
    reveal_strlit("channel");
    reveal_strlit("title");
    reveal_strlit("link");
    reveal_strlit("description");
    reveal_strlit("url");
    reveal_strlit("item");
    reveal_strlit("guid");
    reveal_strlit("author");
    reveal_strlit("language");
    reveal_strlit("pubDate");
    reveal_strlit("lastBuildDate");
    reveal_strlit("docs");
    reveal_strlit("generator");
    reveal_strlit("managingEditor");
    reveal_strlit("webMaster");
    reveal_strlit("category");
    reveal_strlit("ttl");
    reveal_strlit("image");
    reveal_strlit("atom:link");
    assert("rss"@.len() == 3 && "rss"@[0] == 'r' && "rss"@[1] == 's' && "rss"@[2] == 's');
    assert("rdf:RDF"@.len() == 7 && "rdf:RDF"@[0] == 'r' && "rdf:RDF"@[1] == 'd' && "rdf:RDF"@[2] == 'f');
    assert("channel"@.len() == 7 && "channel"@[0] == 'c' && "channel"@[1] == 'h' && "channel"@[2] == 'a');
    assert("title"@.len() == 5 && "title"@[0] == 't' && "title"@[1] == 'i' && "title"@[2] == 't');
    assert("link"@.len() == 4 && "link"@[0] == 'l' && "link"@[1] == 'i' && "link"@[2] == 'n');
    assert("description"@.len() == 11 && "description"@[0] == 'd' && "description"@[1] == 'e' && "description"@[2] == 's');
    assert("url"@.len() == 3 && "url"@[0] == 'u' && "url"@[1] == 'r' && "url"@[2] == 'l');
    assert("item"@.len() == 4 && "item"@[0] == 'i' && "item"@[1] == 't' && "item"@[2] == 'e');
    assert("guid"@.len() == 4 && "guid"@[0] == 'g' && "guid"@[1] == 'u' && "guid"@[2] == 'i');
    assert("author"@.len() == 6 && "author"@[0] == 'a' && "author"@[1] == 'u' && "author"@[2] == 't');
    assert("language"@.len() == 8 && "language"@[0] == 'l' && "language"@[1] == 'a' && "language"@[2] == 'n');
    assert("pubDate"@.len() == 7 && "pubDate"@[0] == 'p' && "pubDate"@[1] == 'u' && "pubDate"@[2] == 'b');
    assert("lastBuildDate"@.len() == 13 && "lastBuildDate"@[0] == 'l' && "lastBuildDate"@[1] == 'a' && "lastBuildDate"@[2] == 's');
    assert("docs"@.len() == 4 && "docs"@[0] == 'd' && "docs"@[1] == 'o' && "docs"@[2] == 'c');
    assert("generator"@.len() == 9 && "generator"@[0] == 'g' && "generator"@[1] == 'e' && "generator"@[2] == 'n');
    assert("managingEditor"@.len() == 14 && "managingEditor"@[0] == 'm' && "managingEditor"@[1] == 'a' && "managingEditor"@[2] == 'n');
    assert("webMaster"@.len() == 9 && "webMaster"@[0] == 'w' && "webMaster"@[1] == 'e' && "webMaster"@[2] == 'b');
    assert("category"@.len() == 8 && "category"@[0] == 'c' && "category"@[1] == 'a' && "category"@[2] == 't');
    assert("ttl"@.len() == 3 && "ttl"@[0] == 't' && "ttl"@[1] == 't' && "ttl"@[2] == 'l');
    assert("image"@.len() == 5 && "image"@[0] == 'i' && "image"@[1] == 'm' && "image"@[2] == 'a');
    assert("atom:link"@.len() == 9 && "atom:link"@[0] == 'a' && "atom:link"@[1] == 't' && "atom:link"@[2] == 'o');
    assert(tag_like("language"@));
    assert(tag_like("pubDate"@));
    assert(tag_like("lastBuildDate"@));
    assert(tag_like("docs"@));
    assert(tag_like("generator"@));
    assert(tag_like("managingEditor"@));
    assert(tag_like("webMaster"@));
    assert(tag_like("category"@));
    assert(tag_like("ttl"@));
    assert(tag_like("image"@));
    assert(tag_like("atom:link"@));
    assert(tag_like("guid"@));
    assert(tag_like("author"@));
    assert forall|name: Seq<char>| document_name(name) && name != n implies !#[trigger] has_prefix(
        name,
        n,
    ) by {
        if has_prefix(name, n) {
            let s = name.subrange(0, n.len() as int);
            assert(s[0] == name[0]);
            assert(s[1] == name[1]);
            assert(s[2] == name[2]);
        }
    }
}

/// Whether the generator leaves the elements of the name `n` out of the
/// blocks of the items: `pubDate`, `guid` and `author` are left out where
/// no item has a publication date, a GUID or an author.
pub open spec fn items_leave_out(items: Seq<Item>, n: Seq<char>) -> bool {
    &&& n == "pubDate"@ ==> forall|i: int|
        0 <= i < items.len() ==> (#[trigger] items[i]).pub_date.len() == 0
    &&& n == "guid"@ ==> forall|i: int| 0 <= i < items.len() ==> (#[trigger] items[i]).guid.len() == 0
    &&& n == "author"@ ==> forall|i: int|
        0 <= i < items.len() ==> (#[trigger] items[i]).author.len() == 0
}

/// Whether the generator leaves the element of the name `n` out of the
/// document of a feed.
///
/// An optional element of the channel is left out where its field is
/// empty. `pubDate` is the name of an element of an item too, and is left
/// out of the document where no item has a publication date either;
/// `guid` and `author` are left out where no item has one. The image block
/// and the Atom link are left out of what is no RSS 2.0 feed, and of an
/// RSS 2.0 feed without image address or without Atom link.
pub open spec fn left_out(feed: Feed, n: Seq<char>) -> bool {
    &&& forall|k: int|
        0 <= k < 12 && (#[trigger] channel_fields(feed)[k]).0 == n ==> channel_fields(
            feed,
        )[k].1.len() == 0
    &&& items_leave_out(feed.items, n)
    &&& n == "image"@ ==> !(feed.version is RSS2_0) || feed.image_url.len() == 0
    &&& n == "atom:link"@ ==> !(feed.version is RSS2_0) || feed.atom_link.len() == 0
}

/// A single tag is well named where its name and the keys of its
/// attributes hold no `<`, and avoids a tag that its name does not begin
/// with; an end tag avoids every tag.
pub proof fn lemma_open_shape(name: Seq<char>, attributes: Seq<(Seq<char>, Seq<char>)>, n: Seq<char>)
    ensures
        !has_prefix(name, n) ==> avoids(seq![Markup::Open { name, attributes }], n),
        !has_prefix(name, n) ==> avoids(seq![Markup::Empty { name, attributes }], n),
        avoids(seq![Markup::Close { name }], n),
        no_lt(name) ==> all_well_named(seq![Markup::Close { name }]),
        no_lt(name) && (forall|k: int|
            0 <= k < attributes.len() ==> no_lt((#[trigger] attributes[k]).0))
            ==> all_well_named(seq![Markup::Open { name, attributes }]) && all_well_named(
            seq![Markup::Empty { name, attributes }],
        ),
{
}

/// The blocks of items are well named, and avoid a tag that is the name of
/// none of their elements.
pub proof fn lemma_items_shape(items: Seq<Item>, n: Seq<char>)
    requires
        optional_tag(n),
        items_leave_out(items, n),
    ensures
        all_well_named(items_elements(items)),
        avoids(items_elements(items), n),
    decreases items.len(),
{
    if items.len() > 0 {
        let init = items.drop_last();
        let item = items.last();
        assert(items_leave_out(init, n)) by {
            assert forall|i: int| 0 <= i < init.len() implies #[trigger] init[i] == items[i] by {}
        }
        lemma_items_shape(init, n);
        lemma_names_hold_no_lt();
        lemma_tag_facts(n);
        let fields = item_fields(item);
        let none = Seq::<(Seq<char>, Seq<char>)>::empty();
        assert(items[items.len() - 1] == item);
        assert forall|k: int| 0 <= k < fields.len() implies no_lt((#[trigger] fields[k]).0) by {}
        assert forall|k: int|
            0 <= k < fields.len() && (#[trigger] fields[k]).1.len() > 0 implies !has_prefix(
            fields[k].0,
            n,
        ) by {
            assert(document_name(fields[k].0));
        }
        lemma_fields_shape(fields, n);
        lemma_open_shape("item"@, none, n);
        assert(document_name("item"@));
        let open = seq![Markup::Open { name: "item"@, attributes: none }];
        let close = seq![Markup::Close { name: "item"@ }];
        lemma_avoids_concat(open, optional_elements(fields), n);
        lemma_avoids_concat(open + optional_elements(fields), close, n);
        lemma_well_named_concat(open, optional_elements(fields));
        lemma_well_named_concat(open + optional_elements(fields), close);
        lemma_avoids_concat(items_elements(init), item_elements(item), n);
        lemma_well_named_concat(items_elements(init), item_elements(item));
    }
}

/// The document of a feed is well named, and avoids the tags that the
/// generator leaves out of it.
pub proof fn lemma_document_shape(feed: Feed, n: Seq<char>)
    requires
        optional_tag(n),
        left_out(feed, n),
    ensures
        all_well_named(document(feed)),
        avoids(document(feed), n),
{
    lemma_names_hold_no_lt();
    lemma_tag_facts(n);
    lemma_field_names_differ(feed, Item::empty());
    let none = Seq::<(Seq<char>, Seq<char>)>::empty();
    // The scalar elements of the channel.
    let fields = channel_fields(feed);
    assert forall|k: int| 0 <= k < fields.len() implies no_lt((#[trigger] fields[k]).0) by {}
    assert forall|k: int|
        0 <= k < fields.len() && (#[trigger] fields[k]).1.len() > 0 implies !has_prefix(
        fields[k].0,
        n,
    ) by {
        assert(document_name(fields[k].0));
    }
    lemma_fields_shape(fields, n);
    let scalars = channel_elements(feed);
    // What only an RSS 2.0 channel has.
    let extensions = extension_elements(feed);
    assert(all_well_named(extensions) && avoids(extensions, n)) by {
        if feed.version is RSS2_0 {
            let image = image_elements(feed);
            let atom = atom_link_elements(feed);
            if feed.image_url.len() > 0 {
                let a = seq![Markup::Open { name: "image"@, attributes: none }];
                let b = element("url"@, feed.image_url);
                let c = element("title"@, feed.title);
                let d = element("link"@, feed.link);
                let e = seq![Markup::Close { name: "image"@ }];
                assert(document_name("image"@) && document_name("url"@) && document_name(
                    "title"@,
                ) && document_name("link"@));
                lemma_open_shape("image"@, none, n);
                lemma_element_shape("url"@, feed.image_url, n);
                lemma_element_shape("title"@, feed.title, n);
                lemma_element_shape("link"@, feed.link, n);
                lemma_avoids_concat(a, b, n);
                lemma_avoids_concat(a + b, c, n);
                lemma_avoids_concat(a + b + c, d, n);
                lemma_avoids_concat(a + b + c + d, e, n);
                lemma_well_named_concat(a, b);
                lemma_well_named_concat(a + b, c);
                lemma_well_named_concat(a + b + c, d);
                lemma_well_named_concat(a + b + c + d, e);
            }
            if feed.atom_link.len() > 0 {
                let attributes = crate::generator::atom_link_attributes(feed.atom_link);
                assert(document_name("atom:link"@));
                assert forall|k: int| 0 <= k < attributes.len() implies no_lt(
                    (#[trigger] attributes[k]).0,
                ) by {}
                lemma_open_shape("atom:link"@, attributes, n);
            }
            lemma_avoids_concat(image, atom, n);
            lemma_well_named_concat(image, atom);
        }
    }
    // The items.
    lemma_items_shape(feed.items, n);
    let items = items_elements(feed.items);
    // The channel.
    let open = seq![Markup::Open { name: "channel"@, attributes: none }];
    let close = seq![Markup::Close { name: "channel"@ }];
    assert(document_name("channel"@));
    lemma_open_shape("channel"@, none, n);
    lemma_avoids_concat(open, scalars, n);
    lemma_avoids_concat(open + scalars, extensions, n);
    lemma_avoids_concat(open + scalars + extensions, items, n);
    lemma_avoids_concat(open + scalars + extensions + items, close, n);
    lemma_well_named_concat(open, scalars);
    lemma_well_named_concat(open + scalars, extensions);
    lemma_well_named_concat(open + scalars + extensions, items);
    lemma_well_named_concat(open + scalars + extensions + items, close);
    // The root element and the declaration.
    let name = root_name(feed.version);
    let attributes = root_attributes(feed.version);
    assert(document_name(name));
    assert forall|k: int| 0 <= k < attributes.len() implies no_lt((#[trigger] attributes[k]).0) by {}
    lemma_open_shape(name, attributes, n);
    let root = seq![Markup::Open { name, attributes }];
    let end = seq![Markup::Close { name }];
    lemma_avoids_concat(root, channel(feed), n);
    lemma_avoids_concat(root + channel(feed), end, n);
    lemma_well_named_concat(root, channel(feed));
    lemma_well_named_concat(root + channel(feed), end);
    let decl = seq![Markup::Declaration { version: "1.0"@, encoding: "utf-8"@ }];
    lemma_avoids_concat(decl, root_element(feed), n);
    lemma_well_named_concat(decl, root_element(feed));
}

/// Omit if empty and dialect dispatch, for the text: the text of the
/// document of a feed does not hold the tag of an element that the
/// generator leaves out of the document, neither `<name>` nor `<name/>`
/// nor `<name` before anything else.
pub proof fn lemma_left_out_tag_is_absent(feed: Feed, n: Seq<char>)
    requires
        optional_tag(n),
        left_out(feed, n),
    ensures
        !holds_tag(document_text(document(feed)), n),
{
    lemma_document_shape(feed, n);
    lemma_tag_facts(n);
    lemma_avoided_tag_is_absent(document(feed), n);
}

/// A text that holds `<`, `n` and more, one after the other, holds the
/// tag `n`: so does a text that holds `<n>` or `<n/>`.
pub proof fn lemma_longer_tag(text: Seq<char>, n: Seq<char>, more: Seq<char>, p: int)
    requires
        matches_at(text, p, seq!['<'] + n + more),
    ensures
        matches_at(text, p, seq!['<'] + n),
        holds_tag(text, n),
{
    let long = seq!['<'] + n + more;
    let short = seq!['<'] + n;
    assert(text.subrange(p, p + short.len()) =~= text.subrange(p, p + long.len()).subrange(
        0,
        short.len() as int,
    ));
    assert(long.subrange(0, short.len() as int) =~= short);
    assert(matches_at(text, p, short));
}

/// Omit if empty, for the text: an optional field of the channel that is
/// empty leaves no tag of its element in the text of the document. For the
/// publication date this holds of a feed without an item that has one.
pub proof fn lemma_empty_channel_field_leaves_no_tag(feed: Feed, k: int)
    requires
        3 <= k < 12,
        channel_fields(feed)[k].1.len() == 0,
        k == 4 ==> forall|i: int|
            0 <= i < feed.items.len() ==> (#[trigger] feed.items[i]).pub_date.len() == 0,
    ensures
        !holds_tag(document_text(document(feed)), channel_fields(feed)[k].0),
{
    let n = channel_fields(feed)[k].0;
    lemma_field_names_differ(feed, Item::empty());
    assert(channel_tag(n));
    lemma_tag_facts(n);
    assert(n == "pubDate"@ ==> k == 4) by {
        assert(channel_fields(feed)[4].0 == "pubDate"@);
    }
    lemma_left_out_tag_is_absent(feed, n);
}

/// Omit if empty, for the text: where no item has a GUID the text of the
/// document holds no `guid` tag, and where no item has an author it holds
/// no `author` tag.
pub proof fn lemma_empty_item_fields_leave_no_tag(feed: Feed)
    ensures
        (forall|i: int| 0 <= i < feed.items.len() ==> (#[trigger] feed.items[i]).guid.len() == 0)
            ==> !holds_tag(document_text(document(feed)), "guid"@),
        (forall|i: int| 0 <= i < feed.items.len() ==> (#[trigger] feed.items[i]).author.len() == 0)
            ==> !holds_tag(document_text(document(feed)), "author"@),
{
    lemma_field_names_differ(feed, Item::empty());
    lemma_tag_facts("guid"@);
    lemma_tag_facts("author"@);
    if forall|i: int| 0 <= i < feed.items.len() ==> (#[trigger] feed.items[i]).guid.len() == 0 {
        assert(left_out(feed, "guid"@)) by {
            assert forall|k: int| 0 <= k < 12 implies (#[trigger] channel_fields(feed)[k]).0
                != "guid"@ by {
                let name = channel_fields(feed)[k].0;
                assert(fixed_name(name) || channel_tag(name));
            }
        }
        lemma_left_out_tag_is_absent(feed, "guid"@);
    }
    if forall|i: int| 0 <= i < feed.items.len() ==> (#[trigger] feed.items[i]).author.len() == 0 {
        assert(left_out(feed, "author"@)) by {
            assert forall|k: int| 0 <= k < 12 implies (#[trigger] channel_fields(feed)[k]).0
                != "author"@ by {
                let name = channel_fields(feed)[k].0;
                assert(fixed_name(name) || channel_tag(name));
            }
        }
        lemma_left_out_tag_is_absent(feed, "author"@);
    }
}

/// Dialect dispatch, for the text: the text of the document of a feed that
/// is no RSS 2.0 feed holds neither an `image` tag nor an `atom:link` tag,
/// whatever the image address and the Atom link of the feed; nor does the
/// text of an RSS 2.0 feed without image address or without Atom link.
pub proof fn lemma_extension_tags(feed: Feed)
    ensures
        !(feed.version is RSS2_0) || feed.image_url.len() == 0 ==> !holds_tag(
            document_text(document(feed)),
            "image"@,
        ),
        !(feed.version is RSS2_0) || feed.atom_link.len() == 0 ==> !holds_tag(
            document_text(document(feed)),
            "atom:link"@,
        ),
{
    lemma_field_names_differ(feed, Item::empty());
    lemma_tag_facts("image"@);
    lemma_tag_facts("atom:link"@);
    assert forall|k: int| 0 <= k < 12 implies (#[trigger] channel_fields(feed)[k]).0 != "image"@
        && channel_fields(feed)[k].0 != "atom:link"@ by {
        let name = channel_fields(feed)[k].0;
        assert(fixed_name(name) || channel_tag(name));
    }
    if !(feed.version is RSS2_0) || feed.image_url.len() == 0 {
        lemma_left_out_tag_is_absent(feed, "image"@);
    }
    if !(feed.version is RSS2_0) || feed.atom_link.len() == 0 {
        lemma_left_out_tag_is_absent(feed, "atom:link"@);
    }
}

/// The start tag of the root element of a dialect, as it stands in the
/// text.
pub open spec fn root_tag(version: RssVersion) -> Seq<char> {
    match version {
        RssVersion::RSS0_90 => "<rss version=\"0.90\">"@,
        RssVersion::RSS0_91 => "<rss version=\"0.91\">"@,
        RssVersion::RSS0_92 => "<rss version=\"0.92\">"@,
        RssVersion::RSS1_0 =>
            "<rdf:RDF xmlns:rdf=\"http://www.w3.org/1999/02/22-rdf-syntax-ns#\" xmlns=\"http://purl.org/rss/1.0/\">"@,
        RssVersion::RSS2_0 => "<rss version=\"2.0\" xmlns:atom=\"http://www.w3.org/2005/Atom\">"@,
    }
}

/// A text without the five characters that are written as entities is
/// written as it is.
pub proof fn lemma_plain_is_written_as_it_is(s: Seq<char>)
    requires
        forall|i: int| 0 <= i < s.len() ==> xml_entity(#[trigger] s[i]) == seq![s[i]],
    ensures
        escaped(s) == s,
    decreases s.len(),
{
    let f = |c: char| xml_entity(c);
    if s.len() > 0 {
        lemma_plain_is_written_as_it_is(s.drop_last());
        assert(xml_entity(s[s.len() - 1]) == seq![s[s.len() - 1]]);
        assert(expand(s, f) == expand(s.drop_last(), f) + f(s.last()));
        assert(s.drop_last() + seq![s.last()] =~= s);
    }
}

proof fn lemma_one_attribute(key: Seq<char>, value: Seq<char>)
    ensures
        attributes_markup(seq![(key, value)]) == attribute_markup((key, value)),
{
    let a = seq![(key, value)];
    assert(a.drop_last() =~= Seq::empty());
    assert(attributes_markup(a.drop_last()) =~= Seq::<char>::empty());
    assert(a.last() == (key, value));
}

proof fn lemma_two_attributes(a: (Seq<char>, Seq<char>), b: (Seq<char>, Seq<char>))
    ensures
        attributes_markup(seq![a, b]) == attribute_markup(a) + attribute_markup(b),
{
    let both = seq![a, b];
    assert(both.drop_last() =~= seq![a]);
    assert(both.last() == b);
    lemma_one_attribute(a.0, a.1);
}

/// Dialect dispatch, for the text: the start tag of the root element of a
/// dialect is written as the fixed text of the dialect.
pub proof fn lemma_root_tag(version: RssVersion)
    ensures
        start_tag(root_name(version), root_attributes(version)) == root_tag(version),
{
    reveal_strlit("rss");
    reveal_strlit("rdf:RDF");
    reveal_strlit("version");
    match version {
        RssVersion::RSS0_90 => {
            reveal_strlit("0.90");
            reveal_strlit("<rss version=\"0.90\">");
            lemma_plain_is_written_as_it_is("0.90"@);
            lemma_one_attribute("version"@, "0.90"@);
            assert(start_tag("rss"@, seq![("version"@, "0.90"@)]) =~= root_tag(version));
        },
        RssVersion::RSS0_91 => {
            reveal_strlit("0.91");
            reveal_strlit("<rss version=\"0.91\">");
            lemma_plain_is_written_as_it_is("0.91"@);
            lemma_one_attribute("version"@, "0.91"@);
            assert(start_tag("rss"@, seq![("version"@, "0.91"@)]) =~= root_tag(version));
        },
        RssVersion::RSS0_92 => {
            reveal_strlit("0.92");
            reveal_strlit("<rss version=\"0.92\">");
            lemma_plain_is_written_as_it_is("0.92"@);
            lemma_one_attribute("version"@, "0.92"@);
            assert(start_tag("rss"@, seq![("version"@, "0.92"@)]) =~= root_tag(version));
        },
        RssVersion::RSS1_0 => {
            reveal_strlit("xmlns:rdf");
            reveal_strlit("xmlns");
            reveal_strlit("http://www.w3.org/1999/02/22-rdf-syntax-ns#");
            reveal_strlit("http://purl.org/rss/1.0/");
            reveal_strlit(
                "<rdf:RDF xmlns:rdf=\"http://www.w3.org/1999/02/22-rdf-syntax-ns#\" xmlns=\"http://purl.org/rss/1.0/\">",
            );
            lemma_plain_is_written_as_it_is("http://www.w3.org/1999/02/22-rdf-syntax-ns#"@);
            lemma_plain_is_written_as_it_is("http://purl.org/rss/1.0/"@);
            lemma_two_attributes(
                ("xmlns:rdf"@, "http://www.w3.org/1999/02/22-rdf-syntax-ns#"@),
                ("xmlns"@, "http://purl.org/rss/1.0/"@),
            );
            assert(start_tag(root_name(version), root_attributes(version)) =~= root_tag(version));
        },
        RssVersion::RSS2_0 => {
            reveal_strlit("2.0");
            reveal_strlit("xmlns:atom");
            reveal_strlit("http://www.w3.org/2005/Atom");
            reveal_strlit("<rss version=\"2.0\" xmlns:atom=\"http://www.w3.org/2005/Atom\">");
            lemma_plain_is_written_as_it_is("2.0"@);
            lemma_plain_is_written_as_it_is("http://www.w3.org/2005/Atom"@);
            lemma_two_attributes(
                ("version"@, "2.0"@),
                ("xmlns:atom"@, "http://www.w3.org/2005/Atom"@),
            );
            assert(start_tag(root_name(version), root_attributes(version)) =~= root_tag(version));
        },
    }
}

/// The XML declaration of a feed, as it stands in the text.
pub proof fn lemma_declaration_text()
    ensures
        crate::xml::declaration("1.0"@, "utf-8"@) == "<?xml version=\"1.0\" encoding=\"utf-8\"?>"@,
{
    reveal_strlit("<?xml version=\"");
    reveal_strlit("\" encoding=\"");
    reveal_strlit("\"?>");
    reveal_strlit("1.0");
    reveal_strlit("utf-8");
    reveal_strlit("<?xml version=\"1.0\" encoding=\"utf-8\"?>");
    assert(crate::xml::declaration("1.0"@, "utf-8"@)
        =~= "<?xml version=\"1.0\" encoding=\"utf-8\"?>"@);
}

/// The end tag of the root element of a dialect, as it stands in the text.
pub open spec fn root_end_tag(version: RssVersion) -> Seq<char> {
    match version {
        RssVersion::RSS1_0 => "</rdf:RDF>"@,
        _ => "</rss>"@,
    }
}

/// Dialect dispatch, for the text of a document: it begins with the XML
/// declaration and the fixed start tag of the root element of the dialect
/// of the feed, with the attributes of the dialect and no other, and ends
/// with the end tag of that element; and the text of what is no RSS 2.0
/// feed holds neither an `image` tag nor an `atom:link` tag, whatever the
/// feed holds.
pub proof fn lemma_dialect_text(feed: Feed)
    ensures
        has_prefix(
            document_text(document(feed)),
            "<?xml version=\"1.0\" encoding=\"utf-8\"?>"@ + root_tag(feed.version),
        ),
        has_suffix(document_text(document(feed)), root_end_tag(feed.version)),
        !(feed.version is RSS2_0) ==> !holds_tag(document_text(document(feed)), "image"@)
            && !holds_tag(document_text(document(feed)), "atom:link"@),
{
    lemma_dialect_dispatch(feed);
    lemma_declaration_text();
    lemma_root_tag(feed.version);
    lemma_extension_tags(feed);
    reveal_strlit("rss");
    reveal_strlit("rdf:RDF");
    reveal_strlit("</rss>");
    reveal_strlit("</rdf:RDF>");
    assert(end_tag(root_name(feed.version)) =~= root_end_tag(feed.version));
}

} // verus!
