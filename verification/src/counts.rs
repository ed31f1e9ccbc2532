//! How often a tag stands in the text of a document.
//!
//! Where every element whose name begins with `n` is written without
//! attributes and under the name `n` itself, the text holds `<n>` as often
//! as the events hold the start tag of such an element, and every `<n` of
//! the text is the beginning of a `<n>`.

use crate::data::{Feed, Item};
use crate::generator::{channel_elements, channel_fields, document, document_text, element,
    extension_elements, item_elements, item_fields, items_elements,
    lemma_document_text_concat, markup_text, optional_element, optional_elements,
    root_attributes, root_name, Markup};
use crate::tags::{all_well_named, avoids, channel_tag, fixed_name, holds_tag, item_tag,
    left_out, lemma_avoided_tag_is_absent, lemma_avoids_concat, lemma_document_shape,
    lemma_element_shape, lemma_escaped_no_lt, lemma_fields_shape, lemma_items_shape,
    lemma_longer_tag, lemma_markup_shape, lemma_markup_stands, lemma_open_shape,
    lemma_tag_facts, lemma_tag_in_text, lemma_well_named_concat, no_lt, offset, opens,
    tag_like, well_named};
use crate::text::{expand, has_prefix, matches_at};
use crate::xml::{attributes_markup, escaped, xml_entity};
use vstd::prelude::*;

verus! {

/// At how many of the places before `k` the pattern stands in a text.
pub open spec fn occurrences_before(text: Seq<char>, pattern: Seq<char>, k: int) -> nat
    decreases k,
{
    if k <= 0 {
        0
    } else {
        occurrences_before(text, pattern, k - 1) + if matches_at(text, k - 1, pattern) {
            1nat
        } else {
            0nat
        }
    }
}

/// At how many places the pattern stands in a text.
pub open spec fn occurrences(text: Seq<char>, pattern: Seq<char>) -> nat {
    occurrences_before(text, pattern, text.len() as int)
}

/// How many events of a sequence are the start tag of an element whose
/// name begins with `n`.
pub open spec fn openings(events: Seq<Markup>, n: Seq<char>) -> nat
    decreases events.len(),
{
    if events.len() == 0 {
        0
    } else {
        openings(events.drop_last(), n) + if opens(events.last(), n) {
            1nat
        } else {
            0nat
        }
    }
}

/// The start tag of the element `n` without attributes.
pub open spec fn bare_tag(n: Seq<char>) -> Seq<char> {
    seq!['<'] + n + seq!['>']
}

/// Whether every start tag of an element whose name begins with `n` is the
/// start tag of the element `n` itself, with content and without
/// attributes.
pub open spec fn bare(events: Seq<Markup>, n: Seq<char>) -> bool {
    forall|i: int|
        0 <= i < events.len() && opens(#[trigger] events[i], n) ==> events[i] == (Markup::Open {
            name: n,
            attributes: Seq::empty(),
        })
}

/// Whether text with content comes directly after every start tag of an
/// element whose name begins with `n`.
pub open spec fn followed_by_text(events: Seq<Markup>, n: Seq<char>) -> bool {
    forall|i: int|
        0 <= i < events.len() && opens(#[trigger] events[i], n) ==> i + 1 < events.len() && (
        match events[i + 1] {
            Markup::Text { content } => content.len() > 0,
            _ => false,
        })
}

/// Two texts that hold a pattern at the same places before `k` hold it
/// equally often before `k`.
pub proof fn lemma_occurrences_agree(a: Seq<char>, b: Seq<char>, pattern: Seq<char>, k: int)
    requires
        forall|p: int| 0 <= p < k ==> (matches_at(a, p, pattern) <==> matches_at(b, p, pattern)),
    ensures
        occurrences_before(a, pattern, k) == occurrences_before(b, pattern, k),
    decreases k,
{
    if k > 0 {
        lemma_occurrences_agree(a, b, pattern, k - 1);
    }
}

/// Places at which the pattern does not stand add nothing to the count.
pub proof fn lemma_no_occurrences(text: Seq<char>, pattern: Seq<char>, from: int, to: int)
    requires
        from <= to,
        forall|p: int| from <= p < to ==> !matches_at(text, p, pattern),
    ensures
        occurrences_before(text, pattern, to) == occurrences_before(text, pattern, from),
    decreases to - from,
{
    if from < to {
        lemma_no_occurrences(text, pattern, from, to - 1);
        if to <= 0 {
            assert(occurrences_before(text, pattern, from) == 0);
        }
    }
}

/// The markup of an event ends where the markup of the next one begins.
pub proof fn lemma_offset_step(events: Seq<Markup>, i: int)
    requires
        0 <= i < events.len(),
    ensures
        offset(events, i + 1) == offset(events, i) + markup_text(events[i]).len(),
{
    assert(events.take(i + 1).drop_last() == events.take(i));
    assert(events.take(i + 1).last() == events[i]);
}

/// The markup of a later event begins no earlier.
pub proof fn lemma_offset_grows(events: Seq<Markup>, i: int, j: int)
    requires
        0 <= i <= j <= events.len(),
    ensures
        offset(events, i) <= offset(events, j),
    decreases j - i,
{
    if i < j {
        lemma_offset_grows(events, i, j - 1);
        lemma_offset_step(events, j - 1);
    }
}

/// Every `<n` of the text is the beginning of a `<n>`: where `<` and `n`
/// stand in the text of well-named events among which `n` is bare, the
/// start tag of an element `n` begins there, and `>` follows.
pub proof fn lemma_found_tag(events: Seq<Markup>, n: Seq<char>, p: int) -> (i: int)
    requires
        all_well_named(events),
        tag_like(n),
        bare(events, n),
        matches_at(document_text(events), p, seq!['<'] + n),
    ensures
        0 <= i < events.len(),
        opens(events[i], n),
        offset(events, i) == p,
        offset(events, i + 1) == p + bare_tag(n).len(),
        matches_at(document_text(events), p, bare_tag(n)),
{
    let i = lemma_tag_in_text(events, n, p);
    assert(events[i] == (Markup::Open { name: n, attributes: Seq::empty() }));
    assert(attributes_markup(Seq::empty()) == Seq::<char>::empty());
    assert(markup_text(events[i]) =~= bare_tag(n));
    lemma_markup_stands(events, i);
    lemma_offset_step(events, i);
    i
}

/// The text of well-named events among which `n` is bare holds `<n>` as
/// often as the events hold the start tag of an element `n`.
pub proof fn lemma_tags_are_counted(events: Seq<Markup>, n: Seq<char>)
    requires
        all_well_named(events),
        tag_like(n),
        bare(events, n),
    ensures
        occurrences(document_text(events), bare_tag(n)) == openings(events, n),
    decreases events.len(),
{
    let pattern = bare_tag(n);
    let text = document_text(events);
    if events.len() > 0 {
        let init = events.drop_last();
        let last = events.last();
        let before = document_text(init);
        let here = markup_text(last);
        let cut = before.len() as int;
        let end = events.len() - 1;
        assert(text == before + here);
        assert(events.take(end) == init);
        assert forall|i: int| 0 <= i < init.len() implies #[trigger] init[i] == events[i] by {}
        lemma_tags_are_counted(init, n);
        // A tag that begins before the last event ends before it.
        assert forall|p: int| 0 <= p < cut implies (matches_at(text, p, pattern) <==> matches_at(
            before,
            p,
            pattern,
        )) by {
            if matches_at(text, p, pattern) {
                lemma_longer_tag(text, n, seq!['>'], p);
                let i = lemma_found_tag(events, n, p);
                lemma_offset_grows(events, i + 1, end);
                assert(before.subrange(p, p + pattern.len()) =~= text.subrange(
                    p,
                    p + pattern.len(),
                ));
            }
            if matches_at(before, p, pattern) {
                assert(before.subrange(p, p + pattern.len()) =~= text.subrange(
                    p,
                    p + pattern.len(),
                ));
            }
        }
        lemma_occurrences_agree(text, before, pattern, cut);
        // No tag begins inside the last event.
        assert forall|p: int| cut < p < text.len() implies !matches_at(text, p, pattern) by {
            if matches_at(text, p, pattern) {
                assert(text.subrange(p, p + pattern.len())[0] == pattern[0]);
                assert(here[p - cut] == '<');
                assert(well_named(events[end]));
                lemma_markup_shape(last, p - cut);
            }
        }
        if opens(last, n) {
            assert(events[end] == last);
            assert(attributes_markup(Seq::empty()) == Seq::<char>::empty());
            assert(here =~= pattern);
            lemma_markup_stands(events, end);
            lemma_no_occurrences(text, pattern, cut + 1, text.len() as int);
        } else {
            if matches_at(text, cut, pattern) {
                lemma_longer_tag(text, n, seq!['>'], cut);
                let i = lemma_found_tag(events, n, cut);
                if i < end {
                    lemma_offset_grows(events, i + 1, end);
                }
            }
            lemma_no_occurrences(text, pattern, cut, text.len() as int);
        }
    }
}

/// The start tags of two sequences of events, counted together.
pub proof fn lemma_openings_concat(a: Seq<Markup>, b: Seq<Markup>, n: Seq<char>)
    ensures
        openings(a + b, n) == openings(a, n) + openings(b, n),
    decreases b.len(),
{
    if b.len() == 0 {
        assert(a + b == a);
    } else {
        lemma_openings_concat(a, b.drop_last(), n);
        assert((a + b).drop_last() == a + b.drop_last());
        assert((a + b).last() == b.last());
    }
}

/// A single event counts where it is such a start tag.
pub proof fn lemma_openings_one(event: Markup, n: Seq<char>)
    ensures
        openings(seq![event], n) == if opens(event, n) {
            1nat
        } else {
            0nat
        },
{
    let s = seq![event];
    assert(s.drop_last() == Seq::<Markup>::empty());
    assert(openings(s.drop_last(), n) == 0);
    assert(s.last() == event);
}

/// Events that avoid a tag hold it no time, and the tag is bare among
/// them.
pub proof fn lemma_avoided_count(events: Seq<Markup>, n: Seq<char>)
    requires
        avoids(events, n),
    ensures
        openings(events, n) == 0,
        bare(events, n),
        followed_by_text(events, n),
    decreases events.len(),
{
    if events.len() > 0 {
        let init = events.drop_last();
        assert forall|i: int| 0 <= i < init.len() implies !opens(#[trigger] init[i], n) by {
            assert(init[i] == events[i]);
        }
        lemma_avoided_count(init, n);
        assert(!opens(events[events.len() - 1], n));
    }
}

/// A tag that is bare in two sequences of events is bare in both
/// together, and followed by text in both together where it is in each.
pub proof fn lemma_bare_concat(a: Seq<Markup>, b: Seq<Markup>, n: Seq<char>)
    requires
        bare(a, n),
        bare(b, n),
    ensures
        bare(a + b, n),
        followed_by_text(a, n) && followed_by_text(b, n) ==> followed_by_text(a + b, n),
{
    if followed_by_text(a, n) && followed_by_text(b, n) {
        assert forall|i: int| 0 <= i < (a + b).len() && opens(#[trigger] (a + b)[i], n) implies i
            + 1 < (a + b).len() && (match (a + b)[i + 1] {
            Markup::Text { content } => content.len() > 0,
            _ => false,
        }) by {
            if i < a.len() {
                assert((a + b)[i] == a[i]);
                assert((a + b)[i + 1] == a[i + 1]);
            } else {
                assert((a + b)[i] == b[i - a.len()]);
                assert((a + b)[i + 1] == b[i + 1 - a.len()]);
            }
        }
    }
    assert forall|i: int| 0 <= i < (a + b).len() && opens(#[trigger] (a + b)[i], n) implies (a
        + b)[i] == (Markup::Open { name: n, attributes: Seq::empty() }) by {
        if i < a.len() {
            assert((a + b)[i] == a[i]);
        } else {
            assert((a + b)[i] == b[i - a.len()]);
        }
    }
}

/// What holds of every event of a sequence holds of every event of its two
/// parts.
pub proof fn lemma_parts(a: Seq<Markup>, b: Seq<Markup>, n: Seq<char>)
    ensures
        all_well_named(a + b) ==> all_well_named(a) && all_well_named(b),
        avoids(a + b, n) ==> avoids(a, n) && avoids(b, n),
{
    assert forall|i: int| 0 <= i < a.len() implies #[trigger] a[i] == (a + b)[i] by {}
    assert forall|i: int| 0 <= i < b.len() implies #[trigger] b[i] == (a + b)[i + a.len()] by {}
}

/// An element with content counts once where its name begins with `n`.
pub proof fn lemma_element_count(name: Seq<char>, content: Seq<char>, n: Seq<char>)
    ensures
        openings(element(name, content), n) == if has_prefix(name, n) {
            1nat
        } else {
            0nat
        },
        name == n ==> bare(element(name, content), n),
        content.len() > 0 ==> followed_by_text(element(name, content), n),
{
    let a = Markup::Open { name, attributes: Seq::empty() };
    let b = Markup::Text { content };
    let c = Markup::Close { name };
    assert(element(name, content) =~= seq![a] + seq![b] + seq![c]);
    lemma_openings_one(a, n);
    lemma_openings_one(b, n);
    lemma_openings_one(c, n);
    lemma_openings_concat(seq![a], seq![b], n);
    lemma_openings_concat(seq![a] + seq![b], seq![c], n);
}

/// Among the elements of a list of fields of which one only has a name
/// that begins with `n`, and that one the name `n` itself, the tag is bare
/// and followed by text, and it is held once where that field has content,
/// else no time.
pub proof fn lemma_one_field(fields: Seq<(Seq<char>, Seq<char>)>, n: Seq<char>, k: int)
    requires
        0 <= k < fields.len(),
        fields[k].0 == n,
        forall|j: int| 0 <= j < fields.len() && j != k ==> !has_prefix((#[trigger] fields[j]).0, n),
    ensures
        bare(optional_elements(fields), n),
        followed_by_text(optional_elements(fields), n),
        openings(optional_elements(fields), n) == if fields[k].1.len() > 0 {
            1nat
        } else {
            0nat
        },
    decreases fields.len(),
{
    let init = fields.drop_last();
    let last = fields.last();
    let first = optional_elements(init);
    let second = optional_element(last.0, last.1);
    assert forall|j: int| 0 <= j < init.len() implies #[trigger] init[j] == fields[j] by {}
    if k == fields.len() - 1 {
        lemma_fields_shape(init, n);
        lemma_avoided_count(first, n);
        if last.1.len() > 0 {
            assert(has_prefix(n, n)) by {
                assert(n.subrange(0, n.len() as int) =~= n);
            }
            lemma_element_count(last.0, last.1, n);
        } else {
            lemma_avoided_count(second, n);
        }
    } else {
        lemma_one_field(init, n, k);
        assert(!has_prefix(fields[fields.len() - 1].0, n));
        lemma_element_shape(last.0, last.1, n);
        lemma_avoided_count(second, n);
    }
    lemma_bare_concat(first, second, n);
    lemma_openings_concat(first, second, n);
}

/// Whether an item has content for the element `n`, one of the two
/// elements that only an item has: a GUID for `guid`, an author for
/// `author`.
pub open spec fn gives(item: Item, n: Seq<char>) -> bool {
    (n == "guid"@ && item.guid.len() > 0) || (n == "author"@ && item.author.len() > 0)
}

/// How many items have content for the element `n`.
pub open spec fn giving(items: Seq<Item>, n: Seq<char>) -> nat
    decreases items.len(),
{
    if items.len() == 0 {
        0
    } else {
        giving(items.drop_last(), n) + if gives(items.last(), n) {
            1nat
        } else {
            0nat
        }
    }
}

/// The blocks of items hold the start tag of a GUID once for each item
/// that has a GUID, that of an author once for each item that has an
/// author; both tags are bare among them and followed by text.
pub proof fn lemma_items_count(items: Seq<Item>, n: Seq<char>)
    requires
        item_tag(n),
    ensures
        bare(items_elements(items), n),
        followed_by_text(items_elements(items), n),
        openings(items_elements(items), n) == giving(items, n),
    decreases items.len(),
{
    if items.len() == 0 {
        lemma_avoided_count(items_elements(items), n);
    } else {
        let init = items.drop_last();
        let item = items.last();
        lemma_items_count(init, n);
        lemma_tag_facts(n);
        let fields = item_fields(item);
        let k: int = if n == "guid"@ {
            3
        } else {
            5
        };
        assert forall|j: int| 0 <= j < fields.len() && j != k implies !has_prefix(
            (#[trigger] fields[j]).0,
            n,
        ) by {
            let name = fields[j].0;
            assert(fixed_name(name) || channel_tag(name) || item_tag(name));
        }
        lemma_one_field(fields, n, k);
        let none = Seq::<(Seq<char>, Seq<char>)>::empty();
        let open = seq![Markup::Open { name: "item"@, attributes: none }];
        let close = seq![Markup::Close { name: "item"@ }];
        let inner = optional_elements(fields);
        assert(fixed_name("item"@));
        lemma_openings_one(open[0], n);
        lemma_openings_one(close[0], n);
        assert(avoids(open, n) && avoids(close, n));
        lemma_avoided_count(open, n);
        lemma_avoided_count(close, n);
        lemma_bare_concat(open, inner, n);
        lemma_bare_concat(open + inner, close, n);
        lemma_openings_concat(open, inner, n);
        lemma_openings_concat(open + inner, close, n);
        lemma_bare_concat(items_elements(init), item_elements(item), n);
        lemma_openings_concat(items_elements(init), item_elements(item), n);
    }
}

/// The events of the document of a feed that come before the blocks of its
/// items.
pub open spec fn before_items(feed: Feed) -> Seq<Markup> {
    seq![Markup::Declaration { version: "1.0"@, encoding: "utf-8"@ }] + seq![
        Markup::Open { name: root_name(feed.version), attributes: root_attributes(feed.version) },
    ] + seq![Markup::Open { name: "channel"@, attributes: Seq::empty() }] + channel_elements(feed)
        + extension_elements(feed)
}

/// The events of the document of a feed that come after the blocks of its
/// items.
pub open spec fn after_items(feed: Feed) -> Seq<Markup> {
    seq![Markup::Close { name: "channel"@ }] + seq![Markup::Close { name: root_name(feed.version) }]
}

/// The text of the blocks of items, one block after the other.
pub open spec fn blocks_text(items: Seq<Item>) -> Seq<char>
    decreases items.len(),
{
    if items.len() == 0 {
        Seq::empty()
    } else {
        blocks_text(items.drop_last()) + document_text(item_elements(items.last()))
    }
}

/// The text of the blocks of items is the text of each block, in order.
pub proof fn lemma_blocks_text(items: Seq<Item>)
    ensures
        document_text(items_elements(items)) == blocks_text(items),
    decreases items.len(),
{
    if items.len() > 0 {
        lemma_blocks_text(items.drop_last());
        lemma_document_text_concat(items_elements(items.drop_last()), item_elements(items.last()));
    }
}

/// The blocks of the items stand in the document between what comes before
/// them and what comes after them, and so do their texts in its text.
pub proof fn lemma_document_parts(feed: Feed)
    ensures
        document(feed) == before_items(feed) + items_elements(feed.items) + after_items(feed),
        document_text(document(feed)) == document_text(before_items(feed)) + blocks_text(
            feed.items,
        ) + document_text(after_items(feed)),
{
    let head = before_items(feed);
    let items = items_elements(feed.items);
    let tail = after_items(feed);
    assert(document(feed) =~= head + items + tail);
    lemma_blocks_text(feed.items);
    lemma_document_text_concat(head, items);
    lemma_document_text_concat(head + items, tail);
}

/// The names of the elements of an item: each can be found as a tag, and
/// neither `item` nor the name of another element of an item begins with
/// one of them.
pub proof fn lemma_item_names(item: Item, k: int)
    requires
        0 <= k < 6,
    ensures
        tag_like(item_fields(item)[k].0),
        !has_prefix("item"@, item_fields(item)[k].0),
        no_lt("item"@),
        forall|j: int| 0 <= j < 6 ==> no_lt((#[trigger] item_fields(item)[j]).0),
        forall|j: int|
            0 <= j < 6 && j != k ==> !has_prefix(
                (#[trigger] item_fields(item)[j]).0,
                item_fields(item)[k].0,
            ),
{
    reveal_strlit("item");
    reveal_strlit("title");
    reveal_strlit("link");
    reveal_strlit("description");
    reveal_strlit("guid");
    reveal_strlit("pubDate");
    reveal_strlit("author");
    let n = item_fields(item)[k].0;
    assert("item"@.len() == 4 && "item"@[0] == 'i');
    assert("title"@.len() == 5 && "title"@[0] == 't');
    assert("link"@.len() == 4 && "link"@[0] == 'l');
    assert("description"@.len() == 11 && "description"@[0] == 'd');
    assert("guid"@.len() == 4 && "guid"@[0] == 'g');
    assert("pubDate"@.len() == 7 && "pubDate"@[0] == 'p');
    assert("author"@.len() == 6 && "author"@[0] == 'a');
    assert(tag_like("title"@));
    assert(tag_like("link"@));
    assert(tag_like("description"@));
    assert(tag_like("guid"@));
    assert(tag_like("pubDate"@));
    assert(tag_like("author"@));
    assert(no_lt("item"@) && no_lt("title"@) && no_lt("link"@) && no_lt("description"@) && no_lt(
        "guid"@,
    ) && no_lt("pubDate"@) && no_lt("author"@));
    if has_prefix("item"@, n) {
        assert("item"@.subrange(0, n.len() as int)[0] == "item"@[0]);
    }
    assert forall|j: int| 0 <= j < 6 && j != k implies !has_prefix(
        (#[trigger] item_fields(item)[j]).0,
        n,
    ) by {
        let name = item_fields(item)[j].0;
        if has_prefix(name, n) {
            assert(name.subrange(0, n.len() as int)[0] == name[0]);
        }
    }
}

/// Omit if empty, for the block of an item in the text: a field of an item
/// that is empty leaves no tag of its element in the text of the block of
/// the item, whatever the other items of a feed hold.
pub proof fn lemma_empty_item_field_leaves_no_tag(item: Item, k: int)
    requires
        0 <= k < 6,
        item_fields(item)[k].1.len() == 0,
    ensures
        !holds_tag(document_text(item_elements(item)), item_fields(item)[k].0),
{
    let fields = item_fields(item);
    let n = fields[k].0;
    lemma_item_names(item, k);
    lemma_fields_shape(fields, n);
    let none = Seq::<(Seq<char>, Seq<char>)>::empty();
    let open = seq![Markup::Open { name: "item"@, attributes: none }];
    let close = seq![Markup::Close { name: "item"@ }];
    let inner = optional_elements(fields);
    lemma_open_shape("item"@, none, n);
    lemma_avoids_concat(open, inner, n);
    lemma_avoids_concat(open + inner, close, n);
    lemma_well_named_concat(open, inner);
    lemma_well_named_concat(open + inner, close);
    lemma_avoided_tag_is_absent(item_elements(item), n);
}

/// The document of a feed holds the start tag of a GUID once for each item
/// that has a GUID, that of an author once for each item that has an
/// author; both tags are bare in it and followed by text, and it is well
/// named.
pub proof fn lemma_document_count(feed: Feed, n: Seq<char>)
    requires
        item_tag(n),
    ensures
        all_well_named(document(feed)),
        bare(document(feed), n),
        followed_by_text(document(feed), n),
        openings(document(feed), n) == giving(feed.items, n),
{
    lemma_tag_facts(n);
    lemma_tag_facts("image"@);
    // The document of the feed without its items avoids the tag.
    let bare_feed = Feed { items: Seq::empty(), ..feed };
    assert(left_out(bare_feed, n)) by {
        assert forall|k: int| 0 <= k < 12 implies (#[trigger] channel_fields(bare_feed)[k]).0
            != n by {
            let name = channel_fields(bare_feed)[k].0;
            assert(fixed_name(name) || channel_tag(name));
        }
    }
    lemma_document_shape(bare_feed, n);
    // The document of the feed, with the blocks of its items in their place.
    let head = before_items(feed);
    let items = items_elements(feed.items);
    let tail = after_items(feed);
    lemma_document_parts(feed);
    lemma_document_parts(bare_feed);
    assert(items_elements(bare_feed.items) =~= Seq::<Markup>::empty());
    assert(channel_fields(bare_feed) == channel_fields(feed));
    assert(extension_elements(bare_feed) == extension_elements(feed));
    assert(document(bare_feed) =~= head + tail);
    lemma_parts(head, tail, n);
    lemma_items_shape(feed.items, "image"@);
    lemma_items_count(feed.items, n);
    lemma_avoided_count(head, n);
    lemma_avoided_count(tail, n);
    lemma_well_named_concat(head, items);
    lemma_well_named_concat(head + items, tail);
    lemma_bare_concat(head, items, n);
    lemma_bare_concat(head + items, tail, n);
    lemma_openings_concat(head, items, n);
    lemma_openings_concat(head + items, tail, n);
}

/// Omit if empty, counted in the text: the text of the document of a feed
/// holds `<guid>` at as many places as the feed has items with a GUID, and
/// `<author>` at as many places as it has items with an author.
pub proof fn lemma_item_tags_are_counted(feed: Feed)
    ensures
        occurrences(document_text(document(feed)), "<guid>"@) == giving(feed.items, "guid"@),
        occurrences(document_text(document(feed)), "<author>"@) == giving(feed.items, "author"@),
{
    reveal_strlit("guid");
    reveal_strlit("author");
    reveal_strlit("<guid>");
    reveal_strlit("<author>");
    assert(bare_tag("guid"@) =~= "<guid>"@);
    assert(bare_tag("author"@) =~= "<author>"@);
    lemma_tag_facts("guid"@);
    lemma_tag_facts("author"@);
    lemma_document_count(feed, "guid"@);
    lemma_document_count(feed, "author"@);
    lemma_tags_are_counted(document(feed), "guid"@);
    lemma_tags_are_counted(document(feed), "author"@);
}

/// Omit if empty, for the tags of an item in the text: wherever the text of
/// the document of a feed holds `<guid`, it holds `<guid>`, and wherever it
/// holds `<author`, it holds `<author>`. So it holds neither `<guid/>` nor
/// `<author/>`.
pub proof fn lemma_item_tags_are_closed(feed: Feed, p: int)
    ensures
        matches_at(document_text(document(feed)), p, "<guid"@) ==> matches_at(
            document_text(document(feed)),
            p,
            "<guid>"@,
        ),
        matches_at(document_text(document(feed)), p, "<author"@) ==> matches_at(
            document_text(document(feed)),
            p,
            "<author>"@,
        ),
{
    reveal_strlit("guid");
    reveal_strlit("author");
    reveal_strlit("<guid");
    reveal_strlit("<author");
    reveal_strlit("<guid>");
    reveal_strlit("<author>");
    assert(bare_tag("guid"@) =~= "<guid>"@);
    assert(bare_tag("author"@) =~= "<author>"@);
    assert(seq!['<'] + "guid"@ =~= "<guid"@);
    assert(seq!['<'] + "author"@ =~= "<author"@);
    lemma_tag_facts("guid"@);
    lemma_tag_facts("author"@);
    lemma_document_count(feed, "guid"@);
    lemma_document_count(feed, "author"@);
    if matches_at(document_text(document(feed)), p, "<guid"@) {
        let i = lemma_found_tag(document(feed), "guid"@, p);
    }
    if matches_at(document_text(document(feed)), p, "<author"@) {
        let i = lemma_found_tag(document(feed), "author"@, p);
    }
}

/// Text with content is not empty once it is escaped.
pub proof fn lemma_escaped_content(s: Seq<char>)
    requires
        s.len() > 0,
    ensures
        escaped(s).len() > 0,
{
    let f = |c: char| xml_entity(c);
    assert(expand(s, f) == expand(s.drop_last(), f) + f(s.last()));
}

/// Where `<` and `n` stand in the text of well-named events among which
/// the tag is bare and followed by text, the tag is closed and a character
/// of its content comes next, which is no `<`.
pub proof fn lemma_tag_has_content(events: Seq<Markup>, n: Seq<char>, p: int)
    requires
        all_well_named(events),
        tag_like(n),
        bare(events, n),
        followed_by_text(events, n),
        matches_at(document_text(events), p, seq!['<'] + n),
    ensures
        p + bare_tag(n).len() < document_text(events).len(),
        document_text(events)[p + bare_tag(n).len()] != '<',
{
    let text = document_text(events);
    let i = lemma_found_tag(events, n, p);
    let next = offset(events, i + 1);
    match events[i + 1] {
        Markup::Text { content } => {
            let written = escaped(content);
            lemma_escaped_content(content);
            lemma_escaped_no_lt(content);
            lemma_markup_stands(events, i + 1);
            assert(text.subrange(next, next + written.len())[0] == written[0]);
        },
        _ => {},
    }
}

/// Omit if empty, for the content of the tags of an item in the text:
/// wherever the text of the document of a feed holds `<guid>` or
/// `<author>`, content comes next and no tag. So the text holds neither
/// `<guid></guid>` nor `<author></author>`.
pub proof fn lemma_item_tags_have_content(feed: Feed, p: int)
    ensures
        matches_at(document_text(document(feed)), p, "<guid>"@) ==> p + 6 < document_text(
            document(feed),
        ).len() && document_text(document(feed))[p + 6] != '<',
        matches_at(document_text(document(feed)), p, "<author>"@) ==> p + 8 < document_text(
            document(feed),
        ).len() && document_text(document(feed))[p + 8] != '<',
{
    reveal_strlit("guid");
    reveal_strlit("author");
    reveal_strlit("<guid>");
    reveal_strlit("<author>");
    let text = document_text(document(feed));
    assert(bare_tag("guid"@) =~= "<guid>"@);
    assert(bare_tag("author"@) =~= "<author>"@);
    assert(seq!['<'] + "guid"@ + seq!['>'] =~= "<guid>"@);
    assert(seq!['<'] + "author"@ + seq!['>'] =~= "<author>"@);
    lemma_tag_facts("guid"@);
    lemma_tag_facts("author"@);
    lemma_document_count(feed, "guid"@);
    lemma_document_count(feed, "author"@);
    if matches_at(text, p, "<guid>"@) {
        lemma_longer_tag(text, "guid"@, seq!['>'], p);
        lemma_tag_has_content(document(feed), "guid"@, p);
    }
    if matches_at(text, p, "<author>"@) {
        lemma_longer_tag(text, "author"@, seq!['>'], p);
        lemma_tag_has_content(document(feed), "author"@, p);
    }
}

} // verus!
