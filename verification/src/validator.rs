//! The feed validator: every rule is checked, and all violations are
//! reported together.

use crate::calendar::{date_in_format, fits_format, in_utc, marked_as_utc, read_in_format};
use crate::data::{feed_errors, item_errors, optional_text, Feed, Item, RssData, RssVersion};
use crate::error::{failure_line, texts, violation_line, Failure, RssError, ValidationError,
    Violation};
use crate::link::{read_scheme, scheme};
use crate::text::{chars_match_at, decimal, decimal_text, from_chars, has_suffix, join, join3,
    same_text, to_chars};
use dtt::datetime::DateTime;
use vstd::hash_map::StringHashMap;
use vstd::prelude::*;
use vstd::string::*;

verus! {

/// Maximum allowed length for URL strings, in characters.
pub const MAX_URL_LENGTH: usize = 2000;

/// How the dates of a feed are written, without the zone: weekday, day,
/// month, year and clock, as in `Mon, 01 Jan 2024 00:00:00`.
pub const RSS_DATE_FORMAT: &'static str =
    "[weekday repr:short], [day] [month repr:short] [year] [hour]:[minute]:[second]";

/// RSS feed validator for validating the structure and content of an RSS
/// feed.
#[derive(Debug)]
pub struct RssFeedValidator<'a> {
    rss_data: &'a RssData,
}

/// What a list of validation errors says.
pub open spec fn violations(errors: Seq<ValidationError>) -> Seq<Violation> {
    Seq::new(errors.len(), |i: int| errors[i]@)
}

/// The one violation with the given field and message.
pub open spec fn one(field: Seq<char>, message: Seq<char>) -> Seq<Violation> {
    seq![Violation { field, message }]
}

/// The violations of a rule that is checked item by item: those of the
/// first item, then those of the second, and so on. The rule is given the
/// index of the item and the item.
pub open spec fn each_item(items: Seq<Item>, rule: spec_fn(int, Item) -> Seq<Violation>) -> Seq<
    Violation,
>
    decreases items.len(),
{
    if items.len() == 0 {
        Seq::empty()
    } else {
        each_item(items.drop_last(), rule) + rule(items.len() - 1, items.last())
    }
}

/// The violation of the basic check of the feed: one violation for all it
/// found.
pub open spec fn rss_data_violations(feed: Feed) -> Seq<Violation> {
    if feed_errors(feed).len() > 0 {
        one("rss_data"@, failure_line(Failure::ValidationErrors(feed_errors(feed))))
    } else {
        Seq::empty()
    }
}

/// The violation of an address in the named field, if it has one, given
/// the scheme that was read from it: the address is a URL, and its scheme
/// is `http` or `https`.
pub open spec fn scheme_violations(
    address: Seq<char>,
    scheme: Option<Seq<char>>,
    field: Seq<char>,
) -> Seq<Violation> {
    match scheme {
        Some(scheme) => if scheme == "http"@ || scheme == "https"@ {
            Seq::empty()
        } else {
            one(
                field,
                "Invalid URL scheme in "@ + field + ": "@ + address
                    + ". Only HTTP and HTTPS are allowed."@,
            )
        },
        None => one(field, "Invalid URL in "@ + field + ": "@ + address),
    }
}

/// The violation of an address in the named field, if it has one. An
/// address has at most 2000 characters, is a URL, and its scheme is `http`
/// or `https`. An address that is too long is not looked at any further.
pub open spec fn url_violations(address: Seq<char>, field: Seq<char>) -> Seq<Violation> {
    if address.len() > 2000 {
        one(field, "URL exceeds maximum length of 2000 characters"@)
    } else {
        scheme_violations(address, scheme(address), field)
    }
}

/// The name of the item at `index`: `item[index]`.
pub open spec fn item_name(index: int) -> Seq<char> {
    "item["@ + decimal(index as nat) + "]"@
}

/// Whether the GUID of the item at `index` is that of an earlier item.
pub open spec fn repeats_guid(items: Seq<Item>, index: int) -> bool {
    exists|j: int| 0 <= j < index && #[trigger] items[j].guid == items[index].guid
}

/// The violations of the rule that no two items share a GUID: the first
/// item with a GUID stands, every later one is reported.
pub open spec fn guid_violations(items: Seq<Item>) -> Seq<Violation> {
    each_item(
        items,
        |i: int, item: Item|
            if repeats_guid(items, i) {
                one("guid"@, "Duplicate GUID found: "@ + item.guid)
            } else {
                Seq::empty()
            },
    )
}

/// The violation of the rule that an RSS 2.0 feed has an Atom link.
pub open spec fn atom_link_violations(feed: Feed) -> Seq<Violation> {
    if feed.version is RSS2_0 && feed.atom_link.len() == 0 {
        one("atom_link"@, "atom:link is required for RSS 2.0 feeds"@)
    } else {
        Seq::empty()
    }
}

/// The violation of the rule that a feed has at least one item.
pub open spec fn presence_violations(feed: Feed) -> Seq<Violation> {
    if feed.items.len() == 0 {
        one("items"@, "RSS feed must contain at least one item"@)
    } else {
        Seq::empty()
    }
}

/// The violations of the links of the items.
pub open spec fn item_link_violations(items: Seq<Item>) -> Seq<Violation> {
    each_item(items, |i: int, item: Item| url_violations(item.link, item_name(i) + " link"@))
}

/// The violations of the structure of a feed: of the link of the channel,
/// of the links of the items, of the number of items, of the GUIDs and of
/// the Atom link.
pub open spec fn structure_violations(feed: Feed) -> Seq<Violation> {
    url_violations(feed.link, "channel link"@) + item_link_violations(feed.items)
        + presence_violations(feed) + guid_violations(feed.items) + atom_link_violations(feed)
}

/// The violations of the checks of the items: for each item, one violation
/// for all that its check found.
pub open spec fn items_violations(items: Seq<Item>) -> Seq<Violation> {
    each_item(
        items,
        |i: int, item: Item|
            if item_errors(item).len() > 0 {
                one(
                    item_name(i),
                    "Item validation failed: "@ + failure_line(
                        Failure::ValidationErrors(item_errors(item)),
                    ),
                )
            } else {
                Seq::empty()
            },
    )
}

/// Why a text is refused as the date of a feed, if it is: the payload of
/// the date error. The date of a feed ends with ` GMT`, and what stands
/// before that is written as `RSS_DATE_FORMAT` describes.
pub open spec fn feed_date_failure(date: Seq<char>) -> Option<Seq<char>> {
    if !has_suffix(date, " GMT"@) {
        Some("Invalid date format (missing GMT): "@ + date)
    } else if !fits_format(date.subrange(0, date.len() - 4), RSS_DATE_FORMAT@) {
        Some("Failed to parse date: "@ + date)
    } else {
        None
    }
}

/// The date of a feed as it is read: what stands before ` GMT`, read as
/// `RSS_DATE_FORMAT` describes and marked as UTC.
pub open spec fn feed_date(date: Seq<char>) -> Option<DateTime> {
    match date_in_format(date.subrange(0, date.len() - 4), RSS_DATE_FORMAT@) {
        Some(read) => Some(in_utc(read)),
        None => None,
    }
}

/// The violation of a date in the named field, if it has one. An empty
/// date has none.
pub open spec fn date_violations(date: Seq<char>, field: Seq<char>) -> Seq<Violation> {
    if date.len() == 0 {
        Seq::empty()
    } else {
        match feed_date_failure(date) {
            Some(message) => one(
                field,
                "Invalid date format: "@ + failure_line(Failure::DateParse(message)),
            ),
            None => Seq::empty(),
        }
    }
}

/// The violations of the dates of a feed: of the publication date and the
/// last build date of the channel, and of the publication dates of the
/// items.
pub open spec fn dates_violations(feed: Feed) -> Seq<Violation> {
    date_violations(feed.pub_date, "pubDate"@) + date_violations(
        feed.last_build_date,
        "lastBuildDate"@,
    ) + each_item(
        feed.items,
        |i: int, item: Item| date_violations(item.pub_date, item_name(i) + ".pubDate"@),
    )
}

/// Whether one of the items has no GUID.
pub open spec fn lacks_guid(items: Seq<Item>) -> bool {
    exists|i: int| 0 <= i < items.len() && #[trigger] items[i].guid.len() == 0
}

/// The violations of the rules of the dialect of a feed. An RSS 2.0 feed
/// names its generator and has an Atom link. Every item of an RSS 1.0 feed
/// has a GUID. The other dialects have no rules of their own.
pub open spec fn version_violations(feed: Feed) -> Seq<Violation> {
    match feed.version {
        RssVersion::RSS2_0 => (if feed.generator.len() == 0 {
            one("generator"@, "generator is recommended for RSS 2.0 feeds"@)
        } else {
            Seq::empty()
        }) + (if feed.atom_link.len() == 0 {
            one("atom_link"@, "atom:link is required for RSS 2.0 feeds"@)
        } else {
            Seq::empty()
        }),
        RssVersion::RSS1_0 => if lacks_guid(feed.items) {
            one("guid"@, "All items must have a guid in RSS 1.0"@)
        } else {
            Seq::empty()
        },
        _ => Seq::empty(),
    }
}

/// All violations of a feed, in the order in which the rules are checked:
/// the basic check, the structure, the items, the dates, the dialect.
pub open spec fn all_violations(feed: Feed) -> Seq<Violation> {
    rss_data_violations(feed) + structure_violations(feed) + items_violations(feed.items)
        + dates_violations(feed) + version_violations(feed)
}

/// The diagnostic lines of a list of violations.
pub open spec fn violation_lines(list: Seq<Violation>) -> Seq<Seq<char>> {
    Seq::new(list.len(), |i: int| violation_line(list[i]))
}

/// Whether `after` holds the errors of `before` and, after them, `more`.
pub open spec fn reported(
    before: Seq<ValidationError>,
    after: Seq<ValidationError>,
    more: Seq<Violation>,
) -> bool {
    violations(after) == violations(before) + more
}

fn report(errors: &mut Vec<ValidationError>, field: String, message: String)
    ensures
        reported(old(errors)@, final(errors)@, one(field@, message@)),
{
    errors.push(ValidationError { field, message });
    assert(violations(errors@) =~= violations(old(errors)@) + one(field@, message@));
}

proof fn lemma_reported_nothing(errors: Seq<ValidationError>)
    ensures
        reported(errors, errors, Seq::empty()),
{
    assert(violations(errors) + Seq::<Violation>::empty() =~= violations(errors));
}

proof fn lemma_reported_then(
    a: Seq<ValidationError>,
    b: Seq<ValidationError>,
    c: Seq<ValidationError>,
    x: Seq<Violation>,
    y: Seq<Violation>,
)
    requires
        reported(a, b, x),
        reported(b, c, y),
    ensures
        reported(a, c, x + y),
{
    assert(violations(a) + x + y =~= violations(a) + (x + y));
}

/// The name of the item at `index`, followed by `suffix`.
fn item_field_name(index: usize, suffix: &str) -> (name: String)
    ensures
        name@ == item_name(index as int) + suffix@,
{
    let number = decimal_text(index);
    let mut name = join3("item[", number.as_str(), "]");
    name.append(suffix);
    name
}

impl<'a> RssFeedValidator<'a> {
    /// The feed that is validated.
    pub closed spec fn feed(&self) -> Feed {
        self.rss_data@
    }

    /// Creates a new `RssFeedValidator` instance with the provided
    /// `RssData`.
    pub fn new(rss_data: &'a RssData) -> (validator: RssFeedValidator<'a>)
        ensures
            validator.feed() == rss_data@,
    {
        RssFeedValidator { rss_data }
    }

    /// Validates the RSS feed structure and content. Every rule is checked;
    /// the error carries the line of every violation.
    pub fn validate(&self) -> (r: Result<(), RssError>)
        ensures
            match r {
                Ok(()) => all_violations(self.feed()).len() == 0,
                Err(e) => e@ == Failure::ValidationErrors(
                    violation_lines(all_violations(self.feed())),
                ) && all_violations(self.feed()).len() > 0,
            },
    {
        let mut errors: Vec<ValidationError> = Vec::new();
        let ghost e0 = errors@;
        proof {
            assert(violations(e0) =~= Seq::<Violation>::empty());
        }
        self.validate_rss_data(&mut errors);
        let ghost e1 = errors@;
        self.validate_structure(&mut errors);
        let ghost e2 = errors@;
        self.validate_items(&mut errors);
        let ghost e3 = errors@;
        self.validate_dates(&mut errors);
        let ghost e4 = errors@;
        self.validate_version_specific(&mut errors);
        proof {
            let feed = self.feed();
            lemma_reported_then(e0, e1, e2, rss_data_violations(feed), structure_violations(feed));
            lemma_reported_then(
                e0,
                e2,
                e3,
                rss_data_violations(feed) + structure_violations(feed),
                items_violations(feed.items),
            );
            lemma_reported_then(
                e0,
                e3,
                e4,
                rss_data_violations(feed) + structure_violations(feed) + items_violations(
                    feed.items,
                ),
                dates_violations(feed),
            );
            lemma_reported_then(
                e0,
                e4,
                errors@,
                rss_data_violations(feed) + structure_violations(feed) + items_violations(
                    feed.items,
                ) + dates_violations(feed),
                version_violations(feed),
            );
            assert(violations(errors@) =~= all_violations(feed));
        }
        if errors.is_empty() {
            Ok(())
        } else {
            let ghost all = violations(errors@);
            let mut lines: Vec<String> = Vec::new();
            let mut i: usize = 0;
            while i < errors.len()
                invariant
                    i <= errors@.len(),
                    lines@.len() == i,
                    all == violations(errors@),
                    texts(lines@) == violation_lines(all.take(i as int)),
                decreases errors@.len() - i,
            {
                let line = errors[i].to_string();
                let ghost before = texts(lines@);
                lines.push(line);
                proof {
                    let next = violation_lines(all.take(i + 1));
                    assert forall|k: int| 0 <= k < next.len() implies texts(lines@)[k]
                        == next[k] by {
                        if k < i {
                            assert(texts(lines@)[k] == before[k]);
                            assert(before[k] == violation_line(all.take(i as int)[k]));
                        } else {
                            assert(all.take(i + 1)[k] == errors@[i as int]@);
                        }
                    }
                    assert(texts(lines@) =~= next);
                }
                i += 1;
            }
            proof {
                assert(all.take(errors@.len() as int) == all);
            }
            Err(RssError::ValidationErrors(lines))
        }
    }

    /// Validates the base RssData structure.
    pub fn validate_rss_data(&self, errors: &mut Vec<ValidationError>)
        ensures
            reported(old(errors)@, final(errors)@, rss_data_violations(self.feed())),
    {
        match self.rss_data.validate() {
            Ok(()) => {
                proof {
                    lemma_reported_nothing(errors@);
                }
            },
            Err(e) => {
                report(errors, "rss_data".to_owned(), e.to_string());
            },
        }
    }

    /// Validates the overall structure of the RSS feed.
    pub fn validate_structure(&self, errors: &mut Vec<ValidationError>)
        ensures
            reported(old(errors)@, final(errors)@, structure_violations(self.feed())),
    {
        let ghost feed = self.feed();
        let ghost e0 = errors@;
        self.validate_url(self.rss_data.link.as_str(), "channel link", errors);
        let ghost e1 = errors@;
        let ghost rule = |i: int, item: Item| url_violations(item.link, item_name(i) + " link"@);
        let mut index: usize = 0;
        proof {
            lemma_reported_nothing(errors@);
            assert(feed.items.take(0) =~= Seq::<Item>::empty());
        }
        while index < self.rss_data.items.len()
            invariant
                index <= self.rss_data.items@.len(),
                feed == self.feed(),
                rule == (|i: int, item: Item|
                    url_violations(item.link, item_name(i) + " link"@)),
                reported(e1, errors@, each_item(feed.items.take(index as int), rule)),
            decreases self.rss_data.items@.len() - index,
        {
            let item = &self.rss_data.items[index];
            let field = item_field_name(index, " link");
            let ghost here = errors@;
            proof {
                let next = feed.items.take(index + 1);
                assert(next.drop_last() == feed.items.take(index as int));
                assert(next.last() == item@);
            }
            self.validate_url(item.link.as_str(), field.as_str(), errors);
            proof {
                lemma_reported_then(
                    e1,
                    here,
                    errors@,
                    each_item(feed.items.take(index as int), rule),
                    rule(index as int, item@),
                );
            }
            index += 1;
        }
        proof {
            assert(feed.items.take(feed.items.len() as int) == feed.items);
        }
        let ghost e2 = errors@;
        if self.rss_data.items.is_empty() {
            report(
                errors,
                "items".to_owned(),
                "RSS feed must contain at least one item".to_owned(),
            );
        } else {
            proof {
                lemma_reported_nothing(errors@);
            }
        }
        let ghost e3 = errors@;
        self.validate_guids(errors);
        let ghost e4 = errors@;
        self.validate_atom_link(errors);
        proof {
            let a = url_violations(feed.link, "channel link"@);
            let b = item_link_violations(feed.items);
            let c = presence_violations(feed);
            let d = guid_violations(feed.items);
            lemma_reported_then(e0, e1, e2, a, b);
            lemma_reported_then(e0, e2, e3, a + b, c);
            lemma_reported_then(e0, e3, e4, a + b + c, d);
            lemma_reported_then(e0, e4, errors@, a + b + c + d, atom_link_violations(feed));
        }
    }

    /// Validates that all GUIDs in the feed are unique.
    pub fn validate_guids(&self, errors: &mut Vec<ValidationError>)
        ensures
            reported(old(errors)@, final(errors)@, guid_violations(self.feed().items)),
    {
        let ghost items = self.feed().items;
        let ghost rule = |i: int, item: Item|
            if repeats_guid(items, i) {
                one("guid"@, "Duplicate GUID found: "@ + item.guid)
            } else {
                Seq::empty()
            };
        let mut guids = StringHashMap::<bool>::new();
        let mut index: usize = 0;
        proof {
            lemma_reported_nothing(errors@);
            assert(items.take(0) =~= Seq::<Item>::empty());
        }
        while index < self.rss_data.items.len()
            invariant
                index <= self.rss_data.items@.len(),
                items == self.feed().items,
                forall|g: Seq<char>|
                    guids@.contains_key(g) <==> exists|j: int|
                        0 <= j < index && (#[trigger] items[j]).guid == g,
                rule == (|i: int, item: Item|
                    if repeats_guid(items, i) {
                        one("guid"@, "Duplicate GUID found: "@ + item.guid)
                    } else {
                        Seq::empty()
                    }),
                reported(old(errors)@, errors@, each_item(items.take(index as int), rule)),
            decreases self.rss_data.items@.len() - index,
        {
            let item = &self.rss_data.items[index];
            let ghost here = errors@;
            proof {
                let next = items.take(index + 1);
                assert(next.drop_last() == items.take(index as int));
                assert(next.last() == item@);
            }
            let seen = guids.contains_key(item.guid.as_str());
            proof {
                if seen {
                    let j = choose|j: int| 0 <= j < index && (#[trigger] items[j]).guid == item@.guid;
                    assert(items[j].guid == items[index as int].guid);
                }
            }
            let ghost known = guids@;
            guids.insert(item.guid.clone(), true);
            proof {
                assert forall|g: Seq<char>| guids@.contains_key(g) <==> exists|j: int|
                    0 <= j < index + 1 && (#[trigger] items[j]).guid == g by {
                    if guids@.contains_key(g) {
                        if g == item@.guid {
                            assert(items[index as int].guid == g);
                        } else {
                            assert(known.contains_key(g));
                            let j = choose|j: int| 0 <= j < index && (#[trigger] items[j]).guid == g;
                            assert(items[j].guid == g);
                        }
                    }
                    if exists|j: int| 0 <= j < index + 1 && (#[trigger] items[j]).guid == g {
                        let j = choose|j: int| 0 <= j < index + 1 && (#[trigger] items[j]).guid == g;
                        if j < index {
                            assert(known.contains_key(g));
                        }
                    }
                }
            }
            if seen {
                report(
                    errors,
                    "guid".to_owned(),
                    join("Duplicate GUID found: ", item.guid.as_str()),
                );
            } else {
                proof {
                    lemma_reported_nothing(errors@);
                }
            }
            proof {
                lemma_reported_then(
                    old(errors)@,
                    here,
                    errors@,
                    each_item(items.take(index as int), rule),
                    rule(index as int, item@),
                );
            }
            index += 1;
        }
        proof {
            assert(items.take(items.len() as int) == items);
        }
    }

    /// Validates the presence of atom:link for RSS 2.0 feeds.
    pub fn validate_atom_link(&self, errors: &mut Vec<ValidationError>)
        ensures
            reported(old(errors)@, final(errors)@, atom_link_violations(self.feed())),
    {
        if matches!(self.rss_data.version, RssVersion::RSS2_0)
            && self.rss_data.atom_link.as_str().is_empty() {
            report(
                errors,
                "atom_link".to_owned(),
                "atom:link is required for RSS 2.0 feeds".to_owned(),
            );
        } else {
            proof {
                lemma_reported_nothing(errors@);
            }
        }
    }

    /// Validates individual items in the RSS feed.
    pub fn validate_items(&self, errors: &mut Vec<ValidationError>)
        ensures
            reported(old(errors)@, final(errors)@, items_violations(self.feed().items)),
    {
        let ghost items = self.feed().items;
        let ghost rule = |i: int, item: Item|
            if item_errors(item).len() > 0 {
                one(
                    item_name(i),
                    "Item validation failed: "@ + failure_line(
                        Failure::ValidationErrors(item_errors(item)),
                    ),
                )
            } else {
                Seq::empty()
            };
        let mut index: usize = 0;
        proof {
            lemma_reported_nothing(errors@);
            assert(items.take(0) =~= Seq::<Item>::empty());
        }
        while index < self.rss_data.items.len()
            invariant
                index <= self.rss_data.items@.len(),
                items == self.feed().items,
                rule == (|i: int, item: Item|
                    if item_errors(item).len() > 0 {
                        one(
                            item_name(i),
                            "Item validation failed: "@ + failure_line(
                                Failure::ValidationErrors(item_errors(item)),
                            ),
                        )
                    } else {
                        Seq::empty()
                    }),
                reported(old(errors)@, errors@, each_item(items.take(index as int), rule)),
            decreases self.rss_data.items@.len() - index,
        {
            let item = &self.rss_data.items[index];
            let ghost here = errors@;
            proof {
                let next = items.take(index + 1);
                assert(next.drop_last() == items.take(index as int));
                assert(next.last() == item@);
            }
            match item.validate() {
                Ok(()) => {
                    proof {
                        lemma_reported_nothing(errors@);
                    }
                },
                Err(e) => {
                    let line = e.to_string();
                    let field = item_field_name(index, "");
                    proof {
                        reveal_strlit("");
                        assert(""@.len() == 0);
                        assert(field@ =~= item_name(index as int));
                    }
                    report(errors, field, join("Item validation failed: ", line.as_str()));
                },
            }
            proof {
                lemma_reported_then(
                    old(errors)@,
                    here,
                    errors@,
                    each_item(items.take(index as int), rule),
                    rule(index as int, item@),
                );
            }
            index += 1;
        }
        proof {
            assert(items.take(items.len() as int) == items);
        }
    }

    /// Validates all dates in the RSS feed.
    pub fn validate_dates(&self, errors: &mut Vec<ValidationError>)
        ensures
            reported(old(errors)@, final(errors)@, dates_violations(self.feed())),
    {
        let ghost feed = self.feed();
        let ghost items = feed.items;
        let ghost e0 = errors@;
        self.validate_date(self.rss_data.pub_date.as_str(), "pubDate", errors);
        let ghost e1 = errors@;
        self.validate_date(self.rss_data.last_build_date.as_str(), "lastBuildDate", errors);
        let ghost e2 = errors@;
        let ghost rule = |i: int, item: Item|
            date_violations(item.pub_date, item_name(i) + ".pubDate"@);
        let mut index: usize = 0;
        proof {
            lemma_reported_nothing(errors@);
            assert(items.take(0) =~= Seq::<Item>::empty());
        }
        while index < self.rss_data.items.len()
            invariant
                index <= self.rss_data.items@.len(),
                items == self.feed().items,
                rule == (|i: int, item: Item|
                    date_violations(item.pub_date, item_name(i) + ".pubDate"@)),
                reported(e2, errors@, each_item(items.take(index as int), rule)),
            decreases self.rss_data.items@.len() - index,
        {
            let item = &self.rss_data.items[index];
            let field = item_field_name(index, ".pubDate");
            let ghost here = errors@;
            proof {
                let next = items.take(index + 1);
                assert(next.drop_last() == items.take(index as int));
                assert(next.last() == item@);
            }
            self.validate_date(item.pub_date.as_str(), field.as_str(), errors);
            proof {
                lemma_reported_then(
                    e2,
                    here,
                    errors@,
                    each_item(items.take(index as int), rule),
                    rule(index as int, item@),
                );
            }
            index += 1;
        }
        proof {
            assert(items.take(items.len() as int) == items);
            let a = date_violations(feed.pub_date, "pubDate"@);
            let b = date_violations(feed.last_build_date, "lastBuildDate"@);
            lemma_reported_then(e0, e1, e2, a, b);
            lemma_reported_then(e0, e2, errors@, a + b, each_item(items, rule));
        }
    }

    /// Validates a single date string.
    pub fn validate_date(&self, date_str: &str, field: &str, errors: &mut Vec<ValidationError>)
        ensures
            reported(old(errors)@, final(errors)@, date_violations(date_str@, field@)),
    {
        if !date_str.is_empty() {
            match self.parse_date(date_str) {
                Ok(_) => {
                    proof {
                        lemma_reported_nothing(errors@);
                    }
                },
                Err(e) => {
                    let line = e.to_string();
                    report(errors, field.to_owned(), join("Invalid date format: ", line.as_str()));
                },
            }
        } else {
            proof {
                lemma_reported_nothing(errors@);
            }
        }
    }

    /// Parses the date of a feed. A date that does not end with ` GMT` is
    /// refused, as is one whose rest is not written as `RSS_DATE_FORMAT`
    /// describes. Every other date comes back as it was read, marked as
    /// UTC.
    pub fn parse_date(&self, date_str: &str) -> (r: Result<DateTime, RssError>)
        ensures
            match feed_date_failure(date_str@) {
                None => r matches Ok(date) && feed_date(date_str@) == Some(date),
                Some(message) => r matches Err(e) && e@ == Failure::DateParse(message),
            },
            !has_suffix(date_str@, " GMT"@) ==> r is Err,
    {
        let chars = to_chars(date_str);
        let suffix = to_chars(" GMT");
        proof {
            reveal_strlit(" GMT");
            assert(suffix@.len() == 4);
        }
        let n = chars.len();
        if n < 4 || !chars_match_at(&chars, n - 4, &suffix) {
            return Err(
                RssError::DateParseError(join("Invalid date format (missing GMT): ", date_str)),
            );
        }
        let date_without_gmt = from_chars(&chars, 0, n - 4);
        let read = read_in_format(date_without_gmt.as_str(), RSS_DATE_FORMAT);
        settle_date(date_str, read)
    }

    /// Validates version-specific requirements of the RSS feed.
    pub fn validate_version_specific(&self, errors: &mut Vec<ValidationError>)
        ensures
            reported(old(errors)@, final(errors)@, version_violations(self.feed())),
    {
        let ghost e0 = errors@;
        match self.rss_data.version {
            RssVersion::RSS2_0 => {
                if self.rss_data.generator.as_str().is_empty() {
                    report(
                        errors,
                        "generator".to_owned(),
                        "generator is recommended for RSS 2.0 feeds".to_owned(),
                    );
                } else {
                    proof {
                        lemma_reported_nothing(errors@);
                    }
                }
                let ghost e1 = errors@;
                let ghost first = if self.feed().generator.len() == 0 {
                    one("generator"@, "generator is recommended for RSS 2.0 feeds"@)
                } else {
                    Seq::empty()
                };
                if self.rss_data.atom_link.as_str().is_empty() {
                    report(
                        errors,
                        "atom_link".to_owned(),
                        "atom:link is required for RSS 2.0 feeds".to_owned(),
                    );
                } else {
                    proof {
                        lemma_reported_nothing(errors@);
                    }
                }
                proof {
                    let second = if self.feed().atom_link.len() == 0 {
                        one("atom_link"@, "atom:link is required for RSS 2.0 feeds"@)
                    } else {
                        Seq::empty()
                    };
                    lemma_reported_then(e0, e1, errors@, first, second);
                }
            },
            RssVersion::RSS1_0 => {
                let ghost items = self.feed().items;
                let mut missing = false;
                let mut i: usize = 0;
                while i < self.rss_data.items.len() && !missing
                    invariant
                        i <= self.rss_data.items@.len(),
                        items == self.feed().items,
                        missing ==> lacks_guid(items),
                        !missing ==> forall|k: int| 0 <= k < i ==> items[k].guid.len() != 0,
                    decreases self.rss_data.items@.len() - i + (if missing { 0int } else { 1int }),
                {
                    if self.rss_data.items[i].guid.as_str().is_empty() {
                        missing = true;
                        proof {
                            assert(items[i as int].guid.len() == 0);
                        }
                    } else {
                        i += 1;
                    }
                }
                if missing {
                    report(
                        errors,
                        "guid".to_owned(),
                        "All items must have a guid in RSS 1.0".to_owned(),
                    );
                } else {
                    proof {
                        lemma_reported_nothing(errors@);
                    }
                }
            },
            RssVersion::RSS0_92 | RssVersion::RSS0_91 | RssVersion::RSS0_90 => {
                proof {
                    lemma_reported_nothing(errors@);
                }
            },
        }
    }

    /// Validates a URL string.
    pub fn validate_url(&self, url: &str, field: &str, errors: &mut Vec<ValidationError>)
        ensures
            reported(old(errors)@, final(errors)@, url_violations(url@, field@)),
    {
        if url.unicode_len() > MAX_URL_LENGTH {
            report(
                errors,
                field.to_owned(),
                "URL exceeds maximum length of 2000 characters".to_owned(),
            );
            return ;
        }
        self.validate_scheme(url, read_scheme(url), field, errors);
    }

    /// Validates an address from the scheme that was read from it.
    pub fn validate_scheme(
        &self,
        url: &str,
        scheme: Option<String>,
        field: &str,
        errors: &mut Vec<ValidationError>,
    )
        ensures
            reported(
                old(errors)@,
                final(errors)@,
                scheme_violations(url@, optional_text(scheme), field@),
            ),
    {
        match scheme {
            Some(scheme) => {
                if !same_text(scheme.as_str(), "http") && !same_text(scheme.as_str(), "https") {
                    let mut message = join3("Invalid URL scheme in ", field, ": ");
                    message.append(url);
                    message.append(". Only HTTP and HTTPS are allowed.");
                    report(errors, field.to_owned(), message);
                } else {
                    proof {
                        lemma_reported_nothing(errors@);
                    }
                }
            },
            None => {
                let mut message = join3("Invalid URL in ", field, ": ");
                message.append(url);
                report(errors, field.to_owned(), message);
            },
        }
    }
}

/// Decides on the date of a feed that ends with ` GMT` from what was read
/// of the rest: the date that was read, marked as UTC, or the error that
/// nothing could be read.
pub fn settle_date(date_str: &str, read: Option<DateTime>) -> (r: Result<DateTime, RssError>)
    ensures
        match read {
            Some(date) => r matches Ok(settled) && settled == in_utc(date),
            None => r matches Err(e) && e@ == Failure::DateParse(
                "Failed to parse date: "@ + date_str@,
            ),
        },
{
    match read {
        Some(date) => Ok(marked_as_utc(date)),
        None => Err(RssError::DateParseError(join("Failed to parse date: ", date_str))),
    }
}

/// Validates the provided `RssData`. Every rule is checked; the error
/// carries the line of every violation.
pub fn validate_rss_feed(rss_data: &RssData) -> (r: Result<(), RssError>)
    ensures
        match r {
            Ok(()) => all_violations(rss_data@).len() == 0,
            Err(e) => e@ == Failure::ValidationErrors(violation_lines(all_violations(rss_data@)))
                && all_violations(rss_data@).len() > 0,
        },
{
    let validator = RssFeedValidator::new(rss_data);
    validator.validate()
}

/// Whether a list of violations holds one of the given field.
pub open spec fn reports(list: Seq<Violation>, field: Seq<char>) -> bool {
    exists|i: int| 0 <= i < list.len() && (#[trigger] list[i]).field == field
}

/// Validation aggregation: an RSS 2.0 feed without title, link,
/// description, items, Atom link and generator is reported with at least
/// five violations at once, among them one for each of the five fields
/// `rss_data`, `channel link`, `items`, `atom_link` and `generator`, which
/// differ from one another.
pub proof fn lemma_validation_aggregates(feed: Feed)
    requires
        feed.version is RSS2_0,
        feed.title.len() == 0,
        feed.link.len() == 0,
        feed.description.len() == 0,
        feed.items.len() == 0,
        feed.atom_link.len() == 0,
        feed.generator.len() == 0,
    ensures
        all_violations(feed).len() >= 5,
        reports(all_violations(feed), "rss_data"@),
        reports(all_violations(feed), "channel link"@),
        reports(all_violations(feed), "items"@),
        reports(all_violations(feed), "atom_link"@),
        reports(all_violations(feed), "generator"@),
        "rss_data"@ != "channel link"@,
        "rss_data"@ != "items"@,
        "rss_data"@ != "atom_link"@,
        "rss_data"@ != "generator"@,
        "channel link"@ != "items"@,
        "channel link"@ != "atom_link"@,
        "channel link"@ != "generator"@,
        "items"@ != "atom_link"@,
        "items"@ != "generator"@,
        "atom_link"@ != "generator"@,
{
    reveal_strlit("rss_data");
    reveal_strlit("channel link");
    reveal_strlit("items");
    reveal_strlit("atom_link");
    reveal_strlit("generator");
    assert("rss_data"@.len() == 8);
    assert("channel link"@.len() == 12);
    assert("items"@.len() == 5);
    assert("atom_link"@.len() == 9 && "atom_link"@[0] == 'a');
    assert("generator"@.len() == 9 && "generator"@[0] == 'g');
    let all = all_violations(feed);
    let first = rss_data_violations(feed);
    let second = structure_violations(feed);
    let third = items_violations(feed.items);
    let fourth = dates_violations(feed);
    let fifth = version_violations(feed);
    assert(feed_errors(feed).len() > 0) by {
        assert(crate::data::presence_errors(feed.title, "Title is missing"@).len() == 1);
    }
    assert(first.len() == 1 && first[0].field == "rss_data"@);
    assert(item_link_violations(feed.items) == Seq::<Violation>::empty());
    assert(guid_violations(feed.items) == Seq::<Violation>::empty());
    assert(third == Seq::<Violation>::empty());
    assert(second.len() == 3 && second[0].field == "channel link"@ && second[1].field == "items"@
        && second[2].field == "atom_link"@);
    assert(fifth.len() == 2 && fifth[0].field == "generator"@);
    assert(all[0] == first[0]);
    assert(all[1] == second[0]);
    assert(all[2] == second[1]);
    assert(all[3] == second[2]);
    assert(all[4 + fourth.len() as int] == fifth[0]);
}

/// Date rejection: a date that is not empty and does not end with ` GMT`
/// is reported, whatever else it holds.
pub proof fn lemma_date_needs_suffix(date: Seq<char>, field: Seq<char>)
    requires
        date.len() > 0,
        !has_suffix(date, " GMT"@),
    ensures
        date_violations(date, field) == one(
            field,
            "Invalid date format: "@ + failure_line(
                Failure::DateParse("Invalid date format (missing GMT): "@ + date),
            ),
        ),
{
}

} // verus!
