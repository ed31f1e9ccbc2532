//! Error types of the crate and the one-line diagnostics they render to.

use crate::text::{decimal, decimal_text, push_char, IntoText};
use vstd::prelude::*;
use vstd::string::*;

verus! {

/// `quick_xml::Error`, the error of the XML reader and writer. It is passed
/// on as it is.
#[verifier::external_type_specification]
#[verifier::external_body]
pub struct ExXmlError(quick_xml::Error);

/// `std::string::FromUtf8Error`, the error of bytes that are no UTF-8. It
/// is passed on as it is.
#[verifier::external_type_specification]
#[verifier::external_body]
pub struct ExFromUtf8Error(std::string::FromUtf8Error);

/// `std::io::Error`, the error of input and output. It is passed on as it
/// is.
#[verifier::external_type_specification]
#[verifier::external_body]
pub struct ExIoError(std::io::Error);

/// The `Debug` rendering of a string: the text between double quotes, with
/// the escapes that `Debug` applies.
pub uninterp spec fn debug_text(s: Seq<char>) -> Seq<char>;

/// Renders a string the way `{:?}` does.
///
/// Trusted: the `Debug` implementation of `str`; its result depends on the
/// characters of the string alone and is named `debug_text`.
#[verifier::external_body]
pub(crate) fn quoted(s: &str) -> (r: String)
    ensures
        r@ == debug_text(s@),
{
    format!("{:?}", s)
}

/// The views of a sequence of strings.
pub open spec fn texts(v: Seq<String>) -> Seq<Seq<char>> {
    Seq::new(v.len(), |i: int| v[i]@)
}

/// The entries of a list rendered by `{:?}`, joined by `", "`.
pub open spec fn debug_entries(items: Seq<Seq<char>>) -> Seq<char>
    decreases items.len(),
{
    if items.len() == 0 {
        Seq::empty()
    } else if items.len() == 1 {
        items[0]
    } else {
        debug_entries(items.drop_last()) + seq![',', ' '] + items.last()
    }
}

/// A list of entries between square brackets: `[a, b]`.
pub open spec fn bracketed(entries: Seq<Seq<char>>) -> Seq<char> {
    seq!['['] + debug_entries(entries) + seq![']']
}

/// The rendering of a list of strings by `{:?}`: `["a", "b"]`.
pub open spec fn debug_list(items: Seq<Seq<char>>) -> Seq<char> {
    bracketed(items.map_values(|s: Seq<char>| debug_text(s)))
}

/// Writes a list of entries between square brackets, with a comma and a
/// space between two entries.
pub fn bracket(entries: &Vec<String>) -> (r: String)
    ensures
        r@ == bracketed(texts(entries@)),
{
    let mut r = String::new();
    push_char(&mut r, '[');
    let ghost all = texts(entries@);
    let mut i: usize = 0;
    while i < entries.len()
        invariant
            i <= entries@.len(),
            all == texts(entries@),
            r@ == seq!['['] + debug_entries(all.take(i as int)),
        decreases entries@.len() - i,
    {
        proof {
            let next = all.take(i + 1);
            assert(next.drop_last() == all.take(i as int));
            assert(next.last() == entries@[i as int]@);
            if i > 0 {
                assert(debug_entries(next) == debug_entries(all.take(i as int)) + seq![',', ' ']
                    + entries@[i as int]@);
            } else {
                assert(debug_entries(all.take(0)) == Seq::<char>::empty());
                assert(debug_entries(next) == entries@[i as int]@);
            }
        }
        if i > 0 {
            push_char(&mut r, ',');
            push_char(&mut r, ' ');
        }
        r.append(entries[i].as_str());
        i += 1;
    }
    proof {
        assert(all.take(entries@.len() as int) == all);
    }
    push_char(&mut r, ']');
    r
}

/// Renders a list of strings the way `{:?}` does.
pub fn debug_strings(items: &Vec<String>) -> (r: String)
    ensures
        r@ == debug_list(texts(items@)),
{
    let ghost shown = texts(items@).map_values(|s: Seq<char>| debug_text(s));
    let mut entries: Vec<String> = Vec::new();
    let mut i: usize = 0;
    while i < items.len()
        invariant
            i <= items@.len(),
            shown == texts(items@).map_values(|s: Seq<char>| debug_text(s)),
            entries@.len() == i,
            texts(entries@) == shown.take(i as int),
        decreases items@.len() - i,
    {
        let ghost before = texts(entries@);
        entries.push(quoted(items[i].as_str()));
        proof {
            assert forall|k: int| 0 <= k <= i implies texts(entries@)[k] == shown.take(i + 1)[k] by {
                if k < i {
                    assert(texts(entries@)[k] == before[k]);
                    assert(before[k] == shown.take(i as int)[k]);
                }
            }
            assert(texts(entries@) =~= shown.take(i + 1));
        }
        i += 1;
    }
    proof {
        assert(shown.take(items@.len() as int) == shown);
    }
    bracket(&entries)
}

/// A single rule violation found by validation.
#[derive(Debug)]
pub struct ValidationError {
    /// The field that failed validation.
    pub field: String,
    /// The error message.
    pub message: String,
}

/// What a `ValidationError` says: the field and the message.
pub struct Violation {
    pub field: Seq<char>,
    pub message: Seq<char>,
}

impl View for ValidationError {
    type V = Violation;

    open spec fn view(&self) -> Violation {
        Violation { field: self.field@, message: self.message@ }
    }
}

impl ValidationError {
    /// The diagnostic line: `Validation error: ` and the message.
    pub fn to_string(&self) -> (r: String)
        ensures
            r@ == violation_line(self@),
    {
        crate::text::join("Validation error: ", self.message.as_str())
    }
}

/// The diagnostic line of a violation.
pub open spec fn violation_line(v: Violation) -> Seq<char> {
    "Validation error: "@ + v.message
}

/// An item whose date kept a feed from being sorted.
#[derive(Debug)]
pub struct DateSortError {
    /// The index of the item with the date sort error.
    pub index: usize,
    /// The error message.
    pub message: String,
}

/// What a `DateSortError` says: the index and the message.
pub struct SortFault {
    pub index: nat,
    pub message: Seq<char>,
}

impl View for DateSortError {
    type V = SortFault;

    open spec fn view(&self) -> SortFault {
        SortFault { index: self.index as nat, message: self.message@ }
    }
}

/// The views of a sequence of date sort errors.
pub open spec fn sort_faults(v: Seq<DateSortError>) -> Seq<SortFault> {
    Seq::new(v.len(), |i: int| v[i]@)
}

/// The `{:?}` rendering of one date sort error.
pub open spec fn sort_fault_debug(f: SortFault) -> Seq<char> {
    "DateSortError { index: "@ + decimal(f.index) + ", message: "@ + debug_text(f.message)
        + " }"@
}

impl DateSortError {
    /// The diagnostic line: `Date sort error: ` and the message.
    pub fn to_string(&self) -> (r: String)
        ensures
            r@ == "Date sort error: "@ + self@.message,
    {
        crate::text::join("Date sort error: ", self.message.as_str())
    }

    /// The `{:?}` rendering of this error.
    pub fn debug_string(&self) -> (r: String)
        ensures
            r@ == sort_fault_debug(self@),
    {
        let mut r = "DateSortError { index: ".to_owned();
        r.append(decimal_text(self.index).as_str());
        r.append(", message: ");
        r.append(quoted(self.message.as_str()).as_str());
        r.append(" }");
        r
    }
}

/// Renders a list of date sort errors the way `{:?}` does.
pub fn debug_sort_errors(items: &Vec<DateSortError>) -> (r: String)
    ensures
        r@ == bracketed(sort_faults(items@).map_values(|f: SortFault| sort_fault_debug(f))),
{
    let ghost shown = sort_faults(items@).map_values(|f: SortFault| sort_fault_debug(f));
    let mut entries: Vec<String> = Vec::new();
    let mut i: usize = 0;
    while i < items.len()
        invariant
            i <= items@.len(),
            shown == sort_faults(items@).map_values(|f: SortFault| sort_fault_debug(f)),
            entries@.len() == i,
            texts(entries@) == shown.take(i as int),
        decreases items@.len() - i,
    {
        let ghost before = texts(entries@);
        entries.push(items[i].debug_string());
        proof {
            assert forall|k: int| 0 <= k <= i implies texts(entries@)[k] == shown.take(i + 1)[k] by {
                if k < i {
                    assert(texts(entries@)[k] == before[k]);
                    assert(before[k] == shown.take(i as int)[k]);
                }
            }
            assert(texts(entries@) =~= shown.take(i + 1));
        }
        i += 1;
    }
    proof {
        assert(shown.take(items@.len() as int) == shown);
    }
    bracket(&entries)
}

/// Errors that can occur when generating, parsing or validating RSS feeds.
#[derive(Debug)]
pub enum RssError {
    /// Error occurred while writing XML.
    XmlWriteError(quick_xml::Error),
    /// Error occurred during XML parsing.
    XmlParseError(quick_xml::Error),
    /// Error occurred during UTF-8 conversion.
    Utf8Error(std::string::FromUtf8Error),
    /// Error indicating a required field is missing.
    MissingField(String),
    /// Error indicating a date parsing failure.
    DateParseError(String),
    /// General I/O error.
    IoError(std::io::Error),
    /// Error for invalid input data.
    InvalidInput(String),
    /// Error for invalid URL provided.
    InvalidUrl(String),
    /// Error for unknown XML elements encountered during parsing.
    UnknownElement(String),
    /// Error for validation errors.
    ValidationErrors(Vec<String>),
    /// Error for date sort errors.
    DateSortError(Vec<DateSortError>),
    /// Error for item validation errors.
    ItemValidationError(String),
    /// Error for unknown field encountered during parsing.
    UnknownField(String),
    /// Error for a version string that names none of the five dialects.
    InvalidRssVersion(String),
    /// Custom error for unforeseen scenarios.
    Custom(String),
}

/// What an `RssError` says. The payload of the three variants that wrap an
/// error of another library is left out.
pub enum Failure {
    XmlWrite,
    XmlParse,
    Utf8,
    MissingField(Seq<char>),
    DateParse(Seq<char>),
    Io,
    InvalidInput(Seq<char>),
    InvalidUrl(Seq<char>),
    UnknownElement(Seq<char>),
    ValidationErrors(Seq<Seq<char>>),
    DateSort(Seq<SortFault>),
    ItemValidation(Seq<char>),
    UnknownField(Seq<char>),
    InvalidRssVersion(Seq<char>),
    Custom(Seq<char>),
}

impl View for RssError {
    type V = Failure;

    open spec fn view(&self) -> Failure {
        match self {
            RssError::XmlWriteError(_) => Failure::XmlWrite,
            RssError::XmlParseError(_) => Failure::XmlParse,
            RssError::Utf8Error(_) => Failure::Utf8,
            RssError::MissingField(s) => Failure::MissingField(s@),
            RssError::DateParseError(s) => Failure::DateParse(s@),
            RssError::IoError(_) => Failure::Io,
            RssError::InvalidInput(s) => Failure::InvalidInput(s@),
            RssError::InvalidUrl(s) => Failure::InvalidUrl(s@),
            RssError::UnknownElement(s) => Failure::UnknownElement(s@),
            RssError::ValidationErrors(v) => Failure::ValidationErrors(texts(v@)),
            RssError::DateSortError(v) => Failure::DateSort(sort_faults(v@)),
            RssError::ItemValidationError(s) => Failure::ItemValidation(s@),
            RssError::UnknownField(s) => Failure::UnknownField(s@),
            RssError::InvalidRssVersion(s) => Failure::InvalidRssVersion(s@),
            RssError::Custom(s) => Failure::Custom(s@),
        }
    }
}

/// The words that open the diagnostic line of a failure.
pub open spec fn failure_heading(f: Failure) -> Seq<char> {
    match f {
        Failure::XmlWrite => "XML error occurred: "@,
        Failure::XmlParse => "XML parse error occurred: "@,
        Failure::Utf8 => "UTF-8 conversion error occurred: "@,
        Failure::MissingField(_) => "A required field is missing: "@,
        Failure::DateParse(_) => "Date parse error: "@,
        Failure::Io => "I/O error occurred: "@,
        Failure::InvalidInput(_) => "Invalid input data provided: "@,
        Failure::InvalidUrl(_) => "Invalid URL provided: "@,
        Failure::UnknownElement(_) => "Unknown XML element found: "@,
        Failure::ValidationErrors(_) => "Validation errors: "@,
        Failure::DateSort(_) => "Date sort error: "@,
        Failure::ItemValidation(_) => "Item validation error: "@,
        Failure::UnknownField(_) => "Unknown field encountered: "@,
        Failure::InvalidRssVersion(_) => "Invalid RSS version: "@,
        Failure::Custom(_) => "Custom error: "@,
    }
}

/// What follows the heading in the diagnostic line of a failure. For the
/// three variants that wrap an error of another library the detail is that
/// error's own text, which this crate does not model: `None`.
pub open spec fn failure_detail(f: Failure) -> Option<Seq<char>> {
    match f {
        Failure::XmlWrite => None,
        Failure::XmlParse => None,
        Failure::Utf8 => None,
        Failure::Io => None,
        Failure::MissingField(s) => Some(s),
        Failure::DateParse(s) => Some(s),
        Failure::InvalidInput(s) => Some(s),
        Failure::InvalidUrl(s) => Some(s),
        Failure::UnknownElement(s) => Some(s),
        Failure::ValidationErrors(v) => Some(debug_list(v)),
        Failure::DateSort(v) => Some(bracketed(v.map_values(|f: SortFault| sort_fault_debug(f)))),
        Failure::ItemValidation(s) => Some(s),
        Failure::UnknownField(s) => Some(s),
        Failure::InvalidRssVersion(s) => Some(s),
        Failure::Custom(s) => Some(s),
    }
}

/// The diagnostic line of a failure whose detail this crate models.
pub open spec fn failure_line(f: Failure) -> Seq<char> {
    failure_heading(f) + failure_detail(f).unwrap()
}

/// The HTTP status that reports a failure: 400 for what the caller got
/// wrong, 500 for the rest.
pub open spec fn failure_status(f: Failure) -> u16 {
    match f {
        Failure::MissingField(_) => 400,
        Failure::InvalidInput(_) => 400,
        Failure::DateParse(_) => 400,
        Failure::InvalidUrl(_) => 400,
        Failure::ValidationErrors(_) => 400,
        Failure::ItemValidation(_) => 400,
        Failure::InvalidRssVersion(_) => 400,
        _ => 500,
    }
}

impl RssError {
    /// Creates a new `RssError::MissingField` error.
    pub fn missing_field<S: IntoText>(field_name: S) -> (e: RssError)
        ensures
            e@ == Failure::MissingField(field_name.text()),
    {
        RssError::MissingField(field_name.into_text())
    }

    /// Creates a new `DateSortError`.
    pub fn date_sort_error<S: IntoText>(index: usize, message: S) -> (e: DateSortError)
        ensures
            e@ == (SortFault { index: index as nat, message: message.text() }),
    {
        DateSortError { index, message: message.into_text() }
    }

    /// Creates a new `RssError::InvalidInput` error.
    pub fn invalid_input<S: IntoText>(message: S) -> (e: RssError)
        ensures
            e@ == Failure::InvalidInput(message.text()),
    {
        RssError::InvalidInput(message.into_text())
    }

    /// Creates a new `RssError::Custom` error.
    pub fn custom<S: IntoText>(message: S) -> (e: RssError)
        ensures
            e@ == Failure::Custom(message.text()),
    {
        RssError::Custom(message.into_text())
    }

    /// Converts the error into an appropriate HTTP status code.
    pub fn to_http_status(&self) -> (status: u16)
        ensures
            status == failure_status(self@),
    {
        match self {
            RssError::XmlWriteError(_) | RssError::XmlParseError(_) => 500,
            RssError::Utf8Error(_) => 500,
            RssError::MissingField(_) | RssError::InvalidInput(_) => 400,
            RssError::DateParseError(_) => 400,
            RssError::IoError(_) => 500,
            RssError::InvalidUrl(_) => 400,
            RssError::UnknownElement(_) => 500,
            RssError::ValidationErrors(_) => 400,
            RssError::DateSortError(_) => 500,
            RssError::ItemValidationError(_) => 400,
            RssError::UnknownField(_) => 500,
            RssError::InvalidRssVersion(_) => 400,
            RssError::Custom(_) => 500,
        }
    }

    /// The one-line diagnostic of this error: a heading that names the kind
    /// of failure, then the detail.
    pub fn to_string(&self) -> (r: String)
        ensures
            crate::text::has_prefix(r@, failure_heading(self@)),
            failure_detail(self@) is Some ==> r@ == failure_line(self@),
    {
        let r = match self {
            RssError::XmlWriteError(e) => {
                let d = e.to_string();
                crate::text::join("XML error occurred: ", d.as_str())
            },
            RssError::XmlParseError(e) => {
                let d = e.to_string();
                crate::text::join("XML parse error occurred: ", d.as_str())
            },
            RssError::Utf8Error(e) => {
                let d = e.to_string();
                crate::text::join("UTF-8 conversion error occurred: ", d.as_str())
            },
            RssError::MissingField(s) => crate::text::join(
                "A required field is missing: ",
                s.as_str(),
            ),
            RssError::DateParseError(s) => crate::text::join("Date parse error: ", s.as_str()),
            RssError::IoError(e) => {
                let d = e.to_string();
                crate::text::join("I/O error occurred: ", d.as_str())
            },
            RssError::InvalidInput(s) => crate::text::join(
                "Invalid input data provided: ",
                s.as_str(),
            ),
            RssError::InvalidUrl(s) => crate::text::join("Invalid URL provided: ", s.as_str()),
            RssError::UnknownElement(s) => crate::text::join(
                "Unknown XML element found: ",
                s.as_str(),
            ),
            RssError::ValidationErrors(v) => {
                let d = debug_strings(v);
                crate::text::join("Validation errors: ", d.as_str())
            },
            RssError::DateSortError(v) => {
                let d = debug_sort_errors(v);
                crate::text::join("Date sort error: ", d.as_str())
            },
            RssError::ItemValidationError(s) => crate::text::join(
                "Item validation error: ",
                s.as_str(),
            ),
            RssError::UnknownField(s) => crate::text::join(
                "Unknown field encountered: ",
                s.as_str(),
            ),
            RssError::InvalidRssVersion(s) => crate::text::join(
                "Invalid RSS version: ",
                s.as_str(),
            ),
            RssError::Custom(s) => crate::text::join("Custom error: ", s.as_str()),
        };
        proof {
            let heading = failure_heading(self@);
            assert(r@.subrange(0, heading.len() as int) == heading);
        }
        r
    }
}

impl From<quick_xml::Error> for RssError {
    fn from(e: quick_xml::Error) -> (r: RssError) {
        RssError::XmlWriteError(e)
    }
}

impl vstd::std_specs::convert::FromSpecImpl<quick_xml::Error> for RssError {
    open spec fn obeys_from_spec() -> bool {
        true
    }

    open spec fn from_spec(e: quick_xml::Error) -> RssError {
        RssError::XmlWriteError(e)
    }
}

impl From<std::string::FromUtf8Error> for RssError {
    fn from(e: std::string::FromUtf8Error) -> (r: RssError) {
        RssError::Utf8Error(e)
    }
}

impl vstd::std_specs::convert::FromSpecImpl<std::string::FromUtf8Error> for RssError {
    open spec fn obeys_from_spec() -> bool {
        true
    }

    open spec fn from_spec(e: std::string::FromUtf8Error) -> RssError {
        RssError::Utf8Error(e)
    }
}

impl From<std::io::Error> for RssError {
    fn from(e: std::io::Error) -> (r: RssError) {
        RssError::IoError(e)
    }
}

impl vstd::std_specs::convert::FromSpecImpl<std::io::Error> for RssError {
    open spec fn obeys_from_spec() -> bool {
        true
    }

    open spec fn from_spec(e: std::io::Error) -> RssError {
        RssError::IoError(e)
    }
}

} // verus!
