//! Character-level text utilities shared by the feed model, the generator,
//! the parser and the validator.
//!
//! Every string in this crate is reasoned about through its view, a
//! `Seq<char>`. The functions here move between `&str`, `String` and
//! `Vec<char>` and implement the handful of text operations the rest of the
//! crate needs, each against a specification over sequences.

use vstd::prelude::*;
use vstd::string::*;

verus! {

/// Appends one character to a string.
///
/// Trusted: `String::push`, which appends the given `char` to the end of the
/// string.
#[verifier::external_body]
pub(crate) fn push_char(s: &mut String, c: char)
    ensures
        final(s)@ == old(s)@.push(c),
{
    s.push(c);
}

/// Anything that can be handed to a field setter as text.
pub trait IntoText: Sized {
    /// The characters this value stands for.
    spec fn text(&self) -> Seq<char>;

    /// Converts the value into an owned string holding the same characters.
    fn into_text(self) -> (s: String)
        ensures
            s@ == self.text(),
    ;
}

impl<'a> IntoText for &'a str {
    open spec fn text(&self) -> Seq<char> {
        self@
    }

    fn into_text(self) -> (s: String) {
        self.to_owned()
    }
}

impl IntoText for String {
    open spec fn text(&self) -> Seq<char> {
        self@
    }

    fn into_text(self) -> (s: String) {
        self
    }
}

impl<'a> IntoText for &'a String {
    open spec fn text(&self) -> Seq<char> {
        self@
    }

    fn into_text(self) -> (s: String) {
        self.clone()
    }
}

/// The characters of `s`, in order.
pub fn to_chars(s: &str) -> (v: Vec<char>)
    ensures
        v@ == s@,
{
    let mut v: Vec<char> = Vec::new();
    for c in it: s.chars()
        invariant
            v@ == it.seq().take(it.index()),
            it.seq() == s@,
    {
        v.push(c);
    }
    v
}

/// The string made of the characters `v[from..to]`.
pub(crate) fn from_chars(v: &Vec<char>, from: usize, to: usize) -> (s: String)
    requires
        from <= to <= v@.len(),
    ensures
        s@ == v@.subrange(from as int, to as int),
{
    let mut s = String::new();
    let mut i: usize = from;
    while i < to
        invariant
            from <= i <= to <= v@.len(),
            s@ == v@.subrange(from as int, i as int),
        decreases to - i,
    {
        push_char(&mut s, v[i]);
        i += 1;
    }
    s
}

/// Whether two strings hold the same characters.
pub fn same_text(a: &str, b: &str) -> (r: bool)
    ensures
        r == (a@ == b@),
{
    a.to_owned() == b.to_owned()
}

/// The concatenation of two strings.
pub fn join(a: &str, b: &str) -> (s: String)
    ensures
        s@ == a@ + b@,
{
    let mut s = a.to_owned();
    s.append(b);
    s
}

/// The concatenation of three strings.
pub fn join3(a: &str, b: &str, c: &str) -> (s: String)
    ensures
        s@ == a@ + b@ + c@,
{
    let mut s = a.to_owned();
    s.append(b);
    s.append(c);
    s
}

/// Whether `s` begins with `prefix`.
pub open spec fn has_prefix(s: Seq<char>, prefix: Seq<char>) -> bool {
    prefix.len() <= s.len() && s.subrange(0, prefix.len() as int) == prefix
}

/// Whether `s` ends with `suffix`.
pub open spec fn has_suffix(s: Seq<char>, suffix: Seq<char>) -> bool {
    suffix.len() <= s.len() && s.subrange(s.len() - suffix.len(), s.len() as int) == suffix
}

/// Whether the characters `a[start..start + b.len()]` exist and equal `b`.
pub open spec fn matches_at(a: Seq<char>, start: int, b: Seq<char>) -> bool {
    0 <= start && start + b.len() <= a.len() && a.subrange(start, start + b.len()) == b
}

/// Decides `matches_at` on character vectors.
pub fn chars_match_at(a: &Vec<char>, start: usize, b: &Vec<char>) -> (r: bool)
    ensures
        r == matches_at(a@, start as int, b@),
{
    if start > a.len() || b.len() > a.len() - start {
        return false;
    }
    let mut i: usize = 0;
    while i < b.len()
        invariant
            start + b@.len() <= a@.len() <= usize::MAX,
            i <= b@.len(),
            a@.subrange(start as int, start + i) == b@.subrange(0, i as int),
        decreases b@.len() - i,
    {
        if a[start + i] != b[i] {
            proof {
                let x = a@.subrange(start as int, start + b@.len());
                assert(x[i as int] != b@[i as int]);
            }
            return false;
        }
        proof {
            assert(a@.subrange(start as int, start + i + 1) == a@.subrange(
                start as int,
                start + i,
            ).push(a@[start + i]));
            assert(b@.subrange(0, i + 1) == b@.subrange(0, i as int).push(b@[i as int]));
        }
        i += 1;
    }
    proof {
        assert(b@.subrange(0, b@.len() as int) == b@);
    }
    true
}

/// Whether `s` begins with `prefix`.
pub fn starts_with(s: &str, prefix: &str) -> (r: bool)
    ensures
        r == has_prefix(s@, prefix@),
{
    let a = to_chars(s);
    let b = to_chars(prefix);
    chars_match_at(&a, 0, &b)
}

/// The decimal digit for `d`, which is below ten.
pub open spec fn digit_char(d: nat) -> char {
    if d == 0 {
        '0'
    } else if d == 1 {
        '1'
    } else if d == 2 {
        '2'
    } else if d == 3 {
        '3'
    } else if d == 4 {
        '4'
    } else if d == 5 {
        '5'
    } else if d == 6 {
        '6'
    } else if d == 7 {
        '7'
    } else if d == 8 {
        '8'
    } else {
        '9'
    }
}

/// The decimal notation of `n`, without sign or leading zeros.
pub open spec fn decimal(n: nat) -> Seq<char>
    decreases n,
{
    if n < 10 {
        seq![digit_char(n)]
    } else {
        decimal(n / 10).push(digit_char(n % 10))
    }
}

fn digit(d: usize) -> (c: char)
    requires
        d < 10,
    ensures
        c == digit_char(d as nat),
{
    if d == 0 {
        '0'
    } else if d == 1 {
        '1'
    } else if d == 2 {
        '2'
    } else if d == 3 {
        '3'
    } else if d == 4 {
        '4'
    } else if d == 5 {
        '5'
    } else if d == 6 {
        '6'
    } else if d == 7 {
        '7'
    } else if d == 8 {
        '8'
    } else {
        '9'
    }
}

/// Writes `n` in decimal notation.
pub fn decimal_text(n: usize) -> (s: String)
    ensures
        s@ == decimal(n as nat),
    decreases n,
{
    if n < 10 {
        let mut s = String::new();
        push_char(&mut s, digit(n));
        s
    } else {
        let mut s = decimal_text(n / 10);
        push_char(&mut s, digit(n % 10));
        s
    }
}

/// The text that results from replacing every character `c` of `s` by
/// `f(c)`.
pub open spec fn expand(s: Seq<char>, f: spec_fn(char) -> Seq<char>) -> Seq<char>
    decreases s.len(),
{
    if s.len() == 0 {
        Seq::empty()
    } else {
        expand(s.drop_last(), f) + f(s.last())
    }
}

/// The entity that stands for `c` in stored field values: the five markup
/// characters `& < > " '` are replaced, every other character stands for
/// itself.
pub open spec fn entity(c: char) -> Seq<char> {
    if c == '&' {
        seq!['&', 'a', 'm', 'p', ';']
    } else if c == '<' {
        seq!['&', 'l', 't', ';']
    } else if c == '>' {
        seq!['&', 'g', 't', ';']
    } else if c == '"' {
        seq!['&', 'q', 'u', 'o', 't', ';']
    } else if c == '\'' {
        seq!['&', '#', 'x', '2', '7', ';']
    } else {
        seq![c]
    }
}

/// Whether `c` is one of the five markup characters `& < > " '`.
pub open spec fn is_markup(c: char) -> bool {
    c == '&' || c == '<' || c == '>' || c == '"' || c == '\''
}

/// `s` with each markup character replaced by its entity.
pub open spec fn escape_markup(s: Seq<char>) -> Seq<char> {
    expand(s, |c: char| entity(c))
}

/// Appends the entity of `c` to `out`.
pub fn push_entity(out: &mut String, c: char)
    ensures
        final(out)@ == old(out)@ + entity(c),
{
    if c == '&' {
        out.append("&amp;");
        proof {
            reveal_strlit("&amp;");
            assert("&amp;"@ == entity(c));
        }
    } else if c == '<' {
        out.append("&lt;");
        proof {
            reveal_strlit("&lt;");
            assert("&lt;"@ == entity(c));
        }
    } else if c == '>' {
        out.append("&gt;");
        proof {
            reveal_strlit("&gt;");
            assert("&gt;"@ == entity(c));
        }
    } else if c == '"' {
        out.append("&quot;");
        proof {
            reveal_strlit("&quot;");
            assert("&quot;"@ == entity(c));
        }
    } else if c == '\'' {
        out.append("&#x27;");
        proof {
            reveal_strlit("&#x27;");
            assert("&#x27;"@ == entity(c));
        }
    } else {
        push_char(out, c);
        proof {
            assert(old(out)@.push(c) == old(out)@ + seq![c]);
        }
    }
}

/// Escapes the five markup characters of `input`.
pub fn sanitize_input(input: &str) -> (out: String)
    ensures
        out@ == escape_markup(input@),
{
    let mut out = String::new();
    let ghost f = |c: char| entity(c);
    for c in it: input.chars()
        invariant
            it.seq() == input@,
            f == (|c: char| entity(c)),
            out@ == expand(it.seq().take(it.index()), f),
    {
        proof {
            let next = it.seq().take(it.index() + 1);
            assert(next.drop_last() == it.seq().take(it.index()));
            assert(next.last() == c);
        }
        push_entity(&mut out, c);
    }
    proof {
        assert(input@.take(input@.len() as int) == input@);
    }
    out
}

/// The least index at or after `from` at which `pattern` occurs in `s`, or
/// `-1` if there is none.
pub open spec fn position_of(s: Seq<char>, pattern: Seq<char>, from: int) -> int
    decreases s.len() + 1 - from,
{
    if from < 0 || from + pattern.len() > s.len() {
        -1
    } else if matches_at(s, from, pattern) {
        from
    } else {
        position_of(s, pattern, from + 1)
    }
}

/// Finds the first occurrence of `pattern` in `s` at or after `from`.
pub fn find_from(s: &Vec<char>, pattern: &Vec<char>, from: usize) -> (r: Option<usize>)
    ensures
        match r {
            Some(i) => i == position_of(s@, pattern@, from as int) && from <= i && i
                + pattern@.len() <= s@.len(),
            None => position_of(s@, pattern@, from as int) == -1,
        },
{
    let n = s.len();
    if pattern.len() > n || from > n - pattern.len() {
        return None;
    }
    let last = n - pattern.len();
    let mut i: usize = from;
    loop
        invariant
            from <= i <= last,
            last + pattern@.len() == s@.len(),
            position_of(s@, pattern@, from as int) == position_of(s@, pattern@, i as int),
        decreases last - i,
    {
        if chars_match_at(s, i, pattern) {
            return Some(i);
        }
        if i == last {
            proof {
                assert(position_of(s@, pattern@, i + 1) == -1);
            }
            return None;
        }
        i += 1;
    }
}

/// The text between the first occurrence of `mark` in `text` and the next
/// double quote after it, if both are there.
pub open spec fn quoted_after(text: Seq<char>, mark: Seq<char>) -> Option<Seq<char>> {
    let at = position_of(text, mark, 0);
    if at < 0 {
        None
    } else {
        let start = at + mark.len();
        let end = position_of(text, seq!['"'], start);
        if end < 0 {
            None
        } else {
            Some(text.subrange(start, end))
        }
    }
}

/// Extracts the text between the first occurrence of `mark` in `text` and
/// the next double quote after it.
pub fn find_quoted_after(text: &str, mark: &str) -> (r: Option<String>)
    ensures
        match quoted_after(text@, mark@) {
            Some(t) => r matches Some(s) && s@ == t,
            None => r is None,
        },
{
    let chars = to_chars(text);
    let pattern = to_chars(mark);
    let length = chars.len();
    let mut quote: Vec<char> = Vec::new();
    quote.push('"');
    assert(quote@ == seq!['"']);
    match find_from(&chars, &pattern, 0) {
        None => None,
        Some(at) => {
            let start = at + pattern.len();
            match find_from(&chars, &quote, start) {
                None => None,
                Some(end) => Some(from_chars(&chars, start, end)),
            }
        },
    }
}

/// Whether `c` is white space: one of the characters with the Unicode
/// property `White_Space`.
pub open spec fn white_space(c: char) -> bool {
    ||| '\u{9}' <= c <= '\u{d}'
    ||| c == ' '
    ||| c == '\u{85}'
    ||| c == '\u{a0}'
    ||| c == '\u{1680}'
    ||| '\u{2000}' <= c <= '\u{200a}'
    ||| c == '\u{2028}'
    ||| c == '\u{2029}'
    ||| c == '\u{202f}'
    ||| c == '\u{205f}'
    ||| c == '\u{3000}'
}

/// Decides whether a character is white space.
pub fn is_white_space(c: char) -> (r: bool)
    ensures
        r == white_space(c),
{
    (c >= '\u{9}' && c <= '\u{d}') || c == ' ' || c == '\u{85}' || c == '\u{a0}' || c
        == '\u{1680}' || (c >= '\u{2000}' && c <= '\u{200a}') || c == '\u{2028}' || c
        == '\u{2029}' || c == '\u{202f}' || c == '\u{205f}' || c == '\u{3000}'
}

/// The words of `s`: its maximal runs of characters that are not white
/// space, in order.
pub open spec fn words(s: Seq<char>) -> Seq<Seq<char>>
    decreases s.len(),
{
    if s.len() == 0 {
        Seq::empty()
    } else {
        let before = words(s.drop_last());
        if white_space(s.last()) {
            before
        } else if s.len() >= 2 && !white_space(s[s.len() - 2]) && before.len() > 0 {
            before.drop_last().push(before.last().push(s.last()))
        } else {
            before.push(seq![s.last()])
        }
    }
}

/// The views of a sequence of character vectors.
pub open spec fn rows(v: Seq<Vec<char>>) -> Seq<Seq<char>> {
    Seq::new(v.len(), |i: int| v[i]@)
}

/// Splits `s` into its words.
pub fn split_words(s: &Vec<char>) -> (parts: Vec<Vec<char>>)
    ensures
        rows(parts@) == words(s@),
{
    let mut parts: Vec<Vec<char>> = Vec::new();
    let mut in_word = false;
    let mut i: usize = 0;
    proof {
        assert(s@.take(0) =~= Seq::<char>::empty());
        assert(rows(parts@) =~= Seq::<Seq<char>>::empty());
    }
    while i < s.len()
        invariant
            i <= s@.len(),
            rows(parts@) == words(s@.take(i as int)),
            in_word == (i > 0 && !white_space(s@[i - 1])),
            in_word ==> parts@.len() > 0,
        decreases s@.len() - i,
    {
        let c = s[i];
        let ghost before = rows(parts@);
        proof {
            let next = s@.take(i + 1);
            assert(next.drop_last() == s@.take(i as int));
            assert(next.last() == c);
            if i > 0 {
                assert(next[next.len() - 2] == s@[i - 1]);
            }
        }
        if is_white_space(c) {
            in_word = false;
        } else if in_word {
            let mut word = parts.pop().unwrap();
            word.push(c);
            parts.push(word);
            proof {
                assert(rows(parts@) =~= before.drop_last().push(before.last().push(c)));
            }
        } else {
            let mut word: Vec<char> = Vec::new();
            word.push(c);
            parts.push(word);
            in_word = true;
            proof {
                assert(rows(parts@) =~= before.push(seq![c]));
            }
        }
        i += 1;
    }
    proof {
        assert(s@.take(s@.len() as int) == s@);
    }
    parts
}

/// The pieces of `s` between occurrences of `separator`. There is one piece
/// more than there are separators; pieces may be empty.
pub open spec fn pieces(s: Seq<char>, separator: char) -> Seq<Seq<char>>
    decreases s.len(),
{
    if s.len() == 0 {
        seq![Seq::empty()]
    } else {
        let before = pieces(s.drop_last(), separator);
        if s.last() == separator {
            before.push(Seq::empty())
        } else if before.len() > 0 {
            before.drop_last().push(before.last().push(s.last()))
        } else {
            before
        }
    }
}

/// Splits `s` at every occurrence of `separator`.
pub fn split_at_char(s: &Vec<char>, separator: char) -> (parts: Vec<Vec<char>>)
    ensures
        rows(parts@) == pieces(s@, separator),
        parts@.len() > 0,
{
    let mut parts: Vec<Vec<char>> = Vec::new();
    parts.push(Vec::new());
    let mut i: usize = 0;
    proof {
        assert(s@.take(0) =~= Seq::<char>::empty());
        assert(rows(parts@) =~= seq![Seq::<char>::empty()]);
    }
    while i < s.len()
        invariant
            i <= s@.len(),
            parts@.len() > 0,
            rows(parts@) == pieces(s@.take(i as int), separator),
        decreases s@.len() - i,
    {
        let c = s[i];
        let ghost before = rows(parts@);
        proof {
            let next = s@.take(i + 1);
            assert(next.drop_last() == s@.take(i as int));
            assert(next.last() == c);
        }
        if c == separator {
            parts.push(Vec::new());
            proof {
                assert(rows(parts@) =~= before.push(Seq::empty()));
            }
        } else {
            let mut piece = parts.pop().unwrap();
            piece.push(c);
            parts.push(piece);
            proof {
                assert(rows(parts@) =~= before.drop_last().push(before.last().push(c)));
            }
        }
        i += 1;
    }
    proof {
        assert(s@.take(s@.len() as int) == s@);
    }
    parts
}

/// Whether `c` is one of the ten decimal digits.
pub open spec fn is_digit(c: char) -> bool {
    '0' <= c <= '9'
}

/// The value of a decimal digit.
pub open spec fn digit_value(c: char) -> int {
    c as int - '0' as int
}

/// The number that a sequence of decimal digits denotes.
pub open spec fn digits_value(s: Seq<char>) -> int
    decreases s.len(),
{
    if s.len() == 0 {
        0
    } else {
        digits_value(s.drop_last()) * 10 + digit_value(s.last())
    }
}

/// Whether every character of `s` is a decimal digit.
pub open spec fn all_digits(s: Seq<char>) -> bool {
    forall|i: int| 0 <= i < s.len() ==> is_digit(#[trigger] s[i])
}

/// The integer that `s` denotes in decimal notation, if it lies between
/// `low` and `high`.
///
/// The notation is a sign and at least one digit. The sign `+` may be left
/// out; the sign `-` is read only where `signed` holds. Nothing else may
/// stand in `s`, white space included.
pub open spec fn number(s: Seq<char>, signed: bool, low: int, high: int) -> Option<int> {
    let negative = signed && s.len() > 0 && s[0] == '-';
    let digits = if s.len() > 0 && (s[0] == '+' || negative) {
        s.skip(1)
    } else {
        s
    };
    if digits.len() == 0 || !all_digits(digits) {
        None
    } else {
        let value = if negative {
            -digits_value(digits)
        } else {
            digits_value(digits)
        };
        if low <= value <= high {
            Some(value)
        } else {
            None
        }
    }
}

/// The value of a digit sequence is not negative and no smaller than that
/// of any of its prefixes.
pub proof fn lemma_digits_value_grows(s: Seq<char>, n: int)
    requires
        all_digits(s),
        0 <= n <= s.len(),
    ensures
        0 <= digits_value(s.take(n)) <= digits_value(s),
    decreases s.len() - n,
{
    lemma_digits_value_bounds(s.take(n));
    if n < s.len() {
        lemma_digits_value_grows(s, n + 1);
        let longer = s.take(n + 1);
        assert(longer.drop_last() == s.take(n));
        assert(is_digit(longer.last()));
    } else {
        assert(s.take(n) == s);
    }
}

/// The value of a digit sequence is not negative.
pub proof fn lemma_digits_value_bounds(s: Seq<char>)
    requires
        all_digits(s),
    ensures
        0 <= digits_value(s),
    decreases s.len(),
{
    if s.len() > 0 {
        lemma_digits_value_bounds(s.drop_last());
        assert(is_digit(s.last()));
    }
}

/// Reads a decimal integer between `low` and `high`.
pub fn parse_number(s: &Vec<char>, signed: bool, low: i64, high: i64) -> (r: Option<i64>)
    ensures
        match number(s@, signed, low as int, high as int) {
            Some(value) => r == Some(value as i64),
            None => r is None,
        },
{
    let n = s.len();
    let negative = signed && n > 0 && s[0] == '-';
    let start: usize = if n > 0 && (s[0] == '+' || negative) {
        1
    } else {
        0
    };
    let ghost digits = s@.skip(start as int);
    proof {
        assert(s@.skip(0) =~= s@);
    }
    if start == n {
        return None;
    }
    let limit: i128 = 0x8000_0000_0000_0000;
    let mut value: i128 = 0;
    let mut i: usize = start;
    proof {
        assert(digits.take(0) =~= Seq::<char>::empty());
    }
    while i < n
        invariant
            start <= i <= n,
            start < n,
            n == s@.len(),
            negative == (signed && s@.len() > 0 && s@[0] == '-'),
            start == (if s@.len() > 0 && (s@[0] == '+' || negative) {
                1int
            } else {
                0int
            }),
            digits == s@.skip(start as int),
            s@.skip(0) == s@,
            limit == 0x8000_0000_0000_0000,
            all_digits(digits.take(i - start)),
            value == digits_value(digits.take(i - start)),
            0 <= value <= limit,
        decreases n - i,
    {
        let c = s[i];
        proof {
            assert(digits[i - start] == c);
        }
        if !(c >= '0' && c <= '9') {
            proof {
                assert(!is_digit(digits[i - start]));
            }
            return None;
        }
        let d: i128 = (c as u32 - '0' as u32) as i128;
        proof {
            let longer = digits.take(i - start + 1);
            assert(longer.drop_last() == digits.take(i - start));
            assert(longer.last() == c);
            assert(d == digit_value(c));
            assert forall|j: int| 0 <= j < longer.len() implies is_digit(#[trigger] longer[j]) by {
                if j < i - start {
                    assert(longer[j] == digits.take(i - start)[j]);
                }
            }
        }
        let next = value * 10 + d;
        proof {
            assert(digits_value(digits.take(i - start + 1)) == next);
        }
        if next > limit {
            proof {
                if all_digits(digits) {
                    lemma_digits_value_grows(digits, i - start + 1);
                }
            }
            return None;
        }
        value = next;
        i += 1;
    }
    proof {
        assert(digits.take(n - start) == digits);
    }
    let value = if negative {
        -value
    } else {
        value
    };
    if low as i128 <= value && value <= high as i128 {
        Some(value as i64)
    } else {
        None
    }
}

} // verus!
