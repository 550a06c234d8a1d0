//! The character scanner of the `lexers` crate, as the tokenizer uses it.
//!
//! A scanner reads characters from its input on demand and keeps those it has
//! read in a buffer until they are extracted as one string. What the
//! tokenizer needs to know of a scanner is therefore two sequences: the
//! characters it holds (read, not yet extracted) and the characters still
//! ahead of it. Every contract in this file is stated over these two and is
//! taken on trust from the source of `lexers`.

use lexers::Scanner;
use std::str::Chars;
use vstd::prelude::*;

verus! {

/// `lexers::Scanner`, declared so that it can stand in signatures and fields.
#[verifier::external_type_specification]
#[verifier::external_body]
#[verifier::reject_recursive_types(I)]
pub struct ExScanner<I: Iterator>(Scanner<I>) where I::Item: Clone;

/// The characters that a scanner has read since its buffer was last extracted.
pub uninterp spec fn scanner_held(s: Scanner<Chars<'_>>) -> Seq<char>;

/// The characters of the input that a scanner has not read yet.
pub uninterp spec fn scanner_ahead(s: Scanner<Chars<'_>>) -> Seq<char>;

/// The classes of characters that are read in runs.
pub enum CharClass {
    /// Space, line feed, carriage return and tab.
    White,
    /// The ten decimal digits.
    Digit,
    /// The ASCII letters.
    Letter,
}

/// Space, line feed, carriage return or tab.
pub open spec fn is_white(c: char) -> bool {
    c == ' ' || c == '\n' || c == '\r' || c == '\t'
}

/// One of the ten decimal digits.
pub open spec fn is_digit(c: char) -> bool {
    '0' <= c <= '9'
}

/// An ASCII letter.
pub open spec fn is_letter(c: char) -> bool {
    'a' <= c <= 'z' || 'A' <= c <= 'Z'
}

/// Whether `c` is of `class`.
pub open spec fn in_class(c: char, class: CharClass) -> bool {
    match class {
        CharClass::White => is_white(c),
        CharClass::Digit => is_digit(c),
        CharClass::Letter => is_letter(c),
    }
}

/// The end of the longest run of characters of `class` that starts at `i`.
pub open spec fn run_end(s: Seq<char>, i: int, class: CharClass) -> int
    decreases s.len() - i,
{
    if 0 <= i < s.len() && in_class(s[i], class) {
        run_end(s, i + 1, class)
    } else {
        i
    }
}

/// Whether `s` has the character `c` at index `i`.
pub open spec fn has_at(s: Seq<char>, i: int, c: char) -> bool {
    0 <= i < s.len() && s[i] == c
}

/// The index after an optional sign at `i`.
pub open spec fn sign_end(s: Seq<char>, i: int) -> int {
    if has_at(s, i, '+') || has_at(s, i, '-') {
        i + 1
    } else {
        i
    }
}

/// The index after an optional fraction at `i`: a dot and at least one digit.
pub open spec fn fraction_end(s: Seq<char>, i: int) -> int {
    if has_at(s, i, '.') && run_end(s, i + 1, CharClass::Digit) > i + 1 {
        run_end(s, i + 1, CharClass::Digit)
    } else {
        i
    }
}

/// The index after an optional exponent at `i`: `e` or `E`, an optional sign
/// and at least one digit.
pub open spec fn exponent_end(s: Seq<char>, i: int) -> int {
    let digits = sign_end(s, i + 1);
    if (has_at(s, i, 'e') || has_at(s, i, 'E')) && run_end(s, digits, CharClass::Digit) > digits {
        run_end(s, digits, CharClass::Digit)
    } else {
        i
    }
}

/// The length of the numeric literal at the head of `s`, 0 where there is
/// none: an optional sign, digits, an optional fraction and an optional
/// exponent, each part taken as far as it goes.
pub open spec fn literal_end(s: Seq<char>) -> int {
    let digits = sign_end(s, 0);
    let whole = run_end(s, digits, CharClass::Digit);
    if whole == digits {
        0
    } else {
        exponent_end(s, fraction_end(s, whole))
    }
}

/// The length of what the scanner reads as a number at the head of `s`, 0
/// where it reads none: a numeric literal, and an `i` where one stands
/// right behind it.
pub open spec fn number_end(s: Seq<char>) -> int {
    if has_at(s, literal_end(s), 'i') && literal_end(s) > 0 {
        literal_end(s) + 1
    } else {
        literal_end(s)
    }
}

/// Calls `Scanner::new` on the characters of `input`. The new scanner holds
/// nothing and has the whole input ahead.
#[verifier::external_body]
pub(crate) fn scanner_new<'a>(input: &'a str) -> (s: Scanner<Chars<'a>>)
    ensures
        scanner_held(s) == Seq::<char>::empty(),
        scanner_ahead(s) == input@,
{
    Scanner::new(input.chars())
}

/// Calls `Scanner::scan_whitespace`, which reads the run of white space ahead
/// and extracts the buffer: the result is what was held followed by that run,
/// and the scanner holds nothing afterwards.
#[verifier::external_body]
pub(crate) fn scan_whitespace(s: &mut Scanner<Chars<'_>>) -> (r: Option<String>)
    ensures
        ({
            let ahead = scanner_ahead(*old(s));
            let n = run_end(ahead, 0, CharClass::White);
            &&& r matches Some(text)
            &&& text@ == scanner_held(*old(s)) + ahead.take(n)
            &&& scanner_held(*final(s)) == Seq::<char>::empty()
            &&& scanner_ahead(*final(s)) == ahead.skip(n)
        }),
{
    s.scan_whitespace()
}

/// Calls `Scanner::scan_number`. Where a numeric literal is ahead, it is
/// read, with an `i` where one stands right behind it, and the buffer is
/// extracted; where none is, the scanner is left as it was.
#[verifier::external_body]
pub(crate) fn scan_number(s: &mut Scanner<Chars<'_>>) -> (r: Option<String>)
    ensures
        ({
            let ahead = scanner_ahead(*old(s));
            let n = number_end(ahead);
            if n > 0 {
                &&& r matches Some(text)
                &&& text@ == scanner_held(*old(s)) + ahead.take(n)
                &&& scanner_held(*final(s)) == Seq::<char>::empty()
                &&& scanner_ahead(*final(s)) == ahead.skip(n)
            } else {
                &&& r is None
                &&& scanner_held(*final(s)) == scanner_held(*old(s))
                &&& scanner_ahead(*final(s)) == ahead
            }
        }),
{
    s.scan_number()
}

/// Calls `Scanner::accept_all` on the characters of `what`. Where they are
/// the next characters ahead, they are read and the result is `true`; where
/// they are not, the scanner is left as it was.
#[verifier::external_body]
pub(crate) fn accept_all(s: &mut Scanner<Chars<'_>>, what: &str) -> (r: bool)
    ensures
        r == what@.is_prefix_of(scanner_ahead(*old(s))),
        r ==> scanner_held(*final(s)) == scanner_held(*old(s)) + what@,
        r ==> scanner_ahead(*final(s)) == scanner_ahead(*old(s)).skip(what@.len() as int),
        !r ==> scanner_held(*final(s)) == scanner_held(*old(s)),
        !r ==> scanner_ahead(*final(s)) == scanner_ahead(*old(s)),
{
    s.accept_all(what.chars())
}

/// Calls `Scanner::accept_any`. Where the next character ahead is one of
/// `any`, it is read and returned; else the scanner is left as it was.
#[verifier::external_body]
pub(crate) fn accept_any(s: &mut Scanner<Chars<'_>>, any: &[char]) -> (r: Option<char>)
    ensures
        ({
            let ahead = scanner_ahead(*old(s));
            if ahead.len() > 0 && any@.contains(ahead[0]) {
                &&& r == Some(ahead[0])
                &&& scanner_held(*final(s)) == scanner_held(*old(s)).push(ahead[0])
                &&& scanner_ahead(*final(s)) == ahead.skip(1)
            } else {
                &&& r is None
                &&& scanner_held(*final(s)) == scanner_held(*old(s))
                &&& scanner_ahead(*final(s)) == ahead
            }
        }),
{
    s.accept_any(any)
}

/// Calls `Scanner::peek`, which says what the next character ahead is and
/// leaves the scanner as it was.
#[verifier::external_body]
pub(crate) fn peek_char(s: &mut Scanner<Chars<'_>>) -> (r: Option<char>)
    ensures
        r == (if scanner_ahead(*old(s)).len() > 0 {
            Some(scanner_ahead(*old(s))[0])
        } else {
            None
        }),
        scanner_held(*final(s)) == scanner_held(*old(s)),
        scanner_ahead(*final(s)) == scanner_ahead(*old(s)),
{
    s.peek()
}

/// Calls `Scanner::next`, which reads one character where one is ahead.
#[verifier::external_body]
pub(crate) fn next_char(s: &mut Scanner<Chars<'_>>) -> (r: Option<char>)
    ensures
        ({
            let ahead = scanner_ahead(*old(s));
            if ahead.len() > 0 {
                &&& r == Some(ahead[0])
                &&& scanner_held(*final(s)) == scanner_held(*old(s)).push(ahead[0])
                &&& scanner_ahead(*final(s)) == ahead.skip(1)
            } else {
                &&& r is None
                &&& scanner_held(*final(s)) == scanner_held(*old(s))
                &&& scanner_ahead(*final(s)) == ahead
            }
        }),
{
    s.next()
}

/// Calls `Scanner::extract_string`, which hands out what the scanner holds
/// and leaves it holding nothing.
#[verifier::external_body]
pub(crate) fn extract_string(s: &mut Scanner<Chars<'_>>) -> (r: String)
    ensures
        r@ == scanner_held(*old(s)),
        scanner_held(*final(s)) == Seq::<char>::empty(),
        scanner_ahead(*final(s)) == scanner_ahead(*old(s)),
{
    s.extract_string()
}

} // verus!
