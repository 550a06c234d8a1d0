//! Numeric literals: which tokens stand for a number.
//!
//! A token is numeric if it has the form that the standard library accepts
//! for a double: an optional sign, then either one of the words `inf`,
//! `infinity` and `nan` in any mix of upper and lower case, or decimal digits
//! with at most one dot among them and after them an optional exponent (`e`
//! or `E`, an optional sign and at least one digit).

use crate::scanner::{exponent_end, fraction_end, has_at, literal_end, run_end, sign_end, CharClass};
use crate::text::chars_of;
use vstd::prelude::*;

verus! {

/// Whether `s` has, from index `i` to its end, the letters of `word`, which
/// is in lower case, in either case.
pub open spec fn is_word(s: Seq<char>, i: int, word: Seq<char>) -> bool {
    &&& 0 <= i
    &&& s.len() - i == word.len()
    &&& forall|k: int| 0 <= k < word.len() ==> same_letter(#[trigger] s[i + k], word[k])
}

/// Whether `c` is the lower-case ASCII letter `lower` or its upper-case form.
pub open spec fn same_letter(c: char, lower: char) -> bool {
    c == lower || c as int == lower as int - 32
}

/// The end of the mantissa that starts at `i`: digits, and a dot with the
/// digits behind it where a dot follows.
pub open spec fn mantissa_end(s: Seq<char>, i: int) -> int {
    let whole = run_end(s, i, CharClass::Digit);
    if has_at(s, whole, '.') {
        run_end(s, whole + 1, CharClass::Digit)
    } else {
        whole
    }
}

/// The number of digits in the mantissa that starts at `i`.
pub open spec fn mantissa_digits(s: Seq<char>, i: int) -> int {
    let whole = run_end(s, i, CharClass::Digit);
    if has_at(s, whole, '.') {
        mantissa_end(s, i) - i - 1
    } else {
        whole - i
    }
}

/// Whether `s` is, from index `i` to its end, a decimal number: a mantissa
/// with at least one digit and an optional exponent.
pub open spec fn is_decimal(s: Seq<char>, i: int) -> bool {
    let end = mantissa_end(s, i);
    let digits = sign_end(s, end + 1);
    &&& mantissa_digits(s, i) > 0
    &&& {
        ||| end == s.len()
        ||| {
            &&& has_at(s, end, 'e') || has_at(s, end, 'E')
            &&& digits < s.len()
            &&& run_end(s, digits, CharClass::Digit) == s.len()
        }
    }
}

/// Whether `s` is a numeric literal.
pub open spec fn is_numeric(s: Seq<char>) -> bool {
    let start = sign_end(s, 0);
    ||| is_word(s, start, seq!['i', 'n', 'f'])
    ||| is_word(s, start, seq!['i', 'n', 'f', 'i', 'n', 'i', 't', 'y'])
    ||| is_word(s, start, seq!['n', 'a', 'n'])
    ||| is_decimal(s, start)
}

/// How a numeric literal begins.
#[derive(Debug, Clone, Copy, PartialEq, Eq, Structural)]
pub enum Sign {
    /// With a digit, a dot or a letter.
    Unsigned,
    /// With `+`.
    Plus,
    /// With `-`.
    Minus,
}

/// The sign that `s` begins with.
pub open spec fn sign_of(s: Seq<char>) -> Sign {
    if has_at(s, 0, '+') {
        Sign::Plus
    } else if has_at(s, 0, '-') {
        Sign::Minus
    } else {
        Sign::Unsigned
    }
}

/// The end of the run of digits that starts at `i`.
fn digits_end(s: &Vec<char>, i: usize) -> (end: usize)
    requires
        i <= s@.len(),
    ensures
        end == run_end(s@, i as int, CharClass::Digit),
        i <= end <= s@.len(),
{
    let mut end = i;
    while end < s.len() && '0' <= s[end] && s[end] <= '9'
        invariant
            i <= end <= s@.len(),
            run_end(s@, i as int, CharClass::Digit) == run_end(s@, end as int, CharClass::Digit),
        decreases s@.len() - end,
    {
        end += 1;
    }
    end
}

/// The index after an optional sign at `i`.
fn after_sign(s: &Vec<char>, i: usize) -> (end: usize)
    requires
        i <= s@.len(),
    ensures
        end == sign_end(s@, i as int),
        i <= end <= s@.len(),
{
    if i < s.len() && (s[i] == '+' || s[i] == '-') {
        i + 1
    } else {
        i
    }
}

/// The lower-case form of an ASCII upper-case letter; other characters stay.
fn lower(c: char) -> (r: char)
    ensures
        'A' <= c <= 'Z' ==> r as int == c as int + 32,
        !('A' <= c <= 'Z') ==> r == c,
{
    if 'A' <= c && c <= 'Z' {
        let code: u8 = c as u8;
        (code + 32) as char
    } else {
        c
    }
}

/// Whether `s` has, from `i` to its end, the letters of `word` in either case.
fn ends_with_word(s: &Vec<char>, i: usize, word: &str) -> (r: bool)
    requires
        i <= s@.len(),
        forall|k: int| 0 <= k < word@.len() ==> 'a' <= #[trigger] word@[k] <= 'z',
    ensures
        r == is_word(s@, i as int, word@),
{
    let n = word.unicode_len();
    let len = s.len();
    if len - i != n {
        return false;
    }
    let mut k: usize = 0;
    while k < n
        invariant
            k <= n == word@.len(),
            i + n == len == s@.len(),
            forall|j: int| 0 <= j < word@.len() ==> 'a' <= #[trigger] word@[j] <= 'z',
            forall|j: int| 0 <= j < k ==> same_letter(#[trigger] s@[i + j], word@[j]),
        decreases n - k,
    {
        if lower(s[i + k]) != word.get_char(k) {
            assert(!same_letter(s@[i + k], word@[k as int]));
            return false;
        }
        k += 1;
    }
    true
}

/// Whether `s` is, from `i` to its end, a decimal number.
fn ends_with_decimal(s: &Vec<char>, i: usize) -> (r: bool)
    requires
        i <= s@.len(),
    ensures
        r == is_decimal(s@, i as int),
{
    let whole = digits_end(s, i);
    let dotted = whole < s.len() && s[whole] == '.';
    let end = if dotted {
        digits_end(s, whole + 1)
    } else {
        whole
    };
    let count = if dotted {
        end - i - 1
    } else {
        whole - i
    };
    if count == 0 {
        return false;
    }
    if end == s.len() {
        return true;
    }
    if s[end] != 'e' && s[end] != 'E' {
        return false;
    }
    let digits = after_sign(s, end + 1);
    digits < s.len() && digits_end(s, digits) == s.len()
}

/// Whether `token` is a numeric literal.
pub fn numeric(token: &str) -> (r: bool)
    ensures
        r == is_numeric(token@),
{
    let s = chars_of(token);
    let start = after_sign(&s, 0);
    proof {
        reveal_strlit("inf");
        reveal_strlit("infinity");
        reveal_strlit("nan");
        assert("inf"@ =~= seq!['i', 'n', 'f']);
        assert("infinity"@ =~= seq!['i', 'n', 'f', 'i', 'n', 'i', 't', 'y']);
        assert("nan"@ =~= seq!['n', 'a', 'n']);
    }
    ends_with_word(&s, start, "inf") || ends_with_word(&s, start, "infinity") || ends_with_word(
        &s,
        start,
        "nan",
    ) || ends_with_decimal(&s, start)
}

/// The sign that `token` begins with.
pub fn sign(token: &str) -> (r: Sign)
    ensures
        r == sign_of(token@),
{
    if token.unicode_len() == 0 {
        Sign::Unsigned
    } else {
        let c = token.get_char(0);
        if c == '+' {
            Sign::Plus
        } else if c == '-' {
            Sign::Minus
        } else {
            Sign::Unsigned
        }
    }
}

/// What the tokenizer reads as one numeric literal is a numeric literal.
pub proof fn lemma_scanned_literal_is_numeric(s: Seq<char>)
    requires
        s.len() > 0,
        literal_end(s) == s.len(),
    ensures
        is_numeric(s),
{
    let start = sign_end(s, 0);
    let whole = run_end(s, start, CharClass::Digit);
    let fraction = fraction_end(s, whole);
    let exponent = exponent_end(s, fraction);
    assert(whole > start);
    assert(exponent == s.len());
    assert(is_decimal(s, start));
}

} // verus!
