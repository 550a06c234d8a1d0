//! Unicode superscript numerals, used for the exponents of a unit suffix.

use vstd::prelude::*;

verus! {

/// The superscript glyph of one decimal digit.
pub open spec fn superscript_digit(d: int) -> char {
    if d == 0 {
        '⁰'
    } else if d == 1 {
        '¹'
    } else if d == 2 {
        '²'
    } else if d == 3 {
        '³'
    } else if d == 4 {
        '⁴'
    } else if d == 5 {
        '⁵'
    } else if d == 6 {
        '⁶'
    } else if d == 7 {
        '⁷'
    } else if d == 8 {
        '⁸'
    } else {
        '⁹'
    }
}

/// The decimal digits of `n`, most significant first, as superscript glyphs.
pub open spec fn superscript_digits(n: nat) -> Seq<char>
    decreases n,
{
    if n < 10 {
        seq![superscript_digit(n as int)]
    } else {
        superscript_digits(n / 10).push(superscript_digit((n % 10) as int))
    }
}

/// The superscript rendering of an integer: a superscript minus for a negative
/// number, then the digits of its magnitude.
pub open spec fn superscript(n: int) -> Seq<char> {
    if n < 0 {
        seq!['⁻'] + superscript_digits((-n) as nat)
    } else {
        superscript_digits(n as nat)
    }
}

/// The glyph of one digit as a one-character string.
fn digit_glyph(d: u64) -> (s: &'static str)
    requires
        d < 10,
    ensures
        s@ == seq![superscript_digit(d as int)],
{
    proof {
        reveal_strlit("⁰");
        reveal_strlit("¹");
        reveal_strlit("²");
        reveal_strlit("³");
        reveal_strlit("⁴");
        reveal_strlit("⁵");
        reveal_strlit("⁶");
        reveal_strlit("⁷");
        reveal_strlit("⁸");
        reveal_strlit("⁹");
    }
    if d == 0 {
        "⁰"
    } else if d == 1 {
        "¹"
    } else if d == 2 {
        "²"
    } else if d == 3 {
        "³"
    } else if d == 4 {
        "⁴"
    } else if d == 5 {
        "⁵"
    } else if d == 6 {
        "⁶"
    } else if d == 7 {
        "⁷"
    } else if d == 8 {
        "⁸"
    } else {
        "⁹"
    }
}

/// Prepending the digits of `low` (padded to the position it came from) to
/// what is already written gives the digits of the whole number: one step of
/// writing a number from its last digit backwards.
proof fn lemma_digits_step(rest: nat, tail: Seq<char>, whole: nat)
    requires
        rest >= 10,
        superscript_digits(rest) + tail == superscript_digits(whole),
    ensures
        superscript_digits(rest / 10) + (seq![superscript_digit((rest % 10) as int)] + tail)
            == superscript_digits(whole),
{
    let head = superscript_digits(rest / 10);
    let d = superscript_digit((rest % 10) as int);
    assert(superscript_digits(rest) == head.push(d));
    assert(head.push(d) + tail =~= head + (seq![d] + tail));
}

/// Renders an integer in superscript glyphs, as exponents are shown in a unit
/// suffix.
pub fn num_to_superscript(n: i64) -> (out: String)
    ensures
        out@ == superscript(n as int),
{
    let magnitude: u64 = if n < 0 {
        if n == i64::MIN {
            9223372036854775808u64
        } else {
            (-n) as u64
        }
    } else {
        n as u64
    };
    let mut rest: u64 = magnitude;
    let mut out = String::new();
    while rest >= 10
        invariant
            superscript_digits(rest as nat) + out@ == superscript_digits(magnitude as nat),
        decreases rest,
    {
        proof {
            lemma_digits_step(rest as nat, out@, magnitude as nat);
        }
        out = String::from_str(digit_glyph(rest % 10)).concat(out.as_str());
        rest = rest / 10;
    }
    out = String::from_str(digit_glyph(rest)).concat(out.as_str());
    if n < 0 {
        proof {
            reveal_strlit("⁻");
        }
        out = String::from_str("⁻").concat(out.as_str());
    }
    out
}

} // verus!
