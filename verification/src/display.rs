//! The rendering of a quantity: its value and the suffix of its units.
//!
//! The suffix is built from the exponents of the three base dimensions that
//! are not zero. The symbols with a positive exponent come first, in the
//! order of decreasing exponent and joined by `·`; the symbols with a
//! negative exponent follow after a `/`, each with its exponent negated, in
//! the order of decreasing negated exponent. Where no exponent is positive,
//! `1` stands before the `/`. An exponent of one is not shown, another whole
//! exponent is shown in superscript, and any other exponent in brackets
//! behind `^`.
//!
//! An exponent arrives here as the numeric side of the calculator has
//! classified it: by its sign, by what is shown for its magnitude, and by a
//! rank that orders the exponents as their values do.

use crate::superscript::{num_to_superscript, superscript};
use crate::text::texts;
use vstd::prelude::*;

verus! {

/// The sign of an exponent.
#[derive(Debug, Clone, Copy, PartialEq, Eq, Structural)]
pub enum Sense {
    Negative,
    Zero,
    Positive,
}

/// What is shown for the magnitude of an exponent.
#[derive(Debug, Clone, PartialEq, Eq)]
pub enum Shown {
    /// The magnitude is this whole number.
    Whole(i64),
    /// The magnitude is no whole number; this is its text.
    Other(String),
}

/// One exponent of a dimension vector, as it is rendered.
#[derive(Debug, Clone, PartialEq, Eq)]
pub struct Exponent {
    /// A number that is greater for a greater exponent and equal for an
    /// equal one.
    pub rank: i64,
    pub sense: Sense,
    pub shown: Shown,
}

/// The symbol of the unit of one base dimension, with the exponent of that
/// dimension.
#[derive(Debug, Clone, PartialEq, Eq)]
pub struct Part {
    pub symbol: String,
    pub exponent: Exponent,
}

/// The positions of three ranks in the order of decreasing rank, equal ranks
/// in the order in which they stand.
pub open spec fn decreasing(r0: int, r1: int, r2: int) -> (int, int, int) {
    if r0 >= r1 {
        if r1 >= r2 {
            (0, 1, 2)
        } else if r0 >= r2 {
            (0, 2, 1)
        } else {
            (2, 0, 1)
        }
    } else {
        if r0 >= r2 {
            (1, 0, 2)
        } else if r1 >= r2 {
            (1, 2, 0)
        } else {
            (2, 1, 0)
        }
    }
}

/// Whether `order` lists the positions 0, 1 and 2 by decreasing rank, equal
/// ranks in the order in which they stand.
pub open spec fn is_stable_decreasing(ranks: Seq<int>, order: (int, int, int)) -> bool {
    &&& 0 <= order.0 < 3 && 0 <= order.1 < 3 && 0 <= order.2 < 3
    &&& order.0 != order.1 && order.1 != order.2 && order.0 != order.2
    &&& ranks[order.0] >= ranks[order.1] >= ranks[order.2]
    &&& ranks[order.0] == ranks[order.1] ==> order.0 < order.1
    &&& ranks[order.1] == ranks[order.2] ==> order.1 < order.2
}

/// `decreasing` gives the one order of three ranks that is decreasing and
/// keeps equal ranks in the order in which they stand.
pub proof fn lemma_decreasing_is_stable(ranks: Seq<int>, order: (int, int, int))
    requires
        ranks.len() == 3,
    ensures
        is_stable_decreasing(ranks, order) <==> order == decreasing(ranks[0], ranks[1], ranks[2]),
{
}

/// The text of one part in a suffix: the symbol, and the magnitude of the
/// exponent unless it is one.
pub open spec fn item(part: Part) -> Seq<char> {
    match part.exponent.shown {
        Shown::Whole(k) => if k == 1 {
            part.symbol@
        } else {
            part.symbol@ + superscript(k as int)
        },
        Shown::Other(text) => part.symbol@ + seq!['^', '('] + text@ + seq![')'],
    }
}

/// The first `n` items, with `·` between any two of them.
pub open spec fn joined(items: Seq<Seq<char>>, n: int) -> Seq<char>
    decreases n,
{
    if n <= 0 {
        Seq::empty()
    } else if n == 1 {
        items[0]
    } else {
        joined(items, n - 1) + seq!['·'] + items[n - 1]
    }
}

/// The items of the parts with a positive exponent among the first `n`
/// parts, in their order.
pub open spec fn numerator(parts: Seq<Part>, n: int) -> Seq<Seq<char>>
    decreases n,
{
    if n <= 0 {
        Seq::empty()
    } else if parts[n - 1].exponent.sense == Sense::Positive {
        numerator(parts, n - 1).push(item(parts[n - 1]))
    } else {
        numerator(parts, n - 1)
    }
}

/// The items of the parts with a negative exponent among the first `n`
/// parts, the last of them first.
pub open spec fn denominator(parts: Seq<Part>, n: int) -> Seq<Seq<char>>
    decreases n,
{
    if n <= 0 {
        Seq::empty()
    } else if parts[n - 1].exponent.sense == Sense::Negative {
        seq![item(parts[n - 1])] + denominator(parts, n - 1)
    } else {
        denominator(parts, n - 1)
    }
}

/// The suffix of parts that stand in the order of decreasing exponent.
pub open spec fn suffix_of(parts: Seq<Part>) -> Seq<char> {
    let up = numerator(parts, parts.len() as int);
    let down = denominator(parts, parts.len() as int);
    if down.len() == 0 {
        joined(up, up.len() as int)
    } else if up.len() == 0 {
        seq!['1', '/'] + joined(down, down.len() as int)
    } else {
        joined(up, up.len() as int) + seq!['/'] + joined(down, down.len() as int)
    }
}

/// The three parts in the order of decreasing rank.
pub open spec fn arranged(length: Part, mass: Part, time: Part) -> Seq<Part> {
    let parts = seq![length, mass, time];
    let order = decreasing(
        length.exponent.rank as int,
        mass.exponent.rank as int,
        time.exponent.rank as int,
    );
    seq![parts[order.0], parts[order.1], parts[order.2]]
}

/// The rendering of a quantity: the text of its value, a blank, and the
/// suffix of its units.
pub open spec fn rendering(value: Seq<char>, length: Part, mass: Part, time: Part) -> Seq<char> {
    value + seq![' '] + suffix_of(arranged(length, mass, time))
}

/// The text of one part in a suffix.
pub fn item_text(part: &Part) -> (r: String)
    ensures
        r@ == item(*part),
{
    match &part.exponent.shown {
        Shown::Whole(k) => {
            if *k == 1 {
                part.symbol.clone()
            } else {
                let digits = num_to_superscript(*k);
                part.symbol.clone().concat(digits.as_str())
            }
        },
        Shown::Other(text) => {
            proof {
                reveal_strlit("^(");
                reveal_strlit(")");
                assert("^("@ =~= seq!['^', '(']);
                assert(")"@ =~= seq![')']);
            }
            part.symbol.clone().concat("^(").concat(text.as_str()).concat(")")
        },
    }
}

/// The items with `·` between any two of them.
pub fn join(items: &Vec<String>) -> (r: String)
    ensures
        r@ == joined(texts(items@), items@.len() as int),
{
    let ghost list = texts(items@);
    let mut r = String::new();
    let mut n: usize = 0;
    proof {
        reveal_strlit("·");
        assert("·"@ =~= seq!['·']);
    }
    while n < items.len()
        invariant
            n <= items@.len(),
            list == texts(items@),
            "·"@ == seq!['·'],
            r@ == joined(list, n as int),
        decreases items@.len() - n,
    {
        assert(list[n as int] == items@[n as int]@);
        if n == 0 {
            r = items[n].clone();
        } else {
            r = r.concat("·").concat(items[n].as_str());
        }
        n += 1;
    }
    r
}

/// The positions of three ranks in the order of decreasing rank.
fn order_of(r0: i64, r1: i64, r2: i64) -> (order: (usize, usize, usize))
    ensures
        (order.0 as int, order.1 as int, order.2 as int) == decreasing(r0 as int, r1 as int, r2 as int),
{
    if r0 >= r1 {
        if r1 >= r2 {
            (0, 1, 2)
        } else if r0 >= r2 {
            (0, 2, 1)
        } else {
            (2, 0, 1)
        }
    } else {
        if r0 >= r2 {
            (1, 0, 2)
        } else if r1 >= r2 {
            (1, 2, 0)
        } else {
            (2, 1, 0)
        }
    }
}

/// The suffix of the units of a quantity, from the symbol and the exponent
/// of each base dimension.
pub fn unit_suffix(length: &Part, mass: &Part, time: &Part) -> (r: String)
    ensures
        r@ == suffix_of(arranged(*length, *mass, *time)),
{
    let order = order_of(length.exponent.rank, mass.exponent.rank, time.exponent.rank);
    let parts: [&Part; 3] = [length, mass, time];
    let sorted: [&Part; 3] = [parts[order.0], parts[order.1], parts[order.2]];
    let ghost list = arranged(*length, *mass, *time);
    assert(list =~= seq![*sorted[0], *sorted[1], *sorted[2]]);
    let mut up: Vec<String> = Vec::new();
    let mut down: Vec<String> = Vec::new();
    let mut n: usize = 0;
    assert(texts(up@) =~= numerator(list, 0));
    assert(texts(down@) =~= denominator(list, 0));
    while n < 3
        invariant
            n <= 3,
            list == seq![*sorted[0], *sorted[1], *sorted[2]],
            texts(up@) == numerator(list, n as int),
            texts(down@) == denominator(list, n as int),
        decreases 3 - n,
    {
        let part = sorted[n];
        let ghost ups = up@;
        let ghost downs = down@;
        match part.exponent.sense {
            Sense::Positive => {
                up.push(item_text(part));
                assert(texts(up@) =~= texts(ups).push(item(*part)));
            },
            Sense::Negative => {
                down.insert(0, item_text(part));
                assert(texts(down@) =~= seq![item(*part)] + texts(
                    downs,
                ));
            },
            Sense::Zero => {},
        }
        n += 1;
    }
    proof {
        reveal_strlit("1/");
        reveal_strlit("/");
        assert("1/"@ =~= seq!['1', '/']);
        assert("/"@ =~= seq!['/']);
    }
    if down.len() == 0 {
        join(&up)
    } else if up.len() == 0 {
        String::from_str("1/").concat(join(&down).as_str())
    } else {
        join(&up).concat("/").concat(join(&down).as_str())
    }
}

/// The rendering of a quantity, from the text of its value and from the
/// symbol and the exponent of each base dimension.
pub fn render(value: &str, length: &Part, mass: &Part, time: &Part) -> (r: String)
    ensures
        r@ == rendering(value@, *length, *mass, *time),
{
    proof {
        reveal_strlit(" ");
        assert(" "@ =~= seq![' ']);
    }
    String::from_str(value).concat(" ").concat(unit_suffix(length, mass, time).as_str())
}

} // verus!
