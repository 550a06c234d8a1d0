use larvae::display::{item_text, join, render, unit_suffix, Exponent, Part, Sense, Shown};
use larvae::superscript::num_to_superscript;
use larvae::unit::{Unit, Units};

fn rank(x: f64) -> i64 {
    let bits = (x + 0.).to_bits() as i64;
    if bits < 0 {
        bits ^ i64::MAX
    } else {
        bits
    }
}

fn exponent(dim: f64) -> Exponent {
    let sense = if dim == 0. {
        Sense::Zero
    } else if dim.is_sign_positive() {
        Sense::Positive
    } else {
        Sense::Negative
    };
    let magnitude = dim.abs();
    let shown = if magnitude == (magnitude as i64) as f64 {
        Shown::Whole(magnitude as i64)
    } else {
        Shown::Other(format!("{}", magnitude))
    };
    Exponent { rank: rank(dim), sense, shown }
}

/// The rendering of a value in the default units with the given exponents.
fn show(value: &str, length: f64, mass: f64, time: f64) -> String {
    let units = Units::SI();
    render(
        value,
        &Part { symbol: units.length.symbol(), exponent: exponent(length) },
        &Part { symbol: units.mass.symbol(), exponent: exponent(mass) },
        &Part { symbol: units.time.symbol(), exponent: exponent(time) },
    )
}

#[test]
fn test_quantity_display() {
    assert_eq!(show("25", 1., 2., 0.), "25 kg²·m");
    assert_eq!(show("25", 1., 2., -3.), "25 kg²·m/s³");
    assert_eq!(show("25", -1., -2., 0.), "25 1/kg²·m");
}

#[test]
fn quantity_quantity_display() {
    assert_eq!(show("25", 1., 2., 0.), "25 kg²·m");
    assert_eq!(show("25", 1., 2., -3.), "25 kg²·m/s³");
    assert_eq!(show("25", -1., -2., 0.), "25 1/kg²·m");
}

#[test]
fn display_quantity_display() {
    assert_eq!(show("25", 1., 2., 0.), "25 kg²·m");
    assert_eq!(show("25", 1., 2., -3.), "25 kg²·m/s³");
    assert_eq!(show("25", -1., -2., 0.), "25 1/kg²·m");
}

#[test]
fn a_value_without_dimension_has_no_suffix() {
    assert_eq!(show("25", 0., 0., 0.), "25 ");
    assert_eq!(show("0.5", 0., -0., 0.), "0.5 ");
}

#[test]
fn equal_exponents_keep_the_order_of_the_dimensions_above_and_turn_it_below() {
    assert_eq!(show("1", 1., 1., 1.), "1 m·kg·s");
    assert_eq!(show("1", -1., -1., -1.), "1 1/s·kg·m");
    assert_eq!(show("1", 2., 2., -2.), "1 m²·kg²/s²");
}

#[test]
fn greater_exponents_come_first() {
    assert_eq!(show("1", 1., 2., 3.), "1 s³·kg²·m");
    assert_eq!(show("1", 3., 1., 2.), "1 m³·s²·kg");
    assert_eq!(show("1", -3., -1., -2.), "1 1/m³·s²·kg");
    assert_eq!(show("1", 1., -1., -2.), "1 m/s²·kg");
    assert_eq!(show("7", 0., 1., -1.), "7 kg/s");
}

#[test]
fn exponents_that_are_not_whole_stand_in_brackets() {
    assert_eq!(show("1", 0.5, 0., 0.), "1 m^(0.5)");
    assert_eq!(show("1", 0., 0., -5.4), "1 1/s^(5.4)");
    assert_eq!(show("1", 1.5, 1., -0.25), "1 m^(1.5)·kg/s^(0.25)");
}

#[test]
fn whole_exponents_of_several_digits() {
    assert_eq!(show("1", 12., 0., -305.), "1 m¹²/s³⁰⁵");
}

#[test]
fn superscripts_of_integers() {
    assert_eq!(num_to_superscript(0), "⁰");
    assert_eq!(num_to_superscript(7), "⁷");
    assert_eq!(num_to_superscript(10), "¹⁰");
    assert_eq!(num_to_superscript(1234567890), "¹²³⁴⁵⁶⁷⁸⁹⁰");
    assert_eq!(num_to_superscript(-42), "⁻⁴²");
    assert_eq!(num_to_superscript(i64::MAX), "⁹²²³³⁷²⁰³⁶⁸⁵⁴⁷⁷⁵⁸⁰⁷");
    assert_eq!(num_to_superscript(i64::MIN), "⁻⁹²²³³⁷²⁰³⁶⁸⁵⁴⁷⁷⁵⁸⁰⁸");
}

#[test]
fn items_and_joins() {
    let whole = |k: i64| Exponent { rank: k, sense: Sense::Positive, shown: Shown::Whole(k) };
    assert_eq!(item_text(&Part { symbol: "km".to_string(), exponent: whole(1) }), "km");
    assert_eq!(item_text(&Part { symbol: "km".to_string(), exponent: whole(2) }), "km²");
    assert_eq!(item_text(&Part { symbol: "km".to_string(), exponent: whole(0) }), "km⁰");
    let other = Exponent { rank: 0, sense: Sense::Positive, shown: Shown::Other("2.5".to_string()) };
    assert_eq!(item_text(&Part { symbol: "s".to_string(), exponent: other }), "s^(2.5)");
    assert_eq!(join(&vec![]), "");
    assert_eq!(join(&vec!["a".to_string()]), "a");
    assert_eq!(join(&vec!["a".to_string(), "b".to_string(), "c".to_string()]), "a·b·c");
}

#[test]
fn the_suffix_uses_the_symbols_that_it_is_given() {
    let part = |symbol: &str, dim: f64| Part { symbol: symbol.to_string(), exponent: exponent(dim) };
    assert_eq!(unit_suffix(&part("km", 1.), &part("g", 0.), &part("hr", -1.)), "km/hr");
    assert_eq!(unit_suffix(&part("μm", 2.), &part("g", 1.), &part("min", 0.)), "μm²·g");
}
