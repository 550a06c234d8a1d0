use larvae::registry::Registry;
use larvae::tokenizer::{tokenize, tokenizer};

fn token_test(input: &str, expected: &str) {
    let registry = Registry::standard();
    let tokens: Vec<String> = tokenize(input, &registry);
    let expected_out: Vec<String> = expected.split_whitespace().map(|s| s.to_string()).collect();
    assert_eq!(tokens, expected_out);
}

#[test]
fn test_parse_dimunits() {
    token_test(
        "1kg^-2kg kg*e/e*log(10)*pi/pi*sqrt(1)!%2*1.123kilometer^2/s+100s^-1m*m+10km^2/s-0m^2/s-> m^3/m/s",
        "1 kg ^ -2 kg kg * e / e * log ( 10 ) * pi / pi * sqrt ( 1 ) ! % 2 * 1.123 kilometer ^ 2 / s +100 s ^ -1 m * m +10 km ^ 2 / s -0 m ^ 2 / s -> m ^ 3 / m / s",
    );
}

#[test]
fn test_whitespace() {
    token_test("1    km  +   6.3m    ", "1 km + 6.3 m");
    token_test("1km/s^5.4 + 6.3m/s^5.4", "1 km / s ^ 5.4 + 6.3 m / s ^ 5.4");
}

#[test]
fn test_arrow() {
    token_test("1m/s -> km/min", "1 m / s -> km / min");
    token_test("1m/s->km/min", "1 m / s -> km / min");
}

#[test]
fn test_group() {
    token_test("5m/s+(1km/3s)", "5 m / s + ( 1 km / 3 s )");
}

#[test]
fn test_ops() {
    token_test("1 + 2", "1 + 2");
    token_test("1 - 2", "1 - 2");
    token_test("1*2", "1 * 2");
    token_test("1/2", "1 / 2");
    token_test("1%2", "1 % 2");
    token_test("1!", "1 !");
    token_test("log(5)", "log ( 5 )");
    token_test("ln(5)", "ln ( 5 )");
    token_test("e^4", "e ^ 4");
    token_test("e^-4", "e ^ -4");
    token_test("pi - 4", "pi - 4");
    token_test("(2)(2)", "( 2 ) ( 2 )");
}

#[test]
fn test_eval_pos_neg_num() {
    token_test("-1", "-1");
    token_test("+1", "+1");
    token_test("+1m-2m", "+1 m -2 m");
    token_test("+1m+2m", "+1 m +2 m");
    token_test("+1m+-2m", "+1 m + -2 m");
    token_test("+1m++2m", "+1 m + +2 m");
    token_test("+1m--2m", "+1 m - -2 m");
    token_test("1m+2m", "1 m +2 m");
    token_test("1m-2m", "1 m -2 m");
}

#[test]
fn test_all_units() {
    let registry = Registry::standard();
    for i in 0..registry.len() {
        let unit = registry.key(i);
        token_test(
            format!("123{0}+ 3{0}/{0}*{0}", unit).as_str(),
            format!("123 {0} + 3 {0} / {0} * {0}", unit).as_str(),
        );
    }
}

#[test]
fn test_unknown_tokens() {
    token_test("1m&^9", "1 m & ^ 9");
    token_test("1m&$#^9", "1 m & $ # ^ 9");
}

#[test]
fn sign_is_read_into_the_literal() {
    token_test("1km+6.3m", "1 km +6.3 m");
    token_test("1km+ 6.3m", "1 km + 6.3 m");
    token_test("1 km + 6.3 m", "1 km + 6.3 m");
}

#[test]
fn empty_and_blank_inputs_have_no_tokens() {
    let registry = Registry::standard();
    assert_eq!(tokenize("", &registry), Vec::<String>::new());
    assert_eq!(tokenize(" \t\r\n ", &registry), Vec::<String>::new());
}

#[test]
fn next_token_walks_the_input() {
    let registry = Registry::standard();
    let mut t = tokenizer(" 12 km", &registry);
    assert_eq!(t.next_token(), Some("12".to_string()));
    assert_eq!(t.next_token(), Some("km".to_string()));
    assert_eq!(t.next_token(), None);
    assert_eq!(t.next_token(), None);
}

#[test]
fn numeric_literals_take_fraction_and_exponent() {
    token_test("1.5e3", "1.5e3");
    token_test("1.5E-3m", "1.5E-3 m");
    token_test("2e+10", "2e+10");
    token_test("-7.25", "-7.25");
}

#[test]
fn a_dot_without_digits_is_not_part_of_the_literal() {
    token_test("1.", "1 .");
    token_test("1.e5", "1 . e 5");
    token_test(".5", ". 5");
}

#[test]
fn an_exponent_without_digits_is_not_part_of_the_literal() {
    token_test("1e", "1 e");
    token_test("1e+", "1 e +");
    token_test("2em", "2 em");
}

#[test]
fn an_i_behind_a_literal_begins_the_next_word() {
    token_test("3i", "3 i");
    token_test("3i2", "3 i 2");
    token_test("2inch", "2 inch");
    token_test("2i nch", "2 i nch");
    token_test("2 inch", "2 inch");
    token_test("1.5e3in+2i", "1.5e3 in +2 i");
    token_test("-7i)", "-7 i )");
    token_test("2iμm", "2 i μm");
}

#[test]
fn operators_are_single_characters() {
    token_test("2**3", "2 * * 3");
    token_test("a<=b", "a < = b");
    token_test("1,2", "1 , 2");
}

#[test]
fn words_are_runs_of_letters() {
    token_test("foo bar", "foo bar");
    token_test("log2", "log 2");
    token_test("km2s", "km 2 s");
    token_test("foo_1 bar", "foo _ 1 bar");
    token_test("_x9+y", "_ x 9 + y");
    token_test("sqrtμm", "sqrt μm");
}

#[test]
fn a_unit_spelling_that_is_no_word_is_matched_whole() {
    token_test("3μm", "3 μm");
    token_test("3μs*2μN", "3 μs * 2 μN");
    token_test("μgμm", "μg μm");
}

#[test]
fn a_character_that_starts_nothing_is_a_token_by_itself() {
    token_test("μ", "μ");
    token_test("3μx", "3 μ x");
    token_test("°C", "° C");
}
