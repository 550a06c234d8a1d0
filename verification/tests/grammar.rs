use larvae::equation::Calculator;

fn parse_test(input: &str) -> bool {
    let calculator = Calculator::new();
    let tokens: Vec<String> = input.split_whitespace().map(|s| s.to_string()).collect();
    calculator.parse(&tokens).is_ok()
}

#[test]
fn grammar_ok() {
    let _ = Calculator::new();
}

#[test]
fn nums() {
    assert!(parse_test("1"));
    assert!(parse_test("-1"));
    assert!(parse_test("-9.19402349"));
}

#[test]
fn pos_nums() {
    assert!(parse_test("+1"));
}

#[test]
fn neg_nums() {
    assert!(parse_test("-1"));
}

#[test]
fn single_quantity() {
    assert!(parse_test("1 m"));
    assert!(parse_test("-1 m"));
    assert!(parse_test("-1 m"));
    assert!(parse_test("-1 m / s"));
    assert!(parse_test("-1 m / s ^ 2"));
}

#[test]
fn parser_factorial() {
    assert!(parse_test("5 !"));
}

#[test]
fn parser_log() {
    assert!(parse_test("log ( 100 )"));
    assert!(parse_test("log 100"));
}

#[test]
fn parser_ln() {
    assert!(parse_test("ln ( 100 )"));
    assert!(parse_test("ln 100"));
}

#[test]
fn parser_sqrt() {
    assert!(parse_test("sqrt ( 100 )"));
    assert!(parse_test("sqrt 100"));
}

#[test]
fn parser_basic_arithmetic() {
    assert!(parse_test("2 + 2"));
    assert!(parse_test("1. + 1 - 2 * 10.34 / 0.5"));
    assert!(parse_test("80 - 4 - 4"));
}

#[test]
fn dimensional_analysis() {
    assert!(parse_test("1. m / s ^ 2 + 1 m / s ^ 2 - 2 m / s ^ 2"));
    assert!(parse_test("10 ^ 1 s"));
    assert!(parse_test("10 ^ -1 s"));
}

#[test]
fn grammar_test_basic_arithmetic() {
    assert!(parse_test("1. + 1 - 2 * 10.34 / .5"));
    assert!(parse_test("80 - 4 - 4"));
    assert!(parse_test("80 -4 -4"));
    assert!(parse_test("( 2 ) ( 2 )"));
}

#[test]
fn grammar_test_dimensional_analysis() {
    assert!(parse_test("1. m / s ^ 2 + 1 m / s ^ 2 - 2 m / s ^ 2"));
    assert!(parse_test("10 ^ -1 s"));
}

#[test]
fn grammer_test_basic_arithmetic() {
    assert!(parse_test("1. + 1 - 2 * 10.34 / .5"));
}

#[test]
fn grammer_test_dimensional_analysis() {
    assert!(parse_test("1. m / s ^ 2 + 1 m / s ^ 2 - 2 m / s ^ 2"));
}

#[test]
fn sentences_that_the_grammar_refuses() {
    assert!(!parse_test(""));
    assert!(!parse_test("+"));
    assert!(!parse_test("1 +"));
    assert!(!parse_test("( 1"));
    assert!(!parse_test("1 )"));
    assert!(!parse_test("m"));
    assert!(!parse_test("1 2"));
    assert!(!parse_test("1 -> 2"));
    assert!(!parse_test("5 m !"));
}
