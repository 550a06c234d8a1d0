use larvae::grammar::{Nonterminal, Production, Symbol, Terminal};
use larvae::number::{numeric, sign, Sign};
use larvae::registry::Registry;
use larvae::semanter::rule_name;

#[test]
fn decimal_numbers_are_numeric() {
    for text in ["0", "42", "3.14", "-3.14", "+3.14", "2.5E10", "2.5e10", "2.5E-10", "5.", ".5", "-.5", "1e+5", "007"] {
        assert!(numeric(text), "{}", text);
        assert!(text.parse::<f64>().is_ok(), "{}", text);
    }
}

#[test]
fn the_words_for_infinity_and_for_no_number_are_numeric() {
    for text in ["inf", "-inf", "+infinity", "NaN", "nan", "INF", "Infinity", "-nAn"] {
        assert!(numeric(text), "{}", text);
        assert!(text.parse::<f64>().is_ok(), "{}", text);
    }
}

#[test]
fn other_texts_are_not_numeric() {
    for text in [
        "", "+", "-", ".", "e", "e5", "1e", "1e+", "1.2.3", "1 ", " 1", "1m", "0x10", "1_000", "--1", "+-1",
        "1e5.5", "infin", "infinityy", "na", "m", "μ", "3i", "١",
    ] {
        assert!(!numeric(text), "{:?}", text);
        assert!(text.parse::<f64>().is_err(), "{:?}", text);
    }
}

#[test]
fn signs_of_literals() {
    assert_eq!(sign("+1"), Sign::Plus);
    assert_eq!(sign("-1"), Sign::Minus);
    assert_eq!(sign("1"), Sign::Unsigned);
    assert_eq!(sign(".5"), Sign::Unsigned);
    assert_eq!(sign(""), Sign::Unsigned);
}

#[test]
fn terminals_accept_their_tokens() {
    let registry = Registry::standard();
    assert!(Terminal::Num.matches("12.5", &registry));
    assert!(!Terminal::Num.matches("-12.5", &registry));
    assert!(!Terminal::Num.matches("+12.5", &registry));
    assert!(Terminal::PosNum.matches("+12.5", &registry));
    assert!(!Terminal::PosNum.matches("12.5", &registry));
    assert!(Terminal::NegNum.matches("-12.5", &registry));
    assert!(!Terminal::NegNum.matches("-", &registry));
    assert!(Terminal::Minus.matches("-", &registry));
    assert!(!Terminal::Minus.matches("->", &registry));
    assert!(Terminal::Arrow.matches("->", &registry));
    assert!(!Terminal::Arrow.matches("[->]", &registry));
    assert!(Terminal::Unit.matches("km", &registry));
    assert!(!Terminal::Unit.matches("unit", &registry));
    assert!(Terminal::Sqrt.matches("sqrt", &registry));
    assert!(!Terminal::Sqrt.matches("sqr", &registry));
    assert!(Terminal::E.matches("e", &registry));
    assert!(!Terminal::E.matches("E", &registry));
    assert!(Terminal::Open.matches("(", &registry));
}

#[test]
fn terminals_by_name() {
    assert_eq!(Terminal::named("num"), Some(Terminal::Num));
    assert_eq!(Terminal::named("+num"), Some(Terminal::PosNum));
    assert_eq!(Terminal::named("-"), Some(Terminal::Minus));
    assert_eq!(Terminal::named("[->]"), Some(Terminal::Arrow));
    assert_eq!(Terminal::named("unit"), Some(Terminal::Unit));
    assert_eq!(Terminal::named("->"), None);
    assert_eq!(Terminal::named("expr"), None);
    assert_eq!(Terminal::named(""), None);
    for i in 0..Terminal::COUNT {
        let t = Terminal::from_index(i).unwrap();
        assert_eq!(Terminal::named(t.name()), Some(t));
    }
    assert_eq!(Terminal::from_index(Terminal::COUNT), None);
}

#[test]
fn productions_have_heads_bodies_and_names() {
    assert_eq!(Production::ExprSub.head(), Nonterminal::Expr);
    assert_eq!(
        Production::ExprSub.body(),
        vec![
            Symbol::Nonterminal(Nonterminal::Expr),
            Symbol::Terminal(Terminal::Minus),
            Symbol::Nonterminal(Nonterminal::Term),
        ]
    );
    assert_eq!(rule_name(Production::ExprSub), "expr -> expr - term");
    assert_eq!(rule_name(Production::EquationConvert), "equation -> expr [->] units");
    assert_eq!(rule_name(Production::EquationExpr), "equation -> expr");
    assert_eq!(rule_name(Production::TermGroup), "term -> term ( expr )");
    assert_eq!(rule_name(Production::SignedNeg), "signed -> -num");
    assert_eq!(Production::from_index(0), Some(Production::EquationExpr));
    assert_eq!(Production::from_index(Production::COUNT - 1), Some(Production::UpowerPow));
    assert_eq!(Production::from_index(Production::COUNT), None);
    assert_eq!(Nonterminal::from_index(0), Some(Nonterminal::Equation));
    assert_eq!(Nonterminal::from_index(Nonterminal::COUNT), None);
    assert_eq!(Symbol::Nonterminal(Nonterminal::Upower).name(), "upower");
    assert_eq!(Symbol::Terminal(Terminal::Caret).name(), "^");
}
