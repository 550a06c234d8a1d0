use larvae::derivation::{Derivation, Step};
use larvae::equation::{conclude, is_recognized, unrecognized, SyntaxError};
use larvae::grammar::Production;
use larvae::program::{operation_of, reduce, value_of, Instruction};
use larvae::grammar::Terminal;
use larvae::registry::Registry;
use larvae::text::{chars_of, same_text, same_texts};
use larvae::unit::{Length, UnitRef};

fn strings(list: &[&str]) -> Vec<String> {
    list.iter().map(|s| s.to_string()).collect()
}

/// The derivation of `2 - 3`, as the parser builds it from below.
fn two_minus_three() -> Derivation {
    let number = |text: &str| {
        let mut d = Derivation::leaf("num", text);
        for p in [
            Production::LiteralNum,
            Production::GroupLiteral,
            Production::UfactGroup,
            Production::PowerUfact,
            Production::FactorPower,
            Production::TermFactor,
        ] {
            d = Derivation::node(p, vec![d]);
        }
        d
    };
    let left = Derivation::node(Production::ExprTerm, vec![number("2")]);
    let difference = Derivation::node(Production::ExprSub, vec![left, Derivation::leaf("-", "-"), number("3")]);
    Derivation::node(Production::EquationExpr, vec![difference])
}

#[test]
fn a_node_puts_its_children_before_itself() {
    let d = Derivation::node(
        Production::UpowerPow,
        vec![
            Derivation::leaf("unit", "m"),
            Derivation::leaf("^", "^"),
            Derivation::node(Production::LiteralNum, vec![Derivation::leaf("num", "2")]),
        ],
    );
    assert_eq!(d.steps.len(), 5);
    assert!(matches!(&d.steps[0], Step::Leaf { terminal: Some(Terminal::Unit), token } if token == "m"));
    assert!(matches!(&d.steps[1], Step::Leaf { terminal: Some(Terminal::Caret), token } if token == "^"));
    assert!(matches!(&d.steps[2], Step::Leaf { terminal: Some(Terminal::Num), token } if token == "2"));
    let unknown = Derivation::leaf("number", "2");
    assert!(matches!(&unknown.steps[0], Step::Leaf { terminal: None, token } if token == "2"));
    assert!(matches!(&d.steps[3], Step::Node { production: Production::LiteralNum }));
    assert!(matches!(&d.steps[4], Step::Node { production: Production::UpowerPow }));
    assert_eq!(d.tokens(), strings(&["m", "^", "2"]));
    assert_eq!(Derivation::node(Production::GroupE, vec![]).steps.len(), 1);
}

#[test]
fn a_derivation_from_the_start_symbol_passes_the_check() {
    let registry = Registry::standard();
    let d = two_minus_three();
    assert!(d.check(&registry));
    assert_eq!(d.tokens(), strings(&["2", "-", "3"]));
    assert_eq!(
        reduce(&d, &registry),
        vec![Instruction::Number("2".to_string()), Instruction::Number("3".to_string()), Instruction::Sub]
    );
}

#[test]
fn steps_that_are_no_derivation_fail_the_check() {
    let registry = Registry::standard();
    // nothing at all
    assert!(!Derivation { steps: vec![] }.check(&registry));
    // a part of a derivation
    assert!(!Derivation::leaf("num", "2").check(&registry));
    assert!(!Derivation::node(Production::LiteralNum, vec![Derivation::leaf("num", "2")]).check(&registry));
    // a leaf under a name that is no terminal
    let mut d = two_minus_three();
    d.steps[0] = Step::Leaf { terminal: None, token: "2".to_string() };
    assert!(!d.check(&registry));
    // a leaf whose terminal does not accept the token
    let mut d = two_minus_three();
    d.steps[0] = Step::Leaf { terminal: Some(Terminal::Num), token: "two".to_string() };
    assert!(!d.check(&registry));
    // a production over the wrong symbols
    let mut d = two_minus_three();
    let last = d.steps.len() - 2;
    d.steps[last] = Step::Node { production: Production::ExprAdd };
    assert!(!d.check(&registry));
    // a production without its symbols
    assert!(!Derivation::node(Production::ExprSub, vec![]).check(&registry));
    // more than one derivation
    let mut d = two_minus_three();
    let again = two_minus_three();
    d.steps.extend(again.steps);
    assert!(!d.check(&registry));
}

#[test]
fn what_the_parser_hands_back_is_checked() {
    let registry = Registry::standard();
    let tokens = strings(&["2", "-", "3"]);
    let program =
        vec![Instruction::Number("2".to_string()), Instruction::Number("3".to_string()), Instruction::Sub];
    assert_eq!(conclude(&tokens, Ok(two_minus_three()), &registry), Ok(program));
    let no_position = Err(SyntaxError { position: None });
    // a derivation of other tokens
    assert_eq!(conclude(&strings(&["2", "-", "4"]), Ok(two_minus_three()), &registry), no_position);
    assert_eq!(conclude(&strings(&["2", "-"]), Ok(two_minus_three()), &registry), no_position);
    // no derivation
    assert_eq!(conclude(&tokens, Ok(Derivation::leaf("num", "2")), &registry), no_position);
    // a parser that found nothing
    assert_eq!(conclude(&tokens, Err("Parse Error".to_string()), &registry), no_position);
}

#[test]
fn instructions_of_steps() {
    let registry = Registry::standard();
    assert_eq!(operation_of(Production::ExprAdd), Some(Instruction::Add));
    assert_eq!(operation_of(Production::ExprSigned), Some(Instruction::Add));
    assert_eq!(operation_of(Production::TermGroup), Some(Instruction::Mul));
    assert_eq!(operation_of(Production::UnitsJuxtapose), Some(Instruction::Mul));
    assert_eq!(operation_of(Production::UnitsDiv), Some(Instruction::Div));
    assert_eq!(operation_of(Production::FactorMeasure), Some(Instruction::Measure));
    assert_eq!(operation_of(Production::EquationConvert), Some(Instruction::Convert));
    assert_eq!(operation_of(Production::GroupParen), None);
    assert_eq!(operation_of(Production::ExprTerm), None);
    assert_eq!(
        value_of(Terminal::NegNum, &"-2".to_string(), &registry),
        Some(Instruction::Number("-2".to_string()))
    );
    assert_eq!(value_of(Terminal::Pi, &"pi".to_string(), &registry), Some(Instruction::Pi));
    assert_eq!(
        value_of(Terminal::Unit, &"km".to_string(), &registry),
        Some(Instruction::Unit(UnitRef::Length(Length::kilometer)))
    );
    assert_eq!(value_of(Terminal::Unit, &"parsec".to_string(), &registry), None);
    assert_eq!(value_of(Terminal::Plus, &"+".to_string(), &registry), None);
}

#[test]
fn tokens_that_no_terminal_accepts() {
    let registry = Registry::standard();
    assert!(is_recognized("1", &registry));
    assert!(is_recognized("->", &registry));
    assert!(is_recognized("km", &registry));
    assert!(is_recognized("sqrt", &registry));
    assert!(!is_recognized("foo", &registry));
    assert!(!is_recognized("&", &registry));
    assert!(!is_recognized("", &registry));
    assert_eq!(unrecognized(&strings(&["1", "km", "+", "2"]), &registry), None);
    assert_eq!(unrecognized(&strings(&["1", "foo", "&"]), &registry), Some(1));
    assert_eq!(unrecognized(&strings(&[]), &registry), None);
}

#[test]
fn texts_and_their_characters() {
    assert_eq!(chars_of("aμ1"), vec!['a', 'μ', '1']);
    assert_eq!(chars_of(""), Vec::<char>::new());
    assert!(same_text("km", "km"));
    assert!(!same_text("km", "kn"));
    assert!(!same_text("km", "k"));
    assert!(same_texts(&strings(&["a", "b"]), &strings(&["a", "b"])));
    assert!(!same_texts(&strings(&["a", "b"]), &strings(&["a", "c"])));
    assert!(!same_texts(&strings(&["a", "b"]), &strings(&["a"])));
}
