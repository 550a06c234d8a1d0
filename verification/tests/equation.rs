use larvae::equation::{evaluate, Calculator, SyntaxError};
use larvae::program::Instruction;
use larvae::registry::Registry;
use larvae::unit::{context_of, Length, Mass, Time, Unit, UnitRef, Units};

// The numeric side that runs a program, as far as these tests need it.

#[derive(Debug, Clone, Copy, PartialEq, Default)]
struct Dimensions {
    length: f64,
    mass: f64,
    time: f64,
}

#[derive(Debug, Clone, Copy, PartialEq)]
struct Quantity {
    value: f64,
    dimensions: Dimensions,
    units: Units,
}

fn scalar(value: f64) -> Quantity {
    Quantity { value, dimensions: Dimensions::default(), units: Units::SI() }
}

fn factor<U: Unit>(unit: &U) -> f64 {
    let f = unit.conversion_factor();
    format!("{}e{}", f.mantissa, f.exponent).parse().unwrap()
}

fn conversion_factor(units: &Units, d: &Dimensions) -> f64 {
    factor(&units.length).powf(d.length) * factor(&units.mass).powf(d.mass) * factor(&units.time).powf(d.time)
}

fn set_units(q: &Quantity, units: &Units) -> Quantity {
    Quantity {
        units: *units,
        value: q.value * conversion_factor(&q.units, &q.dimensions) / conversion_factor(units, &q.dimensions),
        dimensions: q.dimensions,
    }
}

fn power(q: &Quantity, x: f64) -> Quantity {
    Quantity {
        value: q.value.powf(x),
        dimensions: Dimensions {
            length: q.dimensions.length * x,
            mass: q.dimensions.mass * x,
            time: q.dimensions.time * x,
        },
        units: q.units,
    }
}

fn times(l: &Quantity, r: &Quantity) -> Quantity {
    let r = set_units(r, &l.units);
    Quantity {
        value: l.value * r.value,
        dimensions: Dimensions {
            length: l.dimensions.length + r.dimensions.length,
            mass: l.dimensions.mass + r.dimensions.mass,
            time: l.dimensions.time + r.dimensions.time,
        },
        units: l.units,
    }
}

/// Two dimension vectors that an operation needs equal and found different.
#[derive(Debug, Clone, Copy, PartialEq)]
struct DimensionError(Dimensions, Dimensions);

fn plus(l: &Quantity, r: &Quantity) -> Result<Quantity, DimensionError> {
    if l.dimensions != r.dimensions {
        return Err(DimensionError(l.dimensions, r.dimensions));
    }
    let r = set_units(r, &l.units);
    Ok(Quantity { value: l.value + r.value, ..*l })
}

fn of_unit(unit: UnitRef) -> Quantity {
    let d = unit.dimensions();
    Quantity {
        value: factor(&unit),
        dimensions: Dimensions { length: d.length as f64, mass: d.mass as f64, time: d.time as f64 },
        units: context_of(unit),
    }
}

/// The value of a quantity without dimension.
fn plain(q: Quantity) -> Result<f64, DimensionError> {
    if q.dimensions == Dimensions::default() {
        Ok(q.value)
    } else {
        Err(DimensionError(q.dimensions, Dimensions::default()))
    }
}

fn try_run(program: &[Instruction]) -> Result<Quantity, DimensionError> {
    let mut stack: Vec<Quantity> = Vec::new();
    for instruction in program {
        let value = match instruction {
            Instruction::Number(text) => scalar(text.parse().unwrap()),
            Instruction::E => scalar(std::f64::consts::E),
            Instruction::Pi => scalar(std::f64::consts::PI),
            Instruction::Unit(unit) => of_unit(*unit),
            Instruction::Neg => {
                let q = stack.pop().unwrap();
                Quantity { value: -q.value, ..q }
            }
            Instruction::Factorial => scalar(spfunc::gamma::gamma::<f64>(plain(stack.pop().unwrap())? + 1.)),
            Instruction::Sqrt => scalar(plain(stack.pop().unwrap())?.sqrt()),
            Instruction::Log => scalar(plain(stack.pop().unwrap())?.log10()),
            Instruction::Ln => scalar(plain(stack.pop().unwrap())?.ln()),
            binary => {
                let r = stack.pop().unwrap();
                let l = stack.pop().unwrap();
                match binary {
                    Instruction::Add => plus(&l, &r)?,
                    Instruction::Sub => plus(&l, &Quantity { value: -r.value, ..r })?,
                    Instruction::Mul => times(&l, &r),
                    Instruction::Div => times(&l, &power(&r, -1.)),
                    Instruction::Rem => {
                        if l.dimensions != r.dimensions {
                            return Err(DimensionError(l.dimensions, r.dimensions));
                        }
                        Quantity { value: l.value % set_units(&r, &l.units).value, ..l }
                    }
                    Instruction::Pow => power(&l, plain(r)?),
                    Instruction::Measure => Quantity { value: l.value, dimensions: r.dimensions, units: r.units },
                    Instruction::Convert => set_units(&l, &r.units),
                    _ => unreachable!(),
                }
            }
        };
        stack.push(value);
    }
    assert_eq!(stack.len(), 1);
    Ok(stack.pop().unwrap())
}

fn run(program: &[Instruction]) -> Quantity {
    try_run(program).unwrap()
}

/// The value of a text.
fn calc(input: &str) -> Result<Quantity, SyntaxError> {
    evaluate(input).map(|program| run(&program))
}

/// The value of tokens that white space separates.
fn eval(input: &str) -> Quantity {
    let tokens: Vec<String> = input.split_whitespace().map(|s| s.to_string()).collect();
    run(&Calculator::new().parse(&tokens).unwrap())
}

fn number(text: &str) -> Instruction {
    Instruction::Number(text.to_string())
}

#[test]
fn one_equals_one() {
    assert_eq!(Ok(scalar(1.)), calc("1"));
}

#[test]
fn conversion() {
    assert_eq!(
        Ok(Quantity {
            value: 1e-3,
            dimensions: Dimensions { length: 1., ..Default::default() },
            units: Units { length: Length::kilometer, ..Default::default() },
        }),
        calc("1 m -> km")
    );
}

#[test]
fn test_conversion() {
    let out = calc("1 m -> km");
    let expected = Quantity {
        value: 1e-3,
        dimensions: Dimensions { length: 1., ..Default::default() },
        units: Units { length: Length::kilometer, ..Default::default() },
    };
    assert_eq!(out, Ok(expected));
}

#[test]
fn dim_analysis() {
    assert_eq!(
        Ok(Quantity {
            value: 1.,
            dimensions: Dimensions { length: 1., time: -2., ..Default::default() },
            units: Units { ..Default::default() },
        }),
        calc("1m/s^2")
    );
}

#[test]
fn equation_test_eval_basic_arithmetic() {
    assert_eq!(calc("80 - 4 - 4").unwrap(), scalar(72.));
    assert_eq!(calc("80-4-4").unwrap(), scalar(72.));
    assert_eq!(calc("80+4+4").unwrap(), scalar(88.));
    assert_eq!(calc("2+2").unwrap(), scalar(4.));
    assert_eq!(calc("-2-2").unwrap(), scalar(-4.));
}

#[test]
fn equation_test_dimensional_arithmetic() {
    assert!(calc("1m+2m").is_ok());
}

#[test]
fn semanter_test_eval_basic_arithmetic() {
    assert_eq!(calc("80 - 4 - 4").unwrap(), scalar(72.));
    assert_eq!(calc("80-4-4").unwrap(), scalar(72.));
    assert_eq!(calc("80+4+4").unwrap(), scalar(88.));
    assert_eq!(calc("2+2").unwrap(), scalar(4.));
    assert_eq!(calc("-2-2").unwrap(), scalar(-4.));
}

#[test]
fn semanter_test_dimensional_arithmetic() {
    assert!(calc("1m+2m").is_ok());
}

#[test]
fn semanter_basic_arithmetic() {
    assert_eq!(eval("1 + 2 + 2"), scalar(5.));
    assert_eq!(eval("5 - 3 - 2"), scalar(0.));
    assert_eq!(eval("5 / 1 / 2"), scalar(2.5));
    assert_eq!(eval("3 * 5 * 2"), scalar(30.));
    assert_eq!(eval("1 / 0.5"), scalar(2.));
    assert_eq!(eval("2 * 1 / 3"), scalar(2. * 1. / 3.));
}

#[test]
fn semanter_factorial() {
    assert_eq!(eval("5 !"), scalar(119.99999999999976));
}

#[test]
fn semanter_log() {
    assert_eq!(eval("log ( 100 )"), scalar(2.));
    assert_eq!(eval("log 100"), scalar(2.));
}

#[test]
fn semanter_ln() {
    assert_eq!(eval("ln ( 100 )"), scalar(4.605170185988092));
    assert_eq!(eval("ln 100"), scalar(4.605170185988092));
}

#[test]
fn semanter_sqrt() {
    assert_eq!(eval("sqrt ( 100 )"), scalar(10.));
    assert_eq!(eval("sqrt 100"), scalar(10.));
}

#[test]
fn order_of_operations() {
    assert_eq!(eval("2 * 3 + 1"), scalar(7.));
    assert_eq!(eval("1 + 2 * 3"), scalar(7.));
    assert_eq!(eval("1.0 + 1 - 2 * 10 / 0.5"), scalar(-38.));
}

#[test]
fn dimensional_arith() {
    assert_eq!(
        eval("1 m + 2 m"),
        Quantity {
            value: 3.,
            dimensions: Dimensions { length: 1., ..Default::default() },
            units: Units::SI(),
        },
    );
}

#[test]
fn a_sum_of_lengths_is_a_length_in_meters() {
    assert_eq!(
        calc("1m + 2m"),
        Ok(Quantity {
            value: 3.,
            dimensions: Dimensions { length: 1., ..Default::default() },
            units: Units { length: Length::meter, mass: Mass::kilogram, time: Time::second },
        })
    );
}

#[test]
fn subtraction_associates_to_the_left() {
    assert_eq!(
        evaluate("80 - 4 - 4"),
        Ok(vec![number("80"), number("4"), Instruction::Sub, number("4"), Instruction::Sub])
    );
    assert_eq!(
        evaluate("8 / 4 / 2"),
        Ok(vec![number("8"), number("4"), Instruction::Div, number("2"), Instruction::Div])
    );
}

#[test]
fn a_signed_literal_behind_an_expression_is_added() {
    assert_eq!(
        evaluate("80-4-4"),
        Ok(vec![number("80"), number("-4"), Instruction::Add, number("-4"), Instruction::Add])
    );
    assert_eq!(
        evaluate("80-4*2"),
        Ok(vec![number("80"), number("-4"), number("2"), Instruction::Mul, Instruction::Add])
    );
    assert_eq!(calc("80-4*2").unwrap(), scalar(72.));
}

#[test]
fn a_plain_number_is_its_own_program() {
    for text in ["0", "1", "3.25", "-7.5", "+2", "1e3", "2.5E-3", "5.", ".5", "inf", "-inf"] {
        assert_eq!(Calculator::new().parse(&vec![text.to_string()]), Ok(vec![number(text)]));
        assert_eq!(run(&[number(text)]), scalar(text.parse().unwrap()));
    }
}

#[test]
fn a_conversion_names_the_units_to_convert_to() {
    assert_eq!(
        evaluate("1 m -> km"),
        Ok(vec![
            number("1"),
            Instruction::Unit(UnitRef::Length(Length::meter)),
            Instruction::Measure,
            Instruction::Unit(UnitRef::Length(Length::kilometer)),
            Instruction::Convert,
        ])
    );
}

#[test]
fn an_exponent_behind_a_unit_belongs_to_the_unit() {
    assert_eq!(
        evaluate("2 m ^ 2"),
        Ok(vec![
            number("2"),
            Instruction::Unit(UnitRef::Length(Length::meter)),
            number("2"),
            Instruction::Pow,
            Instruction::Measure,
        ])
    );
    assert_eq!(
        evaluate("( 2 m ) ^ 2"),
        Ok(vec![
            number("2"),
            Instruction::Unit(UnitRef::Length(Length::meter)),
            Instruction::Measure,
            number("2"),
            Instruction::Pow,
        ])
    );
}

#[test]
fn unit_expressions_associate_to_the_left() {
    let m = Instruction::Unit(UnitRef::Length(Length::meter));
    let s = Instruction::Unit(UnitRef::Time(Time::second));
    assert_eq!(
        evaluate("1 m / s / s"),
        Ok(vec![number("1"), m.clone(), s.clone(), Instruction::Div, s.clone(), Instruction::Div, Instruction::Measure])
    );
    assert_eq!(
        evaluate("1 m s"),
        Ok(vec![number("1"), m, s, Instruction::Mul, Instruction::Measure])
    );
}

#[test]
fn squaring_an_acceleration_scales_its_dimension() {
    let q = calc("( 3 m / s ^ 2 ) ^ 2").unwrap();
    assert_eq!(q.value, 9.);
    assert_eq!(q.dimensions, Dimensions { length: 2., mass: 0., time: -4. });
}

#[test]
fn products_and_quotients_add_and_subtract_dimensions() {
    let q = calc("6 m * 2 kg / 3 s").unwrap();
    assert_eq!(q.dimensions, Dimensions { length: 1., mass: 1., time: -1. });
    assert_eq!(q.value, 4.);
}

#[test]
fn masses_convert_by_the_ratio_of_their_factors() {
    assert_eq!(conversion_factor(&Units::SI(), &Dimensions { length: 2., mass: 3., time: -1. }), 1.);
    let grams = calc("2 kg -> g").unwrap();
    assert!((grams.value - 2000.).abs() < 1e-9);
    assert_eq!(grams.units.mass, Mass::gram);
    let sum = calc("1 kg + 500 g").unwrap();
    assert!((sum.value - 1.5).abs() < 1e-12);
    assert_eq!(sum.units, Units::SI());
}

#[test]
fn converting_there_and_back_restores_the_value() {
    let there = calc("2500 m -> km").unwrap();
    assert_eq!(there.value, 2.5);
    let back = set_units(&there, &Units::SI());
    assert!((back.value - 2500.).abs() < 1e-9);
    assert_eq!(set_units(&back, &Units::SI()), back);
}

#[test]
fn a_sum_of_accelerations_in_other_units() {
    let expected = Quantity {
        value: 0.002,
        dimensions: Dimensions { length: 1., mass: 0., time: -2. },
        units: Units { length: Length::kilometer, ..Units::SI() },
    };
    assert_eq!(calc("1m/s^2 + 1m/s^2 -> km/s^2"), Ok(expected));
    assert_eq!(calc("1m/s^2+1m/s^2->km/s^2"), Ok(expected));
    assert_eq!(calc("1 m / s ^ 2 + 1 m / s ^ 2 -> km / s ^ 2"), Ok(expected));
}

#[test]
fn adding_quantities_of_different_dimension_is_refused() {
    let length = Dimensions { length: 1., ..Default::default() };
    let mass = Dimensions { mass: 1., ..Default::default() };
    assert_eq!(try_run(&evaluate("1 m + 1 kg").unwrap()), Err(DimensionError(length, mass)));
    assert_eq!(try_run(&evaluate("1 kg - 1 m").unwrap()), Err(DimensionError(mass, length)));
    assert_eq!(try_run(&evaluate("1 m % 1 s").unwrap()).is_err(), true);
    assert_eq!(try_run(&evaluate("1 m + 1").unwrap()), Err(DimensionError(length, Dimensions::default())));
    assert!(try_run(&evaluate("1 m * 1 kg").unwrap()).is_ok());
}

#[test]
fn functions_and_exponents_are_without_dimension() {
    let length = Dimensions { length: 1., ..Default::default() };
    let refused = Err(DimensionError(length, Dimensions::default()));
    assert_eq!(try_run(&evaluate("sqrt ( 4 m )").unwrap()), refused);
    assert_eq!(try_run(&evaluate("log ( 4 m )").unwrap()), refused);
    assert_eq!(try_run(&evaluate("ln ( 4 m )").unwrap()), refused);
    assert_eq!(try_run(&evaluate("( 4 m ) !").unwrap()), refused);
    assert_eq!(try_run(&evaluate("2 ^ ( 4 m )").unwrap()), refused);
    assert_eq!(try_run(&evaluate("( 4 m ) ^ 2").unwrap()).unwrap().value, 16.);
}

#[test]
fn addition_commutes_in_value_where_the_dimensions_match() {
    let a = calc("1 m + 2 km").unwrap();
    let b = set_units(&calc("2 km + 1 m").unwrap(), &Units::SI());
    assert_eq!(a.units, Units::SI());
    assert!((a.value - 2001.).abs() < 1e-9);
    assert!((a.value - b.value).abs() < 1e-9);
    assert_eq!(calc("7 % 4").unwrap(), scalar(3.));
}

#[test]
fn constants_functions_and_the_factorial() {
    assert_eq!(evaluate("e ^ -4"), Ok(vec![Instruction::E, number("-4"), Instruction::Pow]));
    assert_eq!(evaluate("2 * pi"), Ok(vec![number("2"), Instruction::Pi, Instruction::Mul]));
    assert_eq!(evaluate("- 3"), Ok(vec![number("3"), Instruction::Neg]));
    assert_eq!(evaluate("7 % 4"), Ok(vec![number("7"), number("4"), Instruction::Rem]));
    assert_eq!(evaluate("sqrt(4)!"), Ok(vec![number("4"), Instruction::Sqrt, Instruction::Factorial]));
    assert_eq!(evaluate("ln e"), Ok(vec![Instruction::E, Instruction::Ln]));
    assert_eq!(evaluate("log(10)"), Ok(vec![number("10"), Instruction::Log]));
    assert_eq!(evaluate("(2)(3)"), Ok(vec![number("2"), number("3"), Instruction::Mul]));
}

#[test]
fn an_unregistered_unit_is_a_syntax_error() {
    assert_eq!(evaluate("1 foo"), Err(SyntaxError { position: Some(1) }));
    assert_eq!(evaluate("1foo"), Err(SyntaxError { position: Some(1) }));
    assert_eq!(evaluate("3 kmx + 1"), Err(SyntaxError { position: Some(1) }));
    assert_eq!(evaluate("2 m + 1 parsec"), Err(SyntaxError { position: Some(4) }));
    assert_eq!(evaluate("1 & 2"), Err(SyntaxError { position: Some(1) }));
}

#[test]
fn a_word_that_is_a_number_behind_a_number_is_a_syntax_error() {
    for text in ["1 nan", "1nan", "1 inf", "2.5 infinity", "-3 NaN", "1 m nan", "( 1 ) inf", "pi nan", "3 ! inf"] {
        assert_eq!(evaluate(text), Err(SyntaxError { position: None }), "{}", text);
    }
    assert_eq!(evaluate("nan"), Ok(vec![number("nan")]));
    assert_eq!(evaluate("1 + inf"), Ok(vec![number("1"), number("inf"), Instruction::Add]));
}

#[test]
fn a_word_that_begins_with_i_behind_a_number_is_a_syntax_error() {
    assert_eq!(evaluate("2inch"), Err(SyntaxError { position: Some(1) }));
    assert_eq!(evaluate("2 inch"), Err(SyntaxError { position: Some(1) }));
    assert_eq!(evaluate("-2inch"), Err(SyntaxError { position: Some(1) }));
    assert_eq!(evaluate("1.5e3i"), Err(SyntaxError { position: Some(1) }));
    assert_eq!(evaluate("1 + 2i"), Err(SyntaxError { position: Some(3) }));
    assert_eq!(evaluate("2.5infinity"), Err(SyntaxError { position: None }));
    let inch = Registry::new().insert("inch", UnitRef::Length(Length::meter));
    assert_eq!(
        Calculator::with_registry(inch).evaluate("2inch"),
        Ok(vec![number("2"), Instruction::Unit(UnitRef::Length(Length::meter)), Instruction::Measure])
    );
}

#[test]
fn a_number_behind_a_word_is_a_token_of_its_own() {
    assert_eq!(evaluate("log2"), Ok(vec![number("2"), Instruction::Log]));
    assert_eq!(evaluate("sqrt16"), Ok(vec![number("16"), Instruction::Sqrt]));
    assert_eq!(evaluate("2 m2"), Err(SyntaxError { position: None }));
}

#[test]
fn a_text_of_known_tokens_that_is_no_sentence_has_no_position() {
    assert_eq!(evaluate(""), Err(SyntaxError { position: None }));
    assert_eq!(evaluate("1 +"), Err(SyntaxError { position: None }));
    assert_eq!(evaluate("m"), Err(SyntaxError { position: None }));
    assert_eq!(evaluate("( 1"), Err(SyntaxError { position: None }));
    assert_eq!(evaluate("1 2"), Err(SyntaxError { position: None }));
}

#[test]
fn a_calculator_over_few_units_knows_no_others() {
    let registry = Registry::new().insert("ft", UnitRef::Length(Length::meter));
    let calculator = Calculator::with_registry(registry);
    assert_eq!(
        calculator.evaluate("3ft"),
        Ok(vec![number("3"), Instruction::Unit(UnitRef::Length(Length::meter)), Instruction::Measure])
    );
    assert_eq!(calculator.evaluate("3 m"), Err(SyntaxError { position: Some(1) }));
    assert_eq!(calculator.registry().len(), 1);
}
