use larvae::registry::Registry;
use larvae::unit::{
    context_of, CompoundUnit, FamilyDimensions, Factor, Force, Length, Mass, Prefix, Scale, Time, Unit, UnitRef, Units,
};

fn is_compound<U: CompoundUnit>(_: &U) -> bool {
    true
}

#[test]
fn the_default_context_is_meter_kilogram_second() {
    let si = Units::SI();
    assert_eq!(si.length, Length::meter);
    assert_eq!(si.mass, Mass::kilogram);
    assert_eq!(si.time, Time::second);
    assert_eq!(Units::default(), si);
}

#[test]
fn contexts_that_differ_in_one_unit_are_distinct() {
    assert_ne!(Units { length: Length::kilometer, ..Units::SI() }, Units::SI());
    assert_ne!(Units { mass: Mass::gram, ..Units::SI() }, Units::SI());
}

#[test]
fn spellings_of_base_units() {
    assert_eq!(Length::meter.name(), "meter");
    assert_eq!(Length::meter.abbrev(), "m");
    assert_eq!(Length::meter.symbol(), "m");
    assert_eq!(Mass::gram.name(), "gram");
    assert_eq!(Time::second.abbrev(), "s");
    assert_eq!(Force::newton.symbol(), "N");
}

#[test]
fn spellings_of_prefixed_units() {
    assert_eq!(Length::kilometer.name(), "kilometer");
    assert_eq!(Length::kilometer.abbrev(), "km");
    assert_eq!(Length::kilometer.symbol(), "km");
    assert_eq!(Mass::kilogram.symbol(), "kg");
    assert_eq!(Time::millisecond.abbrev(), "ms");
    assert_eq!(Force::decanewton.abbrev(), "daN");
    assert_eq!(Length::micrometer.name(), "micrometer");
    assert_eq!(Length::micrometer.abbrev(), "um");
    assert_eq!(Length::micrometer.symbol(), "μm");
}

#[test]
fn spellings_of_further_units() {
    assert_eq!(Time::minute.name(), "minute");
    assert_eq!(Time::minute.abbrev(), "min");
    assert_eq!(Time::minute.symbol(), "min");
    assert_eq!(Time::hour.name(), "hour");
    assert_eq!(Time::hour.abbrev(), "h");
    assert_eq!(Time::hour.symbol(), "hr");
}

#[test]
fn conversion_factors() {
    assert_eq!(Length::meter.conversion_factor(), Factor { mantissa: 1, exponent: 0 });
    assert_eq!(Length::kilometer.conversion_factor(), Factor { mantissa: 1, exponent: 3 });
    assert_eq!(Mass::kilogram.conversion_factor(), Factor { mantissa: 1, exponent: 0 });
    assert_eq!(Mass::gram.conversion_factor(), Factor { mantissa: 1, exponent: -3 });
    assert_eq!(Mass::milligram.conversion_factor(), Factor { mantissa: 1, exponent: -6 });
    assert_eq!(Mass::yottagram.conversion_factor(), Factor { mantissa: 1, exponent: 21 });
    assert_eq!(Mass::yoctogram.conversion_factor(), Factor { mantissa: 1, exponent: -27 });
    assert_eq!(Time::yoctosecond.conversion_factor(), Factor { mantissa: 1, exponent: -24 });
    assert_eq!(Time::minute.conversion_factor(), Factor { mantissa: 60, exponent: 0 });
    assert_eq!(Time::hour.conversion_factor(), Factor { mantissa: 3600, exponent: 0 });
    assert_eq!(Force::micronewton.conversion_factor(), Factor { mantissa: 1, exponent: -6 });
}

#[test]
fn the_units_of_the_default_context_have_the_factor_one() {
    let one = Factor { mantissa: 1, exponent: 0 };
    let si = Units::SI();
    assert_eq!(si.length.conversion_factor(), one);
    assert_eq!(si.mass.conversion_factor(), one);
    assert_eq!(si.time.conversion_factor(), one);
    assert_eq!(Force::newton.conversion_factor(), one);
    assert_eq!(UnitRef::Mass(Mass::kilogram).conversion_factor(), one);
}

#[test]
fn dimensions_of_the_families() {
    assert_eq!(Length::kilometer.dimensions(), FamilyDimensions { length: 1, mass: 0, time: 0 });
    assert_eq!(Mass::gram.dimensions(), FamilyDimensions { length: 0, mass: 1, time: 0 });
    assert_eq!(Time::hour.dimensions(), FamilyDimensions { length: 0, mass: 0, time: 1 });
    assert_eq!(Force::newton.dimensions(), FamilyDimensions { length: 1, mass: 1, time: -2 });
    assert!(is_compound(&Force::kilonewton));
}

#[test]
fn prefixes() {
    assert_eq!(Prefix::kilo.power(), 3);
    assert_eq!(Prefix::micro.power(), -6);
    assert_eq!(Prefix::micro.name(), "micro");
    assert_eq!(Prefix::micro.abbrev(), "u");
    assert_eq!(Prefix::micro.symbol(), "μ");
    assert_eq!(Prefix::deca.abbrev(), "da");
    assert_eq!(Prefix::from_index(0), Some(Prefix::yotta));
    assert_eq!(Prefix::from_index(19), Some(Prefix::yocto));
    assert_eq!(Prefix::from_index(20), None);
}

#[test]
fn scales_and_units_determine_each_other() {
    assert_eq!(Length::kilometer.scale(), Scale::prefixed(Prefix::kilo));
    assert_eq!(Length::from_scale(Scale::prefixed(Prefix::kilo)), Some(Length::kilometer));
    assert_eq!(Length::from_scale(Scale::base), Some(Length::meter));
    assert_eq!(Length::from_scale(Scale::other(0)), None);
    assert_eq!(Time::from_scale(Scale::other(0)), Some(Time::minute));
    assert_eq!(Time::from_scale(Scale::other(1)), Some(Time::hour));
    assert_eq!(Time::from_scale(Scale::other(2)), None);
    assert_eq!(Time::hour.scale(), Scale::other(1));
}

#[test]
fn the_context_of_a_unit_has_the_unit_in_its_own_place() {
    assert_eq!(
        context_of(UnitRef::Length(Length::kilometer)),
        Units { length: Length::kilometer, mass: Mass::kilogram, time: Time::second }
    );
    assert_eq!(
        context_of(UnitRef::Mass(Mass::gram)),
        Units { length: Length::meter, mass: Mass::gram, time: Time::second }
    );
    assert_eq!(
        context_of(UnitRef::Time(Time::hour)),
        Units { length: Length::meter, mass: Mass::kilogram, time: Time::hour }
    );
    assert_eq!(context_of(UnitRef::Force(Force::kilonewton)), Units::SI());
}

#[test]
fn unit_references_answer_for_their_unit() {
    let u = UnitRef::Time(Time::hour);
    assert_eq!(u.name(), "hour");
    assert_eq!(u.symbol(), "hr");
    assert_eq!(u.conversion_factor(), Factor { mantissa: 3600, exponent: 0 });
    assert_eq!(u.dimensions(), FamilyDimensions { length: 0, mass: 0, time: 1 });
}

#[test]
fn the_registry_knows_every_spelling() {
    let registry = Registry::standard();
    assert_eq!(registry.len(), 177);
    assert_eq!(registry.lookup("m"), Some(UnitRef::Length(Length::meter)));
    assert_eq!(registry.lookup("meter"), Some(UnitRef::Length(Length::meter)));
    assert_eq!(registry.lookup("km"), Some(UnitRef::Length(Length::kilometer)));
    assert_eq!(registry.lookup("kilogram"), Some(UnitRef::Mass(Mass::kilogram)));
    assert_eq!(registry.lookup("um"), Some(UnitRef::Length(Length::micrometer)));
    assert_eq!(registry.lookup("μm"), Some(UnitRef::Length(Length::micrometer)));
    assert_eq!(registry.lookup("min"), Some(UnitRef::Time(Time::minute)));
    assert_eq!(registry.lookup("h"), Some(UnitRef::Time(Time::hour)));
    assert_eq!(registry.lookup("hr"), Some(UnitRef::Time(Time::hour)));
    assert_eq!(registry.lookup("N"), Some(UnitRef::Force(Force::newton)));
    assert_eq!(registry.lookup("yN"), Some(UnitRef::Force(Force::yoctonewton)));
    assert!(registry.is_unit("dag"));
    assert!(!registry.is_unit("foo"));
    assert!(!registry.is_unit(""));
    assert!(!registry.is_unit("M"));
    assert_eq!(registry.lookup("parsec"), None);
    assert_eq!(registry.lookup("Meter"), None);
}

#[test]
fn the_registry_keeps_the_longest_spellings_first() {
    let registry = Registry::standard();
    for i in 1..registry.len() {
        assert!(registry.key(i - 1).chars().count() >= registry.key(i).chars().count());
    }
    assert_eq!(registry.key(0).chars().count(), 11);
    for i in 0..registry.len() {
        assert_eq!(registry.lookup(registry.key(i)), Some(registry.unit(i)));
    }
}

#[test]
fn inserting_into_a_registry() {
    let meter = UnitRef::Length(Length::meter);
    let gram = UnitRef::Mass(Mass::gram);
    let registry = Registry::new()
        .insert("ab", meter)
        .insert("abcd", gram)
        .insert("a", meter)
        .insert("cd", gram)
        .insert("", gram)
        .insert("ab", gram);
    assert_eq!(registry.len(), 4);
    assert_eq!(registry.key(0), "abcd");
    assert_eq!(registry.key(1), "ab");
    assert_eq!(registry.key(2), "cd");
    assert_eq!(registry.key(3), "a");
    assert_eq!(registry.lookup("ab"), Some(meter));
    assert_eq!(registry.unit(2), gram);
    let copy = registry.clone();
    assert_eq!(copy.len(), 4);
    assert_eq!(copy.lookup("cd"), Some(gram));
}
