//! The unit catalog: the metric prefixes, the units of each family and the
//! unit context of a quantity.
//!
//! A family has one unit that the metric prefixes attach to, each scaling it
//! by a power of ten, and may have further units with a factor of their own.
//! The spellings of a prefixed unit are those of the prefix followed by
//! those of the unit it attaches to. Conversion factors count from the SI
//! base unit of the family, which for mass is not the unit that the prefixes
//! attach to but the kilogram.

use vstd::prelude::*;

verus! {

/// The metric prefixes, from the largest to the smallest.
#[allow(non_camel_case_types)]
#[derive(Debug, Clone, Copy, PartialEq, Eq, Structural)]
pub enum Prefix {
    yotta,
    zetta,
    exa,
    peta,
    tera,
    giga,
    mega,
    kilo,
    hecto,
    deca,
    deci,
    centi,
    milli,
    micro,
    nano,
    pico,
    femto,
    atto,
    zepto,
    yocto,
}

impl Prefix {
    /// The power of ten by which the prefix scales a unit.
    pub open spec fn spec_power(self) -> int {
        match self {
            Prefix::yotta => 24,
            Prefix::zetta => 21,
            Prefix::exa => 18,
            Prefix::peta => 15,
            Prefix::tera => 12,
            Prefix::giga => 9,
            Prefix::mega => 6,
            Prefix::kilo => 3,
            Prefix::hecto => 2,
            Prefix::deca => 1,
            Prefix::deci => -1,
            Prefix::centi => -2,
            Prefix::milli => -3,
            Prefix::micro => -6,
            Prefix::nano => -9,
            Prefix::pico => -12,
            Prefix::femto => -15,
            Prefix::atto => -18,
            Prefix::zepto => -21,
            Prefix::yocto => -24,
        }
    }

    /// The prefix as it is written in a unit's name.
    pub open spec fn spec_name(self) -> Seq<char> {
        match self {
            Prefix::yotta => "yotta"@,
            Prefix::zetta => "zetta"@,
            Prefix::exa => "exa"@,
            Prefix::peta => "peta"@,
            Prefix::tera => "tera"@,
            Prefix::giga => "giga"@,
            Prefix::mega => "mega"@,
            Prefix::kilo => "kilo"@,
            Prefix::hecto => "hecto"@,
            Prefix::deca => "deca"@,
            Prefix::deci => "deci"@,
            Prefix::centi => "centi"@,
            Prefix::milli => "milli"@,
            Prefix::micro => "micro"@,
            Prefix::nano => "nano"@,
            Prefix::pico => "pico"@,
            Prefix::femto => "femto"@,
            Prefix::atto => "atto"@,
            Prefix::zepto => "zepto"@,
            Prefix::yocto => "yocto"@,
        }
    }

    /// The prefix as it is written in a unit's abbreviation.
    pub open spec fn spec_abbrev(self) -> Seq<char> {
        match self {
            Prefix::yotta => "Y"@,
            Prefix::zetta => "Z"@,
            Prefix::exa => "E"@,
            Prefix::peta => "P"@,
            Prefix::tera => "T"@,
            Prefix::giga => "G"@,
            Prefix::mega => "M"@,
            Prefix::kilo => "k"@,
            Prefix::hecto => "h"@,
            Prefix::deca => "da"@,
            Prefix::deci => "d"@,
            Prefix::centi => "c"@,
            Prefix::milli => "m"@,
            Prefix::micro => "u"@,
            Prefix::nano => "n"@,
            Prefix::pico => "p"@,
            Prefix::femto => "f"@,
            Prefix::atto => "a"@,
            Prefix::zepto => "z"@,
            Prefix::yocto => "y"@,
        }
    }

    /// The prefix as it is written in a unit's display symbol.
    pub open spec fn spec_symbol(self) -> Seq<char> {
        match self {
            Prefix::yotta => "Y"@,
            Prefix::zetta => "Z"@,
            Prefix::exa => "E"@,
            Prefix::peta => "P"@,
            Prefix::tera => "T"@,
            Prefix::giga => "G"@,
            Prefix::mega => "M"@,
            Prefix::kilo => "k"@,
            Prefix::hecto => "h"@,
            Prefix::deca => "da"@,
            Prefix::deci => "d"@,
            Prefix::centi => "c"@,
            Prefix::milli => "m"@,
            Prefix::micro => "μ"@,
            Prefix::nano => "n"@,
            Prefix::pico => "p"@,
            Prefix::femto => "f"@,
            Prefix::atto => "a"@,
            Prefix::zepto => "z"@,
            Prefix::yocto => "y"@,
        }
    }

    /// The position of the prefix in the list of prefixes.
    pub open spec fn spec_index(self) -> int {
        match self {
            Prefix::yotta => 0,
            Prefix::zetta => 1,
            Prefix::exa => 2,
            Prefix::peta => 3,
            Prefix::tera => 4,
            Prefix::giga => 5,
            Prefix::mega => 6,
            Prefix::kilo => 7,
            Prefix::hecto => 8,
            Prefix::deca => 9,
            Prefix::deci => 10,
            Prefix::centi => 11,
            Prefix::milli => 12,
            Prefix::micro => 13,
            Prefix::nano => 14,
            Prefix::pico => 15,
            Prefix::femto => 16,
            Prefix::atto => 17,
            Prefix::zepto => 18,
            Prefix::yocto => 19,
        }
    }

    pub fn power(self) -> (r: i8)
        ensures
            r == self.spec_power(),
    {
        match self {
            Prefix::yotta => 24,
            Prefix::zetta => 21,
            Prefix::exa => 18,
            Prefix::peta => 15,
            Prefix::tera => 12,
            Prefix::giga => 9,
            Prefix::mega => 6,
            Prefix::kilo => 3,
            Prefix::hecto => 2,
            Prefix::deca => 1,
            Prefix::deci => -1,
            Prefix::centi => -2,
            Prefix::milli => -3,
            Prefix::micro => -6,
            Prefix::nano => -9,
            Prefix::pico => -12,
            Prefix::femto => -15,
            Prefix::atto => -18,
            Prefix::zepto => -21,
            Prefix::yocto => -24,
        }
    }

    pub fn name(self) -> (r: &'static str)
        ensures
            r@ == self.spec_name(),
    {
        match self {
            Prefix::yotta => "yotta",
            Prefix::zetta => "zetta",
            Prefix::exa => "exa",
            Prefix::peta => "peta",
            Prefix::tera => "tera",
            Prefix::giga => "giga",
            Prefix::mega => "mega",
            Prefix::kilo => "kilo",
            Prefix::hecto => "hecto",
            Prefix::deca => "deca",
            Prefix::deci => "deci",
            Prefix::centi => "centi",
            Prefix::milli => "milli",
            Prefix::micro => "micro",
            Prefix::nano => "nano",
            Prefix::pico => "pico",
            Prefix::femto => "femto",
            Prefix::atto => "atto",
            Prefix::zepto => "zepto",
            Prefix::yocto => "yocto",
        }
    }

    pub fn abbrev(self) -> (r: &'static str)
        ensures
            r@ == self.spec_abbrev(),
    {
        match self {
            Prefix::yotta => "Y",
            Prefix::zetta => "Z",
            Prefix::exa => "E",
            Prefix::peta => "P",
            Prefix::tera => "T",
            Prefix::giga => "G",
            Prefix::mega => "M",
            Prefix::kilo => "k",
            Prefix::hecto => "h",
            Prefix::deca => "da",
            Prefix::deci => "d",
            Prefix::centi => "c",
            Prefix::milli => "m",
            Prefix::micro => "u",
            Prefix::nano => "n",
            Prefix::pico => "p",
            Prefix::femto => "f",
            Prefix::atto => "a",
            Prefix::zepto => "z",
            Prefix::yocto => "y",
        }
    }

    pub fn symbol(self) -> (r: &'static str)
        ensures
            r@ == self.spec_symbol(),
    {
        match self {
            Prefix::yotta => "Y",
            Prefix::zetta => "Z",
            Prefix::exa => "E",
            Prefix::peta => "P",
            Prefix::tera => "T",
            Prefix::giga => "G",
            Prefix::mega => "M",
            Prefix::kilo => "k",
            Prefix::hecto => "h",
            Prefix::deca => "da",
            Prefix::deci => "d",
            Prefix::centi => "c",
            Prefix::milli => "m",
            Prefix::micro => "μ",
            Prefix::nano => "n",
            Prefix::pico => "p",
            Prefix::femto => "f",
            Prefix::atto => "a",
            Prefix::zepto => "z",
            Prefix::yocto => "y",
        }
    }

    /// The number of metric prefixes.
    pub const COUNT: usize = 20;

    /// The prefix at a position of the list, which runs from the largest
    /// prefix to the smallest.
    pub fn from_index(i: usize) -> (r: Option<Prefix>)
        ensures
            i < Prefix::COUNT ==> (r matches Some(p) && p.spec_index() == i),
            i >= Prefix::COUNT ==> r is None,
    {
        match i {
            0 => Some(Prefix::yotta),
            1 => Some(Prefix::zetta),
            2 => Some(Prefix::exa),
            3 => Some(Prefix::peta),
            4 => Some(Prefix::tera),
            5 => Some(Prefix::giga),
            6 => Some(Prefix::mega),
            7 => Some(Prefix::kilo),
            8 => Some(Prefix::hecto),
            9 => Some(Prefix::deca),
            10 => Some(Prefix::deci),
            11 => Some(Prefix::centi),
            12 => Some(Prefix::milli),
            13 => Some(Prefix::micro),
            14 => Some(Prefix::nano),
            15 => Some(Prefix::pico),
            16 => Some(Prefix::femto),
            17 => Some(Prefix::atto),
            18 => Some(Prefix::zepto),
            19 => Some(Prefix::yocto),
            _ => None,
        }
    }
}

/// A conversion factor as an exact decimal, `mantissa` times ten to the
/// power `exponent`: how many of the SI base unit of its family one of a
/// unit is. The SI base units are the meter, the kilogram and the second, and
/// the newton is the unit of force that is made of them; each has the factor
/// one.
#[derive(Debug, Clone, Copy, PartialEq, Eq, Structural)]
pub struct Factor {
    pub mantissa: u32,
    pub exponent: i8,
}

/// The exponents of length, mass and time that characterise the units of one
/// family. They are whole numbers; the exponents of a computed quantity need
/// not be, and are kept where the quantity is computed.
#[derive(Debug, Clone, Copy, PartialEq, Eq, Structural)]
pub struct FamilyDimensions {
    pub length: i8,
    pub mass: i8,
    pub time: i8,
}

/// How a unit of any family is marked: by a metric prefix of the family's
/// base unit, or as one of the family's further units.
#[allow(non_camel_case_types)]
#[derive(Debug, Clone, Copy, PartialEq, Eq, Structural)]
pub enum Scale {
    /// The unit that the metric prefixes attach to.
    base,
    /// That unit under a metric prefix.
    prefixed(Prefix),
    /// A further unit, by its position among the family's further units.
    other(u8),
}

/// What every unit of the catalog offers.
pub trait Unit: Sized {
    /// How the unit is marked within its family.
    spec fn spec_scale(&self) -> Scale;

    spec fn spec_name(&self) -> Seq<char>;

    spec fn spec_abbrev(&self) -> Seq<char>;

    spec fn spec_symbol(&self) -> Seq<char>;

    spec fn spec_conversion_factor(&self) -> Factor;

    spec fn spec_dimensions(&self) -> FamilyDimensions;

    /// How many of the SI base unit of its family one of this unit is.
    fn conversion_factor(&self) -> (r: Factor)
        ensures
            r == self.spec_conversion_factor(),
    ;

    /// The short spelling of the unit.
    fn abbrev(&self) -> (r: String)
        ensures
            r@ == self.spec_abbrev(),
    ;

    /// The canonical name of the unit.
    fn name(&self) -> (r: String)
        ensures
            r@ == self.spec_name(),
    ;

    /// The spelling of the unit in a rendered quantity.
    fn symbol(&self) -> (r: String)
        ensures
            r@ == self.spec_symbol(),
    ;

    /// The exponents of length, mass and time of the unit's family.
    fn dimensions(&self) -> (r: FamilyDimensions)
        ensures
            r == self.spec_dimensions(),
    ;
}

/// A unit that stands for a product of powers of base units.
pub trait CompoundUnit: Unit {
}

/// The spelling of a unit from the spelling of its prefix and of its base.
fn spell(prefix: &str, base: &str) -> (r: String)
    ensures
        r@ == prefix@ + base@,
{
    String::from_str(prefix).concat(base)
}

/// The units of length.
#[allow(non_camel_case_types)]
#[derive(Debug, Clone, Copy, PartialEq, Eq, Structural)]
pub enum Length {
    meter,
    yottameter,
    zettameter,
    exameter,
    petameter,
    terameter,
    gigameter,
    megameter,
    kilometer,
    hectometer,
    decameter,
    decimeter,
    centimeter,
    millimeter,
    micrometer,
    nanometer,
    picometer,
    femtometer,
    attometer,
    zeptometer,
    yoctometer,
}

impl Length {
    /// The unit of this family with the given mark, where there is one.
    pub fn from_scale(scale: Scale) -> (r: Option<Length>)
        ensures
            r matches Some(u) ==> u.spec_scale() == scale,
            r is None ==> forall|u: Length| u.spec_scale() != scale,
    {
        match scale {
            Scale::base => Some(Length::meter),
            Scale::prefixed(Prefix::yotta) => Some(Length::yottameter),
            Scale::prefixed(Prefix::zetta) => Some(Length::zettameter),
            Scale::prefixed(Prefix::exa) => Some(Length::exameter),
            Scale::prefixed(Prefix::peta) => Some(Length::petameter),
            Scale::prefixed(Prefix::tera) => Some(Length::terameter),
            Scale::prefixed(Prefix::giga) => Some(Length::gigameter),
            Scale::prefixed(Prefix::mega) => Some(Length::megameter),
            Scale::prefixed(Prefix::kilo) => Some(Length::kilometer),
            Scale::prefixed(Prefix::hecto) => Some(Length::hectometer),
            Scale::prefixed(Prefix::deca) => Some(Length::decameter),
            Scale::prefixed(Prefix::deci) => Some(Length::decimeter),
            Scale::prefixed(Prefix::centi) => Some(Length::centimeter),
            Scale::prefixed(Prefix::milli) => Some(Length::millimeter),
            Scale::prefixed(Prefix::micro) => Some(Length::micrometer),
            Scale::prefixed(Prefix::nano) => Some(Length::nanometer),
            Scale::prefixed(Prefix::pico) => Some(Length::picometer),
            Scale::prefixed(Prefix::femto) => Some(Length::femtometer),
            Scale::prefixed(Prefix::atto) => Some(Length::attometer),
            Scale::prefixed(Prefix::zepto) => Some(Length::zeptometer),
            Scale::prefixed(Prefix::yocto) => Some(Length::yoctometer),
            Scale::other(_) => None,
        }
    }

    /// How this unit is marked within its family.
    pub fn scale(&self) -> (r: Scale)
        ensures
            r == self.spec_scale(),
    {
        match self {
            Length::meter => Scale::base,
            Length::yottameter => Scale::prefixed(Prefix::yotta),
            Length::zettameter => Scale::prefixed(Prefix::zetta),
            Length::exameter => Scale::prefixed(Prefix::exa),
            Length::petameter => Scale::prefixed(Prefix::peta),
            Length::terameter => Scale::prefixed(Prefix::tera),
            Length::gigameter => Scale::prefixed(Prefix::giga),
            Length::megameter => Scale::prefixed(Prefix::mega),
            Length::kilometer => Scale::prefixed(Prefix::kilo),
            Length::hectometer => Scale::prefixed(Prefix::hecto),
            Length::decameter => Scale::prefixed(Prefix::deca),
            Length::decimeter => Scale::prefixed(Prefix::deci),
            Length::centimeter => Scale::prefixed(Prefix::centi),
            Length::millimeter => Scale::prefixed(Prefix::milli),
            Length::micrometer => Scale::prefixed(Prefix::micro),
            Length::nanometer => Scale::prefixed(Prefix::nano),
            Length::picometer => Scale::prefixed(Prefix::pico),
            Length::femtometer => Scale::prefixed(Prefix::femto),
            Length::attometer => Scale::prefixed(Prefix::atto),
            Length::zeptometer => Scale::prefixed(Prefix::zepto),
            Length::yoctometer => Scale::prefixed(Prefix::yocto),
        }
    }
}

impl Unit for Length {
    open spec fn spec_scale(&self) -> Scale {
        match self {
            Length::meter => Scale::base,
            Length::yottameter => Scale::prefixed(Prefix::yotta),
            Length::zettameter => Scale::prefixed(Prefix::zetta),
            Length::exameter => Scale::prefixed(Prefix::exa),
            Length::petameter => Scale::prefixed(Prefix::peta),
            Length::terameter => Scale::prefixed(Prefix::tera),
            Length::gigameter => Scale::prefixed(Prefix::giga),
            Length::megameter => Scale::prefixed(Prefix::mega),
            Length::kilometer => Scale::prefixed(Prefix::kilo),
            Length::hectometer => Scale::prefixed(Prefix::hecto),
            Length::decameter => Scale::prefixed(Prefix::deca),
            Length::decimeter => Scale::prefixed(Prefix::deci),
            Length::centimeter => Scale::prefixed(Prefix::centi),
            Length::millimeter => Scale::prefixed(Prefix::milli),
            Length::micrometer => Scale::prefixed(Prefix::micro),
            Length::nanometer => Scale::prefixed(Prefix::nano),
            Length::picometer => Scale::prefixed(Prefix::pico),
            Length::femtometer => Scale::prefixed(Prefix::femto),
            Length::attometer => Scale::prefixed(Prefix::atto),
            Length::zeptometer => Scale::prefixed(Prefix::zepto),
            Length::yoctometer => Scale::prefixed(Prefix::yocto),
        }
    }

    open spec fn spec_name(&self) -> Seq<char> {
        match self.spec_scale() {
            Scale::base => "meter"@,
            Scale::prefixed(p) => p.spec_name() + "meter"@,
            Scale::other(_) => "meter"@,
        }
    }

    open spec fn spec_abbrev(&self) -> Seq<char> {
        match self.spec_scale() {
            Scale::base => "m"@,
            Scale::prefixed(p) => p.spec_abbrev() + "m"@,
            Scale::other(_) => "m"@,
        }
    }

    open spec fn spec_symbol(&self) -> Seq<char> {
        match self.spec_scale() {
            Scale::base => "m"@,
            Scale::prefixed(p) => p.spec_symbol() + "m"@,
            Scale::other(_) => "m"@,
        }
    }

    open spec fn spec_conversion_factor(&self) -> Factor {
        match self.spec_scale() {
            Scale::base => (Factor { mantissa: 1, exponent: 0 }),
            Scale::prefixed(p) => (Factor { mantissa: 1, exponent: p.spec_power() as i8 }),
            Scale::other(_) => (Factor { mantissa: 1, exponent: 0 }),
        }
    }

    open spec fn spec_dimensions(&self) -> FamilyDimensions {
        FamilyDimensions { length: 1i8, mass: 0i8, time: 0i8 }
    }

    fn conversion_factor(&self) -> (r: Factor) {
        match self.scale() {
            Scale::base => Factor { mantissa: 1, exponent: 0 },
            Scale::prefixed(p) => Factor { mantissa: 1, exponent: p.power() },
            Scale::other(_) => Factor { mantissa: 1, exponent: 0 },
        }
    }

    fn abbrev(&self) -> (r: String) {
        match self.scale() {
            Scale::base => String::from_str("m"),
            Scale::prefixed(p) => spell(p.abbrev(), "m"),
            Scale::other(_) => String::from_str("m"),
        }
    }

    fn name(&self) -> (r: String) {
        match self.scale() {
            Scale::base => String::from_str("meter"),
            Scale::prefixed(p) => spell(p.name(), "meter"),
            Scale::other(_) => String::from_str("meter"),
        }
    }

    fn symbol(&self) -> (r: String) {
        match self.scale() {
            Scale::base => String::from_str("m"),
            Scale::prefixed(p) => spell(p.symbol(), "m"),
            Scale::other(_) => String::from_str("m"),
        }
    }

    fn dimensions(&self) -> (r: FamilyDimensions) {
        FamilyDimensions { length: 1, mass: 0, time: 0 }
    }
}

/// The units of mass.
#[allow(non_camel_case_types)]
#[derive(Debug, Clone, Copy, PartialEq, Eq, Structural)]
pub enum Mass {
    gram,
    yottagram,
    zettagram,
    exagram,
    petagram,
    teragram,
    gigagram,
    megagram,
    kilogram,
    hectogram,
    decagram,
    decigram,
    centigram,
    milligram,
    microgram,
    nanogram,
    picogram,
    femtogram,
    attogram,
    zeptogram,
    yoctogram,
}

impl Mass {
    /// The unit of this family with the given mark, where there is one.
    pub fn from_scale(scale: Scale) -> (r: Option<Mass>)
        ensures
            r matches Some(u) ==> u.spec_scale() == scale,
            r is None ==> forall|u: Mass| u.spec_scale() != scale,
    {
        match scale {
            Scale::base => Some(Mass::gram),
            Scale::prefixed(Prefix::yotta) => Some(Mass::yottagram),
            Scale::prefixed(Prefix::zetta) => Some(Mass::zettagram),
            Scale::prefixed(Prefix::exa) => Some(Mass::exagram),
            Scale::prefixed(Prefix::peta) => Some(Mass::petagram),
            Scale::prefixed(Prefix::tera) => Some(Mass::teragram),
            Scale::prefixed(Prefix::giga) => Some(Mass::gigagram),
            Scale::prefixed(Prefix::mega) => Some(Mass::megagram),
            Scale::prefixed(Prefix::kilo) => Some(Mass::kilogram),
            Scale::prefixed(Prefix::hecto) => Some(Mass::hectogram),
            Scale::prefixed(Prefix::deca) => Some(Mass::decagram),
            Scale::prefixed(Prefix::deci) => Some(Mass::decigram),
            Scale::prefixed(Prefix::centi) => Some(Mass::centigram),
            Scale::prefixed(Prefix::milli) => Some(Mass::milligram),
            Scale::prefixed(Prefix::micro) => Some(Mass::microgram),
            Scale::prefixed(Prefix::nano) => Some(Mass::nanogram),
            Scale::prefixed(Prefix::pico) => Some(Mass::picogram),
            Scale::prefixed(Prefix::femto) => Some(Mass::femtogram),
            Scale::prefixed(Prefix::atto) => Some(Mass::attogram),
            Scale::prefixed(Prefix::zepto) => Some(Mass::zeptogram),
            Scale::prefixed(Prefix::yocto) => Some(Mass::yoctogram),
            Scale::other(_) => None,
        }
    }

    /// How this unit is marked within its family.
    pub fn scale(&self) -> (r: Scale)
        ensures
            r == self.spec_scale(),
    {
        match self {
            Mass::gram => Scale::base,
            Mass::yottagram => Scale::prefixed(Prefix::yotta),
            Mass::zettagram => Scale::prefixed(Prefix::zetta),
            Mass::exagram => Scale::prefixed(Prefix::exa),
            Mass::petagram => Scale::prefixed(Prefix::peta),
            Mass::teragram => Scale::prefixed(Prefix::tera),
            Mass::gigagram => Scale::prefixed(Prefix::giga),
            Mass::megagram => Scale::prefixed(Prefix::mega),
            Mass::kilogram => Scale::prefixed(Prefix::kilo),
            Mass::hectogram => Scale::prefixed(Prefix::hecto),
            Mass::decagram => Scale::prefixed(Prefix::deca),
            Mass::decigram => Scale::prefixed(Prefix::deci),
            Mass::centigram => Scale::prefixed(Prefix::centi),
            Mass::milligram => Scale::prefixed(Prefix::milli),
            Mass::microgram => Scale::prefixed(Prefix::micro),
            Mass::nanogram => Scale::prefixed(Prefix::nano),
            Mass::picogram => Scale::prefixed(Prefix::pico),
            Mass::femtogram => Scale::prefixed(Prefix::femto),
            Mass::attogram => Scale::prefixed(Prefix::atto),
            Mass::zeptogram => Scale::prefixed(Prefix::zepto),
            Mass::yoctogram => Scale::prefixed(Prefix::yocto),
        }
    }
}

impl Unit for Mass {
    open spec fn spec_scale(&self) -> Scale {
        match self {
            Mass::gram => Scale::base,
            Mass::yottagram => Scale::prefixed(Prefix::yotta),
            Mass::zettagram => Scale::prefixed(Prefix::zetta),
            Mass::exagram => Scale::prefixed(Prefix::exa),
            Mass::petagram => Scale::prefixed(Prefix::peta),
            Mass::teragram => Scale::prefixed(Prefix::tera),
            Mass::gigagram => Scale::prefixed(Prefix::giga),
            Mass::megagram => Scale::prefixed(Prefix::mega),
            Mass::kilogram => Scale::prefixed(Prefix::kilo),
            Mass::hectogram => Scale::prefixed(Prefix::hecto),
            Mass::decagram => Scale::prefixed(Prefix::deca),
            Mass::decigram => Scale::prefixed(Prefix::deci),
            Mass::centigram => Scale::prefixed(Prefix::centi),
            Mass::milligram => Scale::prefixed(Prefix::milli),
            Mass::microgram => Scale::prefixed(Prefix::micro),
            Mass::nanogram => Scale::prefixed(Prefix::nano),
            Mass::picogram => Scale::prefixed(Prefix::pico),
            Mass::femtogram => Scale::prefixed(Prefix::femto),
            Mass::attogram => Scale::prefixed(Prefix::atto),
            Mass::zeptogram => Scale::prefixed(Prefix::zepto),
            Mass::yoctogram => Scale::prefixed(Prefix::yocto),
        }
    }

    open spec fn spec_name(&self) -> Seq<char> {
        match self.spec_scale() {
            Scale::base => "gram"@,
            Scale::prefixed(p) => p.spec_name() + "gram"@,
            Scale::other(_) => "gram"@,
        }
    }

    open spec fn spec_abbrev(&self) -> Seq<char> {
        match self.spec_scale() {
            Scale::base => "g"@,
            Scale::prefixed(p) => p.spec_abbrev() + "g"@,
            Scale::other(_) => "g"@,
        }
    }

    open spec fn spec_symbol(&self) -> Seq<char> {
        match self.spec_scale() {
            Scale::base => "g"@,
            Scale::prefixed(p) => p.spec_symbol() + "g"@,
            Scale::other(_) => "g"@,
        }
    }

    open spec fn spec_conversion_factor(&self) -> Factor {
        match self.spec_scale() {
            Scale::base => (Factor { mantissa: 1, exponent: (-3i8) }),
            Scale::prefixed(p) => (Factor { mantissa: 1, exponent: (p.spec_power() - 3) as i8 }),
            Scale::other(_) => (Factor { mantissa: 1, exponent: 0 }),
        }
    }

    open spec fn spec_dimensions(&self) -> FamilyDimensions {
        FamilyDimensions { length: 0i8, mass: 1i8, time: 0i8 }
    }

    fn conversion_factor(&self) -> (r: Factor) {
        match self.scale() {
            Scale::base => Factor { mantissa: 1, exponent: -3 },
            Scale::prefixed(p) => Factor { mantissa: 1, exponent: p.power() - 3 },
            Scale::other(_) => Factor { mantissa: 1, exponent: 0 },
        }
    }

    fn abbrev(&self) -> (r: String) {
        match self.scale() {
            Scale::base => String::from_str("g"),
            Scale::prefixed(p) => spell(p.abbrev(), "g"),
            Scale::other(_) => String::from_str("g"),
        }
    }

    fn name(&self) -> (r: String) {
        match self.scale() {
            Scale::base => String::from_str("gram"),
            Scale::prefixed(p) => spell(p.name(), "gram"),
            Scale::other(_) => String::from_str("gram"),
        }
    }

    fn symbol(&self) -> (r: String) {
        match self.scale() {
            Scale::base => String::from_str("g"),
            Scale::prefixed(p) => spell(p.symbol(), "g"),
            Scale::other(_) => String::from_str("g"),
        }
    }

    fn dimensions(&self) -> (r: FamilyDimensions) {
        FamilyDimensions { length: 0, mass: 1, time: 0 }
    }
}

/// The units of time.
#[allow(non_camel_case_types)]
#[derive(Debug, Clone, Copy, PartialEq, Eq, Structural)]
pub enum Time {
    second,
    yottasecond,
    zettasecond,
    exasecond,
    petasecond,
    terasecond,
    gigasecond,
    megasecond,
    kilosecond,
    hectosecond,
    decasecond,
    decisecond,
    centisecond,
    millisecond,
    microsecond,
    nanosecond,
    picosecond,
    femtosecond,
    attosecond,
    zeptosecond,
    yoctosecond,
    minute,
    hour,
}

impl Time {
    /// The unit of this family with the given mark, where there is one.
    pub fn from_scale(scale: Scale) -> (r: Option<Time>)
        ensures
            r matches Some(u) ==> u.spec_scale() == scale,
            r is None ==> forall|u: Time| u.spec_scale() != scale,
    {
        match scale {
            Scale::base => Some(Time::second),
            Scale::prefixed(Prefix::yotta) => Some(Time::yottasecond),
            Scale::prefixed(Prefix::zetta) => Some(Time::zettasecond),
            Scale::prefixed(Prefix::exa) => Some(Time::exasecond),
            Scale::prefixed(Prefix::peta) => Some(Time::petasecond),
            Scale::prefixed(Prefix::tera) => Some(Time::terasecond),
            Scale::prefixed(Prefix::giga) => Some(Time::gigasecond),
            Scale::prefixed(Prefix::mega) => Some(Time::megasecond),
            Scale::prefixed(Prefix::kilo) => Some(Time::kilosecond),
            Scale::prefixed(Prefix::hecto) => Some(Time::hectosecond),
            Scale::prefixed(Prefix::deca) => Some(Time::decasecond),
            Scale::prefixed(Prefix::deci) => Some(Time::decisecond),
            Scale::prefixed(Prefix::centi) => Some(Time::centisecond),
            Scale::prefixed(Prefix::milli) => Some(Time::millisecond),
            Scale::prefixed(Prefix::micro) => Some(Time::microsecond),
            Scale::prefixed(Prefix::nano) => Some(Time::nanosecond),
            Scale::prefixed(Prefix::pico) => Some(Time::picosecond),
            Scale::prefixed(Prefix::femto) => Some(Time::femtosecond),
            Scale::prefixed(Prefix::atto) => Some(Time::attosecond),
            Scale::prefixed(Prefix::zepto) => Some(Time::zeptosecond),
            Scale::prefixed(Prefix::yocto) => Some(Time::yoctosecond),
            Scale::other(0) => Some(Time::minute),
            Scale::other(1) => Some(Time::hour),
            Scale::other(_) => None,
        }
    }

    /// How this unit is marked within its family.
    pub fn scale(&self) -> (r: Scale)
        ensures
            r == self.spec_scale(),
    {
        match self {
            Time::second => Scale::base,
            Time::yottasecond => Scale::prefixed(Prefix::yotta),
            Time::zettasecond => Scale::prefixed(Prefix::zetta),
            Time::exasecond => Scale::prefixed(Prefix::exa),
            Time::petasecond => Scale::prefixed(Prefix::peta),
            Time::terasecond => Scale::prefixed(Prefix::tera),
            Time::gigasecond => Scale::prefixed(Prefix::giga),
            Time::megasecond => Scale::prefixed(Prefix::mega),
            Time::kilosecond => Scale::prefixed(Prefix::kilo),
            Time::hectosecond => Scale::prefixed(Prefix::hecto),
            Time::decasecond => Scale::prefixed(Prefix::deca),
            Time::decisecond => Scale::prefixed(Prefix::deci),
            Time::centisecond => Scale::prefixed(Prefix::centi),
            Time::millisecond => Scale::prefixed(Prefix::milli),
            Time::microsecond => Scale::prefixed(Prefix::micro),
            Time::nanosecond => Scale::prefixed(Prefix::nano),
            Time::picosecond => Scale::prefixed(Prefix::pico),
            Time::femtosecond => Scale::prefixed(Prefix::femto),
            Time::attosecond => Scale::prefixed(Prefix::atto),
            Time::zeptosecond => Scale::prefixed(Prefix::zepto),
            Time::yoctosecond => Scale::prefixed(Prefix::yocto),
            Time::minute => Scale::other(0),
            Time::hour => Scale::other(1),
        }
    }
}

impl Unit for Time {
    open spec fn spec_scale(&self) -> Scale {
        match self {
            Time::second => Scale::base,
            Time::yottasecond => Scale::prefixed(Prefix::yotta),
            Time::zettasecond => Scale::prefixed(Prefix::zetta),
            Time::exasecond => Scale::prefixed(Prefix::exa),
            Time::petasecond => Scale::prefixed(Prefix::peta),
            Time::terasecond => Scale::prefixed(Prefix::tera),
            Time::gigasecond => Scale::prefixed(Prefix::giga),
            Time::megasecond => Scale::prefixed(Prefix::mega),
            Time::kilosecond => Scale::prefixed(Prefix::kilo),
            Time::hectosecond => Scale::prefixed(Prefix::hecto),
            Time::decasecond => Scale::prefixed(Prefix::deca),
            Time::decisecond => Scale::prefixed(Prefix::deci),
            Time::centisecond => Scale::prefixed(Prefix::centi),
            Time::millisecond => Scale::prefixed(Prefix::milli),
            Time::microsecond => Scale::prefixed(Prefix::micro),
            Time::nanosecond => Scale::prefixed(Prefix::nano),
            Time::picosecond => Scale::prefixed(Prefix::pico),
            Time::femtosecond => Scale::prefixed(Prefix::femto),
            Time::attosecond => Scale::prefixed(Prefix::atto),
            Time::zeptosecond => Scale::prefixed(Prefix::zepto),
            Time::yoctosecond => Scale::prefixed(Prefix::yocto),
            Time::minute => Scale::other(0),
            Time::hour => Scale::other(1),
        }
    }

    open spec fn spec_name(&self) -> Seq<char> {
        match self.spec_scale() {
            Scale::base => "second"@,
            Scale::prefixed(p) => p.spec_name() + "second"@,
            Scale::other(0) => "minute"@,
            Scale::other(_) => "hour"@,
        }
    }

    open spec fn spec_abbrev(&self) -> Seq<char> {
        match self.spec_scale() {
            Scale::base => "s"@,
            Scale::prefixed(p) => p.spec_abbrev() + "s"@,
            Scale::other(0) => "min"@,
            Scale::other(_) => "h"@,
        }
    }

    open spec fn spec_symbol(&self) -> Seq<char> {
        match self.spec_scale() {
            Scale::base => "s"@,
            Scale::prefixed(p) => p.spec_symbol() + "s"@,
            Scale::other(0) => "min"@,
            Scale::other(_) => "hr"@,
        }
    }

    open spec fn spec_conversion_factor(&self) -> Factor {
        match self.spec_scale() {
            Scale::base => (Factor { mantissa: 1, exponent: 0 }),
            Scale::prefixed(p) => (Factor { mantissa: 1, exponent: p.spec_power() as i8 }),
            Scale::other(0) => (Factor { mantissa: 60, exponent: 0 }),
            Scale::other(_) => (Factor { mantissa: 3600, exponent: 0 }),
        }
    }

    open spec fn spec_dimensions(&self) -> FamilyDimensions {
        FamilyDimensions { length: 0i8, mass: 0i8, time: 1i8 }
    }

    fn conversion_factor(&self) -> (r: Factor) {
        match self.scale() {
            Scale::base => Factor { mantissa: 1, exponent: 0 },
            Scale::prefixed(p) => Factor { mantissa: 1, exponent: p.power() },
            Scale::other(0) => Factor { mantissa: 60, exponent: 0 },
            Scale::other(_) => Factor { mantissa: 3600, exponent: 0 },
        }
    }

    fn abbrev(&self) -> (r: String) {
        match self.scale() {
            Scale::base => String::from_str("s"),
            Scale::prefixed(p) => spell(p.abbrev(), "s"),
            Scale::other(0) => String::from_str("min"),
            Scale::other(_) => String::from_str("h"),
        }
    }

    fn name(&self) -> (r: String) {
        match self.scale() {
            Scale::base => String::from_str("second"),
            Scale::prefixed(p) => spell(p.name(), "second"),
            Scale::other(0) => String::from_str("minute"),
            Scale::other(_) => String::from_str("hour"),
        }
    }

    fn symbol(&self) -> (r: String) {
        match self.scale() {
            Scale::base => String::from_str("s"),
            Scale::prefixed(p) => spell(p.symbol(), "s"),
            Scale::other(0) => String::from_str("min"),
            Scale::other(_) => String::from_str("hr"),
        }
    }

    fn dimensions(&self) -> (r: FamilyDimensions) {
        FamilyDimensions { length: 0, mass: 0, time: 1 }
    }
}

/// The units of force.
#[allow(non_camel_case_types)]
#[derive(Debug, Clone, Copy, PartialEq, Eq, Structural)]
pub enum Force {
    newton,
    yottanewton,
    zettanewton,
    exanewton,
    petanewton,
    teranewton,
    giganewton,
    meganewton,
    kilonewton,
    hectonewton,
    decanewton,
    decinewton,
    centinewton,
    millinewton,
    micronewton,
    nanonewton,
    piconewton,
    femtonewton,
    attonewton,
    zeptonewton,
    yoctonewton,
}

impl Force {
    /// The unit of this family with the given mark, where there is one.
    pub fn from_scale(scale: Scale) -> (r: Option<Force>)
        ensures
            r matches Some(u) ==> u.spec_scale() == scale,
            r is None ==> forall|u: Force| u.spec_scale() != scale,
    {
        match scale {
            Scale::base => Some(Force::newton),
            Scale::prefixed(Prefix::yotta) => Some(Force::yottanewton),
            Scale::prefixed(Prefix::zetta) => Some(Force::zettanewton),
            Scale::prefixed(Prefix::exa) => Some(Force::exanewton),
            Scale::prefixed(Prefix::peta) => Some(Force::petanewton),
            Scale::prefixed(Prefix::tera) => Some(Force::teranewton),
            Scale::prefixed(Prefix::giga) => Some(Force::giganewton),
            Scale::prefixed(Prefix::mega) => Some(Force::meganewton),
            Scale::prefixed(Prefix::kilo) => Some(Force::kilonewton),
            Scale::prefixed(Prefix::hecto) => Some(Force::hectonewton),
            Scale::prefixed(Prefix::deca) => Some(Force::decanewton),
            Scale::prefixed(Prefix::deci) => Some(Force::decinewton),
            Scale::prefixed(Prefix::centi) => Some(Force::centinewton),
            Scale::prefixed(Prefix::milli) => Some(Force::millinewton),
            Scale::prefixed(Prefix::micro) => Some(Force::micronewton),
            Scale::prefixed(Prefix::nano) => Some(Force::nanonewton),
            Scale::prefixed(Prefix::pico) => Some(Force::piconewton),
            Scale::prefixed(Prefix::femto) => Some(Force::femtonewton),
            Scale::prefixed(Prefix::atto) => Some(Force::attonewton),
            Scale::prefixed(Prefix::zepto) => Some(Force::zeptonewton),
            Scale::prefixed(Prefix::yocto) => Some(Force::yoctonewton),
            Scale::other(_) => None,
        }
    }

    /// How this unit is marked within its family.
    pub fn scale(&self) -> (r: Scale)
        ensures
            r == self.spec_scale(),
    {
        match self {
            Force::newton => Scale::base,
            Force::yottanewton => Scale::prefixed(Prefix::yotta),
            Force::zettanewton => Scale::prefixed(Prefix::zetta),
            Force::exanewton => Scale::prefixed(Prefix::exa),
            Force::petanewton => Scale::prefixed(Prefix::peta),
            Force::teranewton => Scale::prefixed(Prefix::tera),
            Force::giganewton => Scale::prefixed(Prefix::giga),
            Force::meganewton => Scale::prefixed(Prefix::mega),
            Force::kilonewton => Scale::prefixed(Prefix::kilo),
            Force::hectonewton => Scale::prefixed(Prefix::hecto),
            Force::decanewton => Scale::prefixed(Prefix::deca),
            Force::decinewton => Scale::prefixed(Prefix::deci),
            Force::centinewton => Scale::prefixed(Prefix::centi),
            Force::millinewton => Scale::prefixed(Prefix::milli),
            Force::micronewton => Scale::prefixed(Prefix::micro),
            Force::nanonewton => Scale::prefixed(Prefix::nano),
            Force::piconewton => Scale::prefixed(Prefix::pico),
            Force::femtonewton => Scale::prefixed(Prefix::femto),
            Force::attonewton => Scale::prefixed(Prefix::atto),
            Force::zeptonewton => Scale::prefixed(Prefix::zepto),
            Force::yoctonewton => Scale::prefixed(Prefix::yocto),
        }
    }
}

impl Unit for Force {
    open spec fn spec_scale(&self) -> Scale {
        match self {
            Force::newton => Scale::base,
            Force::yottanewton => Scale::prefixed(Prefix::yotta),
            Force::zettanewton => Scale::prefixed(Prefix::zetta),
            Force::exanewton => Scale::prefixed(Prefix::exa),
            Force::petanewton => Scale::prefixed(Prefix::peta),
            Force::teranewton => Scale::prefixed(Prefix::tera),
            Force::giganewton => Scale::prefixed(Prefix::giga),
            Force::meganewton => Scale::prefixed(Prefix::mega),
            Force::kilonewton => Scale::prefixed(Prefix::kilo),
            Force::hectonewton => Scale::prefixed(Prefix::hecto),
            Force::decanewton => Scale::prefixed(Prefix::deca),
            Force::decinewton => Scale::prefixed(Prefix::deci),
            Force::centinewton => Scale::prefixed(Prefix::centi),
            Force::millinewton => Scale::prefixed(Prefix::milli),
            Force::micronewton => Scale::prefixed(Prefix::micro),
            Force::nanonewton => Scale::prefixed(Prefix::nano),
            Force::piconewton => Scale::prefixed(Prefix::pico),
            Force::femtonewton => Scale::prefixed(Prefix::femto),
            Force::attonewton => Scale::prefixed(Prefix::atto),
            Force::zeptonewton => Scale::prefixed(Prefix::zepto),
            Force::yoctonewton => Scale::prefixed(Prefix::yocto),
        }
    }

    open spec fn spec_name(&self) -> Seq<char> {
        match self.spec_scale() {
            Scale::base => "newton"@,
            Scale::prefixed(p) => p.spec_name() + "newton"@,
            Scale::other(_) => "newton"@,
        }
    }

    open spec fn spec_abbrev(&self) -> Seq<char> {
        match self.spec_scale() {
            Scale::base => "N"@,
            Scale::prefixed(p) => p.spec_abbrev() + "N"@,
            Scale::other(_) => "N"@,
        }
    }

    open spec fn spec_symbol(&self) -> Seq<char> {
        match self.spec_scale() {
            Scale::base => "N"@,
            Scale::prefixed(p) => p.spec_symbol() + "N"@,
            Scale::other(_) => "N"@,
        }
    }

    open spec fn spec_conversion_factor(&self) -> Factor {
        match self.spec_scale() {
            Scale::base => (Factor { mantissa: 1, exponent: 0 }),
            Scale::prefixed(p) => (Factor { mantissa: 1, exponent: p.spec_power() as i8 }),
            Scale::other(_) => (Factor { mantissa: 1, exponent: 0 }),
        }
    }

    open spec fn spec_dimensions(&self) -> FamilyDimensions {
        FamilyDimensions { length: 1i8, mass: 1i8, time: (-2i8) }
    }

    fn conversion_factor(&self) -> (r: Factor) {
        match self.scale() {
            Scale::base => Factor { mantissa: 1, exponent: 0 },
            Scale::prefixed(p) => Factor { mantissa: 1, exponent: p.power() },
            Scale::other(_) => Factor { mantissa: 1, exponent: 0 },
        }
    }

    fn abbrev(&self) -> (r: String) {
        match self.scale() {
            Scale::base => String::from_str("N"),
            Scale::prefixed(p) => spell(p.abbrev(), "N"),
            Scale::other(_) => String::from_str("N"),
        }
    }

    fn name(&self) -> (r: String) {
        match self.scale() {
            Scale::base => String::from_str("newton"),
            Scale::prefixed(p) => spell(p.name(), "newton"),
            Scale::other(_) => String::from_str("newton"),
        }
    }

    fn symbol(&self) -> (r: String) {
        match self.scale() {
            Scale::base => String::from_str("N"),
            Scale::prefixed(p) => spell(p.symbol(), "N"),
            Scale::other(_) => String::from_str("N"),
        }
    }

    fn dimensions(&self) -> (r: FamilyDimensions) {
        FamilyDimensions { length: 1, mass: 1, time: -2 }
    }
}

impl CompoundUnit for Force {
}

/// The unit context of a quantity: the unit in which each base dimension is
/// expressed.
#[derive(Debug, Clone, Copy, PartialEq, Eq, Structural)]
pub struct Units {
    pub length: Length,
    pub mass: Mass,
    pub time: Time,
}

impl Units {
    /// The default context: meter, kilogram and second.
    #[allow(non_snake_case)]
    pub fn SI() -> (r: Units)
        ensures
            r == (Units { length: Length::meter, mass: Mass::kilogram, time: Time::second }),
    {
        Units { length: Length::meter, mass: Mass::kilogram, time: Time::second }
    }
}

/// The units of the default context are the units from which conversion
/// factors count: each has the factor one.
pub proof fn lemma_default_factors()
    ensures
        Length::meter.spec_conversion_factor() == (Factor { mantissa: 1, exponent: 0 }),
        Mass::kilogram.spec_conversion_factor() == (Factor { mantissa: 1, exponent: 0 }),
        Time::second.spec_conversion_factor() == (Factor { mantissa: 1, exponent: 0 }),
        Force::newton.spec_conversion_factor() == (Factor { mantissa: 1, exponent: 0 }),
{
}

impl Default for Units {
    fn default() -> (r: Units)
        ensures
            r == (Units { length: Length::meter, mass: Mass::kilogram, time: Time::second }),
    {
        Units::SI()
    }
}

/// A unit of the catalog, of whichever family.
#[derive(Debug, Clone, Copy, PartialEq, Eq, Structural)]
pub enum UnitRef {
    Length(Length),
    Mass(Mass),
    Time(Time),
    Force(Force),
}

impl Unit for UnitRef {
    open spec fn spec_scale(&self) -> Scale {
        match self {
            UnitRef::Length(u) => u.spec_scale(),
            UnitRef::Mass(u) => u.spec_scale(),
            UnitRef::Time(u) => u.spec_scale(),
            UnitRef::Force(u) => u.spec_scale(),
        }
    }

    open spec fn spec_name(&self) -> Seq<char> {
        match self {
            UnitRef::Length(u) => u.spec_name(),
            UnitRef::Mass(u) => u.spec_name(),
            UnitRef::Time(u) => u.spec_name(),
            UnitRef::Force(u) => u.spec_name(),
        }
    }

    open spec fn spec_abbrev(&self) -> Seq<char> {
        match self {
            UnitRef::Length(u) => u.spec_abbrev(),
            UnitRef::Mass(u) => u.spec_abbrev(),
            UnitRef::Time(u) => u.spec_abbrev(),
            UnitRef::Force(u) => u.spec_abbrev(),
        }
    }

    open spec fn spec_symbol(&self) -> Seq<char> {
        match self {
            UnitRef::Length(u) => u.spec_symbol(),
            UnitRef::Mass(u) => u.spec_symbol(),
            UnitRef::Time(u) => u.spec_symbol(),
            UnitRef::Force(u) => u.spec_symbol(),
        }
    }

    open spec fn spec_conversion_factor(&self) -> Factor {
        match self {
            UnitRef::Length(u) => u.spec_conversion_factor(),
            UnitRef::Mass(u) => u.spec_conversion_factor(),
            UnitRef::Time(u) => u.spec_conversion_factor(),
            UnitRef::Force(u) => u.spec_conversion_factor(),
        }
    }

    open spec fn spec_dimensions(&self) -> FamilyDimensions {
        match self {
            UnitRef::Length(u) => u.spec_dimensions(),
            UnitRef::Mass(u) => u.spec_dimensions(),
            UnitRef::Time(u) => u.spec_dimensions(),
            UnitRef::Force(u) => u.spec_dimensions(),
        }
    }

    fn conversion_factor(&self) -> (r: Factor) {
        match self {
            UnitRef::Length(u) => u.conversion_factor(),
            UnitRef::Mass(u) => u.conversion_factor(),
            UnitRef::Time(u) => u.conversion_factor(),
            UnitRef::Force(u) => u.conversion_factor(),
        }
    }

    fn abbrev(&self) -> (r: String) {
        match self {
            UnitRef::Length(u) => u.abbrev(),
            UnitRef::Mass(u) => u.abbrev(),
            UnitRef::Time(u) => u.abbrev(),
            UnitRef::Force(u) => u.abbrev(),
        }
    }

    fn name(&self) -> (r: String) {
        match self {
            UnitRef::Length(u) => u.name(),
            UnitRef::Mass(u) => u.name(),
            UnitRef::Time(u) => u.name(),
            UnitRef::Force(u) => u.name(),
        }
    }

    fn symbol(&self) -> (r: String) {
        match self {
            UnitRef::Length(u) => u.symbol(),
            UnitRef::Mass(u) => u.symbol(),
            UnitRef::Time(u) => u.symbol(),
            UnitRef::Force(u) => u.symbol(),
        }
    }

    fn dimensions(&self) -> (r: FamilyDimensions) {
        match self {
            UnitRef::Length(u) => u.dimensions(),
            UnitRef::Mass(u) => u.dimensions(),
            UnitRef::Time(u) => u.dimensions(),
            UnitRef::Force(u) => u.dimensions(),
        }
    }
}

/// The unit context in which one of `unit` is expressed: the default
/// context, but with a unit of length, mass or time in the place of its own
/// base dimension. A unit of force leaves the default context as it is.
pub open spec fn context(unit: UnitRef) -> Units {
    match unit {
        UnitRef::Length(u) => Units { length: u, mass: Mass::kilogram, time: Time::second },
        UnitRef::Mass(u) => Units { length: Length::meter, mass: u, time: Time::second },
        UnitRef::Time(u) => Units { length: Length::meter, mass: Mass::kilogram, time: u },
        UnitRef::Force(_) => Units { length: Length::meter, mass: Mass::kilogram, time: Time::second },
    }
}

/// The unit context in which one of `unit` is expressed.
pub fn context_of(unit: UnitRef) -> (r: Units)
    ensures
        r == context(unit),
{
    let si = Units::SI();
    match unit {
        UnitRef::Length(u) => Units { length: u, mass: si.mass, time: si.time },
        UnitRef::Mass(u) => Units { length: si.length, mass: u, time: si.time },
        UnitRef::Time(u) => Units { length: si.length, mass: si.mass, time: u },
        UnitRef::Force(_) => si,
    }
}

/// Every spelling of every unit has at least one character.
pub proof fn lemma_spellings_nonempty(unit: UnitRef)
    ensures
        unit.spec_name().len() > 0,
        unit.spec_abbrev().len() > 0,
        unit.spec_symbol().len() > 0,
{
    reveal_strlit("meter");
    reveal_strlit("m");
    reveal_strlit("gram");
    reveal_strlit("g");
    reveal_strlit("second");
    reveal_strlit("s");
    reveal_strlit("minute");
    reveal_strlit("min");
    reveal_strlit("hour");
    reveal_strlit("h");
    reveal_strlit("hr");
    reveal_strlit("newton");
    reveal_strlit("N");
}

} // verus!
