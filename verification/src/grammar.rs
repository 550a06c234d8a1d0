//! The grammar of the expression language.
//!
//! ```text
//! equation -> expr | expr [->] units
//! expr     -> term | expr + term | expr - term | expr sterm
//! sterm    -> smeasure | sterm * factor | sterm / factor | sterm % factor
//! smeasure -> signed | signed units
//! signed   -> +num | -num
//! term     -> factor | term * factor | term / factor | term % factor | term ( expr )
//! factor   -> power | - factor | literal units
//! power    -> ufact | ufact ^ factor
//! ufact    -> group | ufact !
//! group    -> literal | ( expr ) | sqrt group | log group | ln group | e | pi
//! literal  -> num | signed
//! units    -> upower | units upower | units * upower | units / upower
//! upower   -> unit | unit ^ literal
//! ```
//!
//! The tokenizer reads a sign into the literal that follows it, so `80-4`
//! arrives as `80` and `-4`: a signed literal right behind an expression
//! (`expr sterm`) is therefore an addition. The terminals are predicates on
//! tokens: the three kinds of numeric literal, membership in the unit
//! registry, and the fixed glyphs and words.

use crate::number::{is_numeric, numeric, sign, sign_of, Sign};
use crate::registry::{has_key, Entries, Registry};
use crate::text::same_text;
use vstd::prelude::*;

verus! {

/// The terminals of the grammar: the categories of tokens.
#[derive(Debug, Clone, Copy, PartialEq, Eq, Structural)]
pub enum Terminal {
    /// A numeric literal without a sign.
    Num,
    /// A numeric literal that begins with `+`.
    PosNum,
    /// A numeric literal that begins with `-`.
    NegNum,
    Plus,
    Minus,
    Times,
    Slash,
    Percent,
    Caret,
    Bang,
    Open,
    Close,
    /// The conversion arrow `->`.
    Arrow,
    Ln,
    Log,
    Sqrt,
    E,
    Pi,
    /// A spelling of the unit registry.
    Unit,
}

/// The nonterminals of the grammar.
#[derive(Debug, Clone, Copy, PartialEq, Eq, Structural)]
pub enum Nonterminal {
    Equation,
    Expr,
    Sterm,
    Smeasure,
    Signed,
    Term,
    Factor,
    Power,
    Ufact,
    Group,
    Literal,
    Units,
    Upower,
}

/// A symbol of the grammar.
#[derive(Debug, Clone, Copy, PartialEq, Eq, Structural)]
pub enum Symbol {
    Terminal(Terminal),
    Nonterminal(Nonterminal),
}

/// The productions of the grammar, each named by its head and by what it adds.
#[derive(Debug, Clone, Copy, PartialEq, Eq, Structural)]
pub enum Production {
    /// `equation -> expr`
    EquationExpr,
    /// `equation -> expr [->] units`
    EquationConvert,
    /// `expr -> term`
    ExprTerm,
    /// `expr -> expr + term`
    ExprAdd,
    /// `expr -> expr - term`
    ExprSub,
    /// `expr -> expr sterm`
    ExprSigned,
    /// `sterm -> smeasure`
    StermMeasure,
    /// `sterm -> sterm * factor`
    StermMul,
    /// `sterm -> sterm / factor`
    StermDiv,
    /// `sterm -> sterm % factor`
    StermRem,
    /// `smeasure -> signed`
    SmeasureNumber,
    /// `smeasure -> signed units`
    SmeasureUnits,
    /// `signed -> +num`
    SignedPos,
    /// `signed -> -num`
    SignedNeg,
    /// `term -> factor`
    TermFactor,
    /// `term -> term * factor`
    TermMul,
    /// `term -> term / factor`
    TermDiv,
    /// `term -> term % factor`
    TermRem,
    /// `term -> term ( expr )`
    TermGroup,
    /// `factor -> power`
    FactorPower,
    /// `factor -> - factor`
    FactorNeg,
    /// `factor -> literal units`
    FactorMeasure,
    /// `power -> ufact`
    PowerUfact,
    /// `power -> ufact ^ factor`
    PowerPow,
    /// `ufact -> group`
    UfactGroup,
    /// `ufact -> ufact !`
    UfactFactorial,
    /// `group -> literal`
    GroupLiteral,
    /// `group -> ( expr )`
    GroupParen,
    /// `group -> sqrt group`
    GroupSqrt,
    /// `group -> log group`
    GroupLog,
    /// `group -> ln group`
    GroupLn,
    /// `group -> e`
    GroupE,
    /// `group -> pi`
    GroupPi,
    /// `literal -> num`
    LiteralNum,
    /// `literal -> signed`
    LiteralSigned,
    /// `units -> upower`
    UnitsPower,
    /// `units -> units upower`
    UnitsJuxtapose,
    /// `units -> units * upower`
    UnitsMul,
    /// `units -> units / upower`
    UnitsDiv,
    /// `upower -> unit`
    UpowerUnit,
    /// `upower -> unit ^ literal`
    UpowerPow,
}

impl Terminal {
    /// The number of terminals.
    pub const COUNT: usize = 19;

    /// The name under which the terminal stands in the rules.
    pub open spec fn spec_name(self) -> Seq<char> {
        match self {
            Terminal::Num => "num"@,
            Terminal::PosNum => "+num"@,
            Terminal::NegNum => "-num"@,
            Terminal::Plus => "+"@,
            Terminal::Minus => "-"@,
            Terminal::Times => "*"@,
            Terminal::Slash => "/"@,
            Terminal::Percent => "%"@,
            Terminal::Caret => "^"@,
            Terminal::Bang => "!"@,
            Terminal::Open => "("@,
            Terminal::Close => ")"@,
            Terminal::Arrow => "[->]"@,
            Terminal::Ln => "ln"@,
            Terminal::Log => "log"@,
            Terminal::Sqrt => "sqrt"@,
            Terminal::E => "e"@,
            Terminal::Pi => "pi"@,
            Terminal::Unit => "unit"@,
        }
    }

    pub open spec fn spec_index(self) -> int {
        match self {
            Terminal::Num => 0,
            Terminal::PosNum => 1,
            Terminal::NegNum => 2,
            Terminal::Plus => 3,
            Terminal::Minus => 4,
            Terminal::Times => 5,
            Terminal::Slash => 6,
            Terminal::Percent => 7,
            Terminal::Caret => 8,
            Terminal::Bang => 9,
            Terminal::Open => 10,
            Terminal::Close => 11,
            Terminal::Arrow => 12,
            Terminal::Ln => 13,
            Terminal::Log => 14,
            Terminal::Sqrt => 15,
            Terminal::E => 16,
            Terminal::Pi => 17,
            Terminal::Unit => 18,
        }
    }

    /// Whether the terminal accepts `token`, given the spellings of the unit
    /// registry.
    pub open spec fn accepts(self, token: Seq<char>, entries: Entries) -> bool {
        match self {
            Terminal::Num => is_numeric(token) && sign_of(token) == Sign::Unsigned,
            Terminal::PosNum => is_numeric(token) && sign_of(token) == Sign::Plus,
            Terminal::NegNum => is_numeric(token) && sign_of(token) == Sign::Minus,
            Terminal::Arrow => token == "->"@,
            Terminal::Unit => has_key(entries, token),
            _ => token == self.spec_name(),
        }
    }

    pub fn name(self) -> (r: &'static str)
        ensures
            r@ == self.spec_name(),
    {
        match self {
            Terminal::Num => "num",
            Terminal::PosNum => "+num",
            Terminal::NegNum => "-num",
            Terminal::Plus => "+",
            Terminal::Minus => "-",
            Terminal::Times => "*",
            Terminal::Slash => "/",
            Terminal::Percent => "%",
            Terminal::Caret => "^",
            Terminal::Bang => "!",
            Terminal::Open => "(",
            Terminal::Close => ")",
            Terminal::Arrow => "[->]",
            Terminal::Ln => "ln",
            Terminal::Log => "log",
            Terminal::Sqrt => "sqrt",
            Terminal::E => "e",
            Terminal::Pi => "pi",
            Terminal::Unit => "unit",
        }
    }

    /// The terminal at a position of the list of terminals.
    pub fn from_index(i: usize) -> (r: Option<Terminal>)
        ensures
            i < Terminal::COUNT ==> (r matches Some(t) && t.spec_index() == i),
            i >= Terminal::COUNT ==> r is None,
    {
        match i {
            0 => Some(Terminal::Num),
            1 => Some(Terminal::PosNum),
            2 => Some(Terminal::NegNum),
            3 => Some(Terminal::Plus),
            4 => Some(Terminal::Minus),
            5 => Some(Terminal::Times),
            6 => Some(Terminal::Slash),
            7 => Some(Terminal::Percent),
            8 => Some(Terminal::Caret),
            9 => Some(Terminal::Bang),
            10 => Some(Terminal::Open),
            11 => Some(Terminal::Close),
            12 => Some(Terminal::Arrow),
            13 => Some(Terminal::Ln),
            14 => Some(Terminal::Log),
            15 => Some(Terminal::Sqrt),
            16 => Some(Terminal::E),
            17 => Some(Terminal::Pi),
            18 => Some(Terminal::Unit),
            _ => None,
        }
    }

    /// Whether the terminal accepts `token`.
    pub fn matches(self, token: &str, registry: &Registry) -> (r: bool)
        ensures
            r == self.accepts(token@, registry@),
    {
        match self {
            Terminal::Num => numeric(token) && sign(token) == Sign::Unsigned,
            Terminal::PosNum => numeric(token) && sign(token) == Sign::Plus,
            Terminal::NegNum => numeric(token) && sign(token) == Sign::Minus,
            Terminal::Arrow => same_text(token, "->"),
            Terminal::Unit => registry.is_unit(token),
            _ => same_text(token, self.name()),
        }
    }
}

impl Nonterminal {
    /// The number of nonterminals.
    pub const COUNT: usize = 13;

    /// The name under which the nonterminal stands in the rules.
    pub open spec fn spec_name(self) -> Seq<char> {
        match self {
            Nonterminal::Equation => "equation"@,
            Nonterminal::Expr => "expr"@,
            Nonterminal::Sterm => "sterm"@,
            Nonterminal::Smeasure => "smeasure"@,
            Nonterminal::Signed => "signed"@,
            Nonterminal::Term => "term"@,
            Nonterminal::Factor => "factor"@,
            Nonterminal::Power => "power"@,
            Nonterminal::Ufact => "ufact"@,
            Nonterminal::Group => "group"@,
            Nonterminal::Literal => "literal"@,
            Nonterminal::Units => "units"@,
            Nonterminal::Upower => "upower"@,
        }
    }

    pub open spec fn spec_index(self) -> int {
        match self {
            Nonterminal::Equation => 0,
            Nonterminal::Expr => 1,
            Nonterminal::Sterm => 2,
            Nonterminal::Smeasure => 3,
            Nonterminal::Signed => 4,
            Nonterminal::Term => 5,
            Nonterminal::Factor => 6,
            Nonterminal::Power => 7,
            Nonterminal::Ufact => 8,
            Nonterminal::Group => 9,
            Nonterminal::Literal => 10,
            Nonterminal::Units => 11,
            Nonterminal::Upower => 12,
        }
    }

    pub fn name(self) -> (r: &'static str)
        ensures
            r@ == self.spec_name(),
    {
        match self {
            Nonterminal::Equation => "equation",
            Nonterminal::Expr => "expr",
            Nonterminal::Sterm => "sterm",
            Nonterminal::Smeasure => "smeasure",
            Nonterminal::Signed => "signed",
            Nonterminal::Term => "term",
            Nonterminal::Factor => "factor",
            Nonterminal::Power => "power",
            Nonterminal::Ufact => "ufact",
            Nonterminal::Group => "group",
            Nonterminal::Literal => "literal",
            Nonterminal::Units => "units",
            Nonterminal::Upower => "upower",
        }
    }

    /// The nonterminal at a position of the list of nonterminals.
    pub fn from_index(i: usize) -> (r: Option<Nonterminal>)
        ensures
            i < Nonterminal::COUNT ==> (r matches Some(n) && n.spec_index() == i),
            i >= Nonterminal::COUNT ==> r is None,
    {
        match i {
            0 => Some(Nonterminal::Equation),
            1 => Some(Nonterminal::Expr),
            2 => Some(Nonterminal::Sterm),
            3 => Some(Nonterminal::Smeasure),
            4 => Some(Nonterminal::Signed),
            5 => Some(Nonterminal::Term),
            6 => Some(Nonterminal::Factor),
            7 => Some(Nonterminal::Power),
            8 => Some(Nonterminal::Ufact),
            9 => Some(Nonterminal::Group),
            10 => Some(Nonterminal::Literal),
            11 => Some(Nonterminal::Units),
            12 => Some(Nonterminal::Upower),
            _ => None,
        }
    }
}

impl Symbol {
    /// The name under which the symbol stands in the rules.
    pub open spec fn spec_name(self) -> Seq<char> {
        match self {
            Symbol::Terminal(t) => t.spec_name(),
            Symbol::Nonterminal(n) => n.spec_name(),
        }
    }

    pub fn name(self) -> (r: &'static str)
        ensures
            r@ == self.spec_name(),
    {
        match self {
            Symbol::Terminal(t) => t.name(),
            Symbol::Nonterminal(n) => n.name(),
        }
    }
}

impl Production {
    /// The number of productions.
    pub const COUNT: usize = 41;

    /// The nonterminal that the production rewrites.
    pub open spec fn spec_head(self) -> Nonterminal {
        match self {
            Production::EquationExpr => Nonterminal::Equation,
            Production::EquationConvert => Nonterminal::Equation,
            Production::ExprTerm => Nonterminal::Expr,
            Production::ExprAdd => Nonterminal::Expr,
            Production::ExprSub => Nonterminal::Expr,
            Production::ExprSigned => Nonterminal::Expr,
            Production::StermMeasure => Nonterminal::Sterm,
            Production::StermMul => Nonterminal::Sterm,
            Production::StermDiv => Nonterminal::Sterm,
            Production::StermRem => Nonterminal::Sterm,
            Production::SmeasureNumber => Nonterminal::Smeasure,
            Production::SmeasureUnits => Nonterminal::Smeasure,
            Production::SignedPos => Nonterminal::Signed,
            Production::SignedNeg => Nonterminal::Signed,
            Production::TermFactor => Nonterminal::Term,
            Production::TermMul => Nonterminal::Term,
            Production::TermDiv => Nonterminal::Term,
            Production::TermRem => Nonterminal::Term,
            Production::TermGroup => Nonterminal::Term,
            Production::FactorPower => Nonterminal::Factor,
            Production::FactorNeg => Nonterminal::Factor,
            Production::FactorMeasure => Nonterminal::Factor,
            Production::PowerUfact => Nonterminal::Power,
            Production::PowerPow => Nonterminal::Power,
            Production::UfactGroup => Nonterminal::Ufact,
            Production::UfactFactorial => Nonterminal::Ufact,
            Production::GroupLiteral => Nonterminal::Group,
            Production::GroupParen => Nonterminal::Group,
            Production::GroupSqrt => Nonterminal::Group,
            Production::GroupLog => Nonterminal::Group,
            Production::GroupLn => Nonterminal::Group,
            Production::GroupE => Nonterminal::Group,
            Production::GroupPi => Nonterminal::Group,
            Production::LiteralNum => Nonterminal::Literal,
            Production::LiteralSigned => Nonterminal::Literal,
            Production::UnitsPower => Nonterminal::Units,
            Production::UnitsJuxtapose => Nonterminal::Units,
            Production::UnitsMul => Nonterminal::Units,
            Production::UnitsDiv => Nonterminal::Units,
            Production::UpowerUnit => Nonterminal::Upower,
            Production::UpowerPow => Nonterminal::Upower,
        }
    }

    /// The symbols that the production puts in its place.
    pub open spec fn spec_body(self) -> Seq<Symbol> {
        match self {
            Production::EquationExpr => seq![Symbol::Nonterminal(Nonterminal::Expr)],
            Production::EquationConvert => seq![Symbol::Nonterminal(Nonterminal::Expr), Symbol::Terminal(Terminal::Arrow), Symbol::Nonterminal(Nonterminal::Units)],
            Production::ExprTerm => seq![Symbol::Nonterminal(Nonterminal::Term)],
            Production::ExprAdd => seq![Symbol::Nonterminal(Nonterminal::Expr), Symbol::Terminal(Terminal::Plus), Symbol::Nonterminal(Nonterminal::Term)],
            Production::ExprSub => seq![Symbol::Nonterminal(Nonterminal::Expr), Symbol::Terminal(Terminal::Minus), Symbol::Nonterminal(Nonterminal::Term)],
            Production::ExprSigned => seq![Symbol::Nonterminal(Nonterminal::Expr), Symbol::Nonterminal(Nonterminal::Sterm)],
            Production::StermMeasure => seq![Symbol::Nonterminal(Nonterminal::Smeasure)],
            Production::StermMul => seq![Symbol::Nonterminal(Nonterminal::Sterm), Symbol::Terminal(Terminal::Times), Symbol::Nonterminal(Nonterminal::Factor)],
            Production::StermDiv => seq![Symbol::Nonterminal(Nonterminal::Sterm), Symbol::Terminal(Terminal::Slash), Symbol::Nonterminal(Nonterminal::Factor)],
            Production::StermRem => seq![Symbol::Nonterminal(Nonterminal::Sterm), Symbol::Terminal(Terminal::Percent), Symbol::Nonterminal(Nonterminal::Factor)],
            Production::SmeasureNumber => seq![Symbol::Nonterminal(Nonterminal::Signed)],
            Production::SmeasureUnits => seq![Symbol::Nonterminal(Nonterminal::Signed), Symbol::Nonterminal(Nonterminal::Units)],
            Production::SignedPos => seq![Symbol::Terminal(Terminal::PosNum)],
            Production::SignedNeg => seq![Symbol::Terminal(Terminal::NegNum)],
            Production::TermFactor => seq![Symbol::Nonterminal(Nonterminal::Factor)],
            Production::TermMul => seq![Symbol::Nonterminal(Nonterminal::Term), Symbol::Terminal(Terminal::Times), Symbol::Nonterminal(Nonterminal::Factor)],
            Production::TermDiv => seq![Symbol::Nonterminal(Nonterminal::Term), Symbol::Terminal(Terminal::Slash), Symbol::Nonterminal(Nonterminal::Factor)],
            Production::TermRem => seq![Symbol::Nonterminal(Nonterminal::Term), Symbol::Terminal(Terminal::Percent), Symbol::Nonterminal(Nonterminal::Factor)],
            Production::TermGroup => seq![Symbol::Nonterminal(Nonterminal::Term), Symbol::Terminal(Terminal::Open), Symbol::Nonterminal(Nonterminal::Expr), Symbol::Terminal(Terminal::Close)],
            Production::FactorPower => seq![Symbol::Nonterminal(Nonterminal::Power)],
            Production::FactorNeg => seq![Symbol::Terminal(Terminal::Minus), Symbol::Nonterminal(Nonterminal::Factor)],
            Production::FactorMeasure => seq![Symbol::Nonterminal(Nonterminal::Literal), Symbol::Nonterminal(Nonterminal::Units)],
            Production::PowerUfact => seq![Symbol::Nonterminal(Nonterminal::Ufact)],
            Production::PowerPow => seq![Symbol::Nonterminal(Nonterminal::Ufact), Symbol::Terminal(Terminal::Caret), Symbol::Nonterminal(Nonterminal::Factor)],
            Production::UfactGroup => seq![Symbol::Nonterminal(Nonterminal::Group)],
            Production::UfactFactorial => seq![Symbol::Nonterminal(Nonterminal::Ufact), Symbol::Terminal(Terminal::Bang)],
            Production::GroupLiteral => seq![Symbol::Nonterminal(Nonterminal::Literal)],
            Production::GroupParen => seq![Symbol::Terminal(Terminal::Open), Symbol::Nonterminal(Nonterminal::Expr), Symbol::Terminal(Terminal::Close)],
            Production::GroupSqrt => seq![Symbol::Terminal(Terminal::Sqrt), Symbol::Nonterminal(Nonterminal::Group)],
            Production::GroupLog => seq![Symbol::Terminal(Terminal::Log), Symbol::Nonterminal(Nonterminal::Group)],
            Production::GroupLn => seq![Symbol::Terminal(Terminal::Ln), Symbol::Nonterminal(Nonterminal::Group)],
            Production::GroupE => seq![Symbol::Terminal(Terminal::E)],
            Production::GroupPi => seq![Symbol::Terminal(Terminal::Pi)],
            Production::LiteralNum => seq![Symbol::Terminal(Terminal::Num)],
            Production::LiteralSigned => seq![Symbol::Nonterminal(Nonterminal::Signed)],
            Production::UnitsPower => seq![Symbol::Nonterminal(Nonterminal::Upower)],
            Production::UnitsJuxtapose => seq![Symbol::Nonterminal(Nonterminal::Units), Symbol::Nonterminal(Nonterminal::Upower)],
            Production::UnitsMul => seq![Symbol::Nonterminal(Nonterminal::Units), Symbol::Terminal(Terminal::Times), Symbol::Nonterminal(Nonterminal::Upower)],
            Production::UnitsDiv => seq![Symbol::Nonterminal(Nonterminal::Units), Symbol::Terminal(Terminal::Slash), Symbol::Nonterminal(Nonterminal::Upower)],
            Production::UpowerUnit => seq![Symbol::Terminal(Terminal::Unit)],
            Production::UpowerPow => seq![Symbol::Terminal(Terminal::Unit), Symbol::Terminal(Terminal::Caret), Symbol::Nonterminal(Nonterminal::Literal)],
        }
    }

    pub open spec fn spec_index(self) -> int {
        match self {
            Production::EquationExpr => 0,
            Production::EquationConvert => 1,
            Production::ExprTerm => 2,
            Production::ExprAdd => 3,
            Production::ExprSub => 4,
            Production::ExprSigned => 5,
            Production::StermMeasure => 6,
            Production::StermMul => 7,
            Production::StermDiv => 8,
            Production::StermRem => 9,
            Production::SmeasureNumber => 10,
            Production::SmeasureUnits => 11,
            Production::SignedPos => 12,
            Production::SignedNeg => 13,
            Production::TermFactor => 14,
            Production::TermMul => 15,
            Production::TermDiv => 16,
            Production::TermRem => 17,
            Production::TermGroup => 18,
            Production::FactorPower => 19,
            Production::FactorNeg => 20,
            Production::FactorMeasure => 21,
            Production::PowerUfact => 22,
            Production::PowerPow => 23,
            Production::UfactGroup => 24,
            Production::UfactFactorial => 25,
            Production::GroupLiteral => 26,
            Production::GroupParen => 27,
            Production::GroupSqrt => 28,
            Production::GroupLog => 29,
            Production::GroupLn => 30,
            Production::GroupE => 31,
            Production::GroupPi => 32,
            Production::LiteralNum => 33,
            Production::LiteralSigned => 34,
            Production::UnitsPower => 35,
            Production::UnitsJuxtapose => 36,
            Production::UnitsMul => 37,
            Production::UnitsDiv => 38,
            Production::UpowerUnit => 39,
            Production::UpowerPow => 40,
        }
    }

    /// The production at a position of the list of productions.
    pub open spec fn spec_at(i: int) -> Production {
        if i == 0 {
            Production::EquationExpr
        } else if i == 1 {
            Production::EquationConvert
        } else if i == 2 {
            Production::ExprTerm
        } else if i == 3 {
            Production::ExprAdd
        } else if i == 4 {
            Production::ExprSub
        } else if i == 5 {
            Production::ExprSigned
        } else if i == 6 {
            Production::StermMeasure
        } else if i == 7 {
            Production::StermMul
        } else if i == 8 {
            Production::StermDiv
        } else if i == 9 {
            Production::StermRem
        } else if i == 10 {
            Production::SmeasureNumber
        } else if i == 11 {
            Production::SmeasureUnits
        } else if i == 12 {
            Production::SignedPos
        } else if i == 13 {
            Production::SignedNeg
        } else if i == 14 {
            Production::TermFactor
        } else if i == 15 {
            Production::TermMul
        } else if i == 16 {
            Production::TermDiv
        } else if i == 17 {
            Production::TermRem
        } else if i == 18 {
            Production::TermGroup
        } else if i == 19 {
            Production::FactorPower
        } else if i == 20 {
            Production::FactorNeg
        } else if i == 21 {
            Production::FactorMeasure
        } else if i == 22 {
            Production::PowerUfact
        } else if i == 23 {
            Production::PowerPow
        } else if i == 24 {
            Production::UfactGroup
        } else if i == 25 {
            Production::UfactFactorial
        } else if i == 26 {
            Production::GroupLiteral
        } else if i == 27 {
            Production::GroupParen
        } else if i == 28 {
            Production::GroupSqrt
        } else if i == 29 {
            Production::GroupLog
        } else if i == 30 {
            Production::GroupLn
        } else if i == 31 {
            Production::GroupE
        } else if i == 32 {
            Production::GroupPi
        } else if i == 33 {
            Production::LiteralNum
        } else if i == 34 {
            Production::LiteralSigned
        } else if i == 35 {
            Production::UnitsPower
        } else if i == 36 {
            Production::UnitsJuxtapose
        } else if i == 37 {
            Production::UnitsMul
        } else if i == 38 {
            Production::UnitsDiv
        } else if i == 39 {
            Production::UpowerUnit
        } else {
            Production::UpowerPow
        }
    }

    pub fn head(self) -> (r: Nonterminal)
        ensures
            r == self.spec_head(),
    {
        match self {
            Production::EquationExpr => Nonterminal::Equation,
            Production::EquationConvert => Nonterminal::Equation,
            Production::ExprTerm => Nonterminal::Expr,
            Production::ExprAdd => Nonterminal::Expr,
            Production::ExprSub => Nonterminal::Expr,
            Production::ExprSigned => Nonterminal::Expr,
            Production::StermMeasure => Nonterminal::Sterm,
            Production::StermMul => Nonterminal::Sterm,
            Production::StermDiv => Nonterminal::Sterm,
            Production::StermRem => Nonterminal::Sterm,
            Production::SmeasureNumber => Nonterminal::Smeasure,
            Production::SmeasureUnits => Nonterminal::Smeasure,
            Production::SignedPos => Nonterminal::Signed,
            Production::SignedNeg => Nonterminal::Signed,
            Production::TermFactor => Nonterminal::Term,
            Production::TermMul => Nonterminal::Term,
            Production::TermDiv => Nonterminal::Term,
            Production::TermRem => Nonterminal::Term,
            Production::TermGroup => Nonterminal::Term,
            Production::FactorPower => Nonterminal::Factor,
            Production::FactorNeg => Nonterminal::Factor,
            Production::FactorMeasure => Nonterminal::Factor,
            Production::PowerUfact => Nonterminal::Power,
            Production::PowerPow => Nonterminal::Power,
            Production::UfactGroup => Nonterminal::Ufact,
            Production::UfactFactorial => Nonterminal::Ufact,
            Production::GroupLiteral => Nonterminal::Group,
            Production::GroupParen => Nonterminal::Group,
            Production::GroupSqrt => Nonterminal::Group,
            Production::GroupLog => Nonterminal::Group,
            Production::GroupLn => Nonterminal::Group,
            Production::GroupE => Nonterminal::Group,
            Production::GroupPi => Nonterminal::Group,
            Production::LiteralNum => Nonterminal::Literal,
            Production::LiteralSigned => Nonterminal::Literal,
            Production::UnitsPower => Nonterminal::Units,
            Production::UnitsJuxtapose => Nonterminal::Units,
            Production::UnitsMul => Nonterminal::Units,
            Production::UnitsDiv => Nonterminal::Units,
            Production::UpowerUnit => Nonterminal::Upower,
            Production::UpowerPow => Nonterminal::Upower,
        }
    }

    pub fn body(self) -> (r: Vec<Symbol>)
        ensures
            r@ == self.spec_body(),
    {
        match self {
            Production::EquationExpr => vec![Symbol::Nonterminal(Nonterminal::Expr)],
            Production::EquationConvert => vec![Symbol::Nonterminal(Nonterminal::Expr), Symbol::Terminal(Terminal::Arrow), Symbol::Nonterminal(Nonterminal::Units)],
            Production::ExprTerm => vec![Symbol::Nonterminal(Nonterminal::Term)],
            Production::ExprAdd => vec![Symbol::Nonterminal(Nonterminal::Expr), Symbol::Terminal(Terminal::Plus), Symbol::Nonterminal(Nonterminal::Term)],
            Production::ExprSub => vec![Symbol::Nonterminal(Nonterminal::Expr), Symbol::Terminal(Terminal::Minus), Symbol::Nonterminal(Nonterminal::Term)],
            Production::ExprSigned => vec![Symbol::Nonterminal(Nonterminal::Expr), Symbol::Nonterminal(Nonterminal::Sterm)],
            Production::StermMeasure => vec![Symbol::Nonterminal(Nonterminal::Smeasure)],
            Production::StermMul => vec![Symbol::Nonterminal(Nonterminal::Sterm), Symbol::Terminal(Terminal::Times), Symbol::Nonterminal(Nonterminal::Factor)],
            Production::StermDiv => vec![Symbol::Nonterminal(Nonterminal::Sterm), Symbol::Terminal(Terminal::Slash), Symbol::Nonterminal(Nonterminal::Factor)],
            Production::StermRem => vec![Symbol::Nonterminal(Nonterminal::Sterm), Symbol::Terminal(Terminal::Percent), Symbol::Nonterminal(Nonterminal::Factor)],
            Production::SmeasureNumber => vec![Symbol::Nonterminal(Nonterminal::Signed)],
            Production::SmeasureUnits => vec![Symbol::Nonterminal(Nonterminal::Signed), Symbol::Nonterminal(Nonterminal::Units)],
            Production::SignedPos => vec![Symbol::Terminal(Terminal::PosNum)],
            Production::SignedNeg => vec![Symbol::Terminal(Terminal::NegNum)],
            Production::TermFactor => vec![Symbol::Nonterminal(Nonterminal::Factor)],
            Production::TermMul => vec![Symbol::Nonterminal(Nonterminal::Term), Symbol::Terminal(Terminal::Times), Symbol::Nonterminal(Nonterminal::Factor)],
            Production::TermDiv => vec![Symbol::Nonterminal(Nonterminal::Term), Symbol::Terminal(Terminal::Slash), Symbol::Nonterminal(Nonterminal::Factor)],
            Production::TermRem => vec![Symbol::Nonterminal(Nonterminal::Term), Symbol::Terminal(Terminal::Percent), Symbol::Nonterminal(Nonterminal::Factor)],
            Production::TermGroup => vec![Symbol::Nonterminal(Nonterminal::Term), Symbol::Terminal(Terminal::Open), Symbol::Nonterminal(Nonterminal::Expr), Symbol::Terminal(Terminal::Close)],
            Production::FactorPower => vec![Symbol::Nonterminal(Nonterminal::Power)],
            Production::FactorNeg => vec![Symbol::Terminal(Terminal::Minus), Symbol::Nonterminal(Nonterminal::Factor)],
            Production::FactorMeasure => vec![Symbol::Nonterminal(Nonterminal::Literal), Symbol::Nonterminal(Nonterminal::Units)],
            Production::PowerUfact => vec![Symbol::Nonterminal(Nonterminal::Ufact)],
            Production::PowerPow => vec![Symbol::Nonterminal(Nonterminal::Ufact), Symbol::Terminal(Terminal::Caret), Symbol::Nonterminal(Nonterminal::Factor)],
            Production::UfactGroup => vec![Symbol::Nonterminal(Nonterminal::Group)],
            Production::UfactFactorial => vec![Symbol::Nonterminal(Nonterminal::Ufact), Symbol::Terminal(Terminal::Bang)],
            Production::GroupLiteral => vec![Symbol::Nonterminal(Nonterminal::Literal)],
            Production::GroupParen => vec![Symbol::Terminal(Terminal::Open), Symbol::Nonterminal(Nonterminal::Expr), Symbol::Terminal(Terminal::Close)],
            Production::GroupSqrt => vec![Symbol::Terminal(Terminal::Sqrt), Symbol::Nonterminal(Nonterminal::Group)],
            Production::GroupLog => vec![Symbol::Terminal(Terminal::Log), Symbol::Nonterminal(Nonterminal::Group)],
            Production::GroupLn => vec![Symbol::Terminal(Terminal::Ln), Symbol::Nonterminal(Nonterminal::Group)],
            Production::GroupE => vec![Symbol::Terminal(Terminal::E)],
            Production::GroupPi => vec![Symbol::Terminal(Terminal::Pi)],
            Production::LiteralNum => vec![Symbol::Terminal(Terminal::Num)],
            Production::LiteralSigned => vec![Symbol::Nonterminal(Nonterminal::Signed)],
            Production::UnitsPower => vec![Symbol::Nonterminal(Nonterminal::Upower)],
            Production::UnitsJuxtapose => vec![Symbol::Nonterminal(Nonterminal::Units), Symbol::Nonterminal(Nonterminal::Upower)],
            Production::UnitsMul => vec![Symbol::Nonterminal(Nonterminal::Units), Symbol::Terminal(Terminal::Times), Symbol::Nonterminal(Nonterminal::Upower)],
            Production::UnitsDiv => vec![Symbol::Nonterminal(Nonterminal::Units), Symbol::Terminal(Terminal::Slash), Symbol::Nonterminal(Nonterminal::Upower)],
            Production::UpowerUnit => vec![Symbol::Terminal(Terminal::Unit)],
            Production::UpowerPow => vec![Symbol::Terminal(Terminal::Unit), Symbol::Terminal(Terminal::Caret), Symbol::Nonterminal(Nonterminal::Literal)],
        }
    }

    /// The production at a position of the list of productions.
    pub fn from_index(i: usize) -> (r: Option<Production>)
        ensures
            i < Production::COUNT ==> (r matches Some(p) && p.spec_index() == i),
            i >= Production::COUNT ==> r is None,
    {
        match i {
            0 => Some(Production::EquationExpr),
            1 => Some(Production::EquationConvert),
            2 => Some(Production::ExprTerm),
            3 => Some(Production::ExprAdd),
            4 => Some(Production::ExprSub),
            5 => Some(Production::ExprSigned),
            6 => Some(Production::StermMeasure),
            7 => Some(Production::StermMul),
            8 => Some(Production::StermDiv),
            9 => Some(Production::StermRem),
            10 => Some(Production::SmeasureNumber),
            11 => Some(Production::SmeasureUnits),
            12 => Some(Production::SignedPos),
            13 => Some(Production::SignedNeg),
            14 => Some(Production::TermFactor),
            15 => Some(Production::TermMul),
            16 => Some(Production::TermDiv),
            17 => Some(Production::TermRem),
            18 => Some(Production::TermGroup),
            19 => Some(Production::FactorPower),
            20 => Some(Production::FactorNeg),
            21 => Some(Production::FactorMeasure),
            22 => Some(Production::PowerUfact),
            23 => Some(Production::PowerPow),
            24 => Some(Production::UfactGroup),
            25 => Some(Production::UfactFactorial),
            26 => Some(Production::GroupLiteral),
            27 => Some(Production::GroupParen),
            28 => Some(Production::GroupSqrt),
            29 => Some(Production::GroupLog),
            30 => Some(Production::GroupLn),
            31 => Some(Production::GroupE),
            32 => Some(Production::GroupPi),
            33 => Some(Production::LiteralNum),
            34 => Some(Production::LiteralSigned),
            35 => Some(Production::UnitsPower),
            36 => Some(Production::UnitsJuxtapose),
            37 => Some(Production::UnitsMul),
            38 => Some(Production::UnitsDiv),
            39 => Some(Production::UpowerUnit),
            40 => Some(Production::UpowerPow),
            _ => None,
        }
    }
}

/// The terminal that stands in the rules under `name`, if there is one.
pub open spec fn terminal_named(name: Seq<char>) -> Option<Terminal> {
    if exists|t: Terminal| t.spec_name() == name {
        Some(choose|t: Terminal| t.spec_name() == name)
    } else {
        None
    }
}

/// The length of a symbol's name.
spec fn name_len(s: Symbol) -> nat {
    match s {
        Symbol::Terminal(Terminal::Num) => 3,
        Symbol::Terminal(Terminal::PosNum) => 4,
        Symbol::Terminal(Terminal::NegNum) => 4,
        Symbol::Terminal(Terminal::Plus) => 1,
        Symbol::Terminal(Terminal::Minus) => 1,
        Symbol::Terminal(Terminal::Times) => 1,
        Symbol::Terminal(Terminal::Slash) => 1,
        Symbol::Terminal(Terminal::Percent) => 1,
        Symbol::Terminal(Terminal::Caret) => 1,
        Symbol::Terminal(Terminal::Bang) => 1,
        Symbol::Terminal(Terminal::Open) => 1,
        Symbol::Terminal(Terminal::Close) => 1,
        Symbol::Terminal(Terminal::Arrow) => 4,
        Symbol::Terminal(Terminal::Ln) => 2,
        Symbol::Terminal(Terminal::Log) => 3,
        Symbol::Terminal(Terminal::Sqrt) => 4,
        Symbol::Terminal(Terminal::E) => 1,
        Symbol::Terminal(Terminal::Pi) => 2,
        Symbol::Terminal(Terminal::Unit) => 4,
        Symbol::Nonterminal(Nonterminal::Equation) => 8,
        Symbol::Nonterminal(Nonterminal::Expr) => 4,
        Symbol::Nonterminal(Nonterminal::Sterm) => 5,
        Symbol::Nonterminal(Nonterminal::Smeasure) => 8,
        Symbol::Nonterminal(Nonterminal::Signed) => 6,
        Symbol::Nonterminal(Nonterminal::Term) => 4,
        Symbol::Nonterminal(Nonterminal::Factor) => 6,
        Symbol::Nonterminal(Nonterminal::Power) => 5,
        Symbol::Nonterminal(Nonterminal::Ufact) => 5,
        Symbol::Nonterminal(Nonterminal::Group) => 5,
        Symbol::Nonterminal(Nonterminal::Literal) => 7,
        Symbol::Nonterminal(Nonterminal::Units) => 5,
        Symbol::Nonterminal(Nonterminal::Upower) => 6,
    }
}

/// The first character of a symbol's name.
spec fn name_head(s: Symbol) -> char {
    match s {
        Symbol::Terminal(Terminal::Num) => 'n',
        Symbol::Terminal(Terminal::PosNum) => '+',
        Symbol::Terminal(Terminal::NegNum) => '-',
        Symbol::Terminal(Terminal::Plus) => '+',
        Symbol::Terminal(Terminal::Minus) => '-',
        Symbol::Terminal(Terminal::Times) => '*',
        Symbol::Terminal(Terminal::Slash) => '/',
        Symbol::Terminal(Terminal::Percent) => '%',
        Symbol::Terminal(Terminal::Caret) => '^',
        Symbol::Terminal(Terminal::Bang) => '!',
        Symbol::Terminal(Terminal::Open) => '(',
        Symbol::Terminal(Terminal::Close) => ')',
        Symbol::Terminal(Terminal::Arrow) => '[',
        Symbol::Terminal(Terminal::Ln) => 'l',
        Symbol::Terminal(Terminal::Log) => 'l',
        Symbol::Terminal(Terminal::Sqrt) => 's',
        Symbol::Terminal(Terminal::E) => 'e',
        Symbol::Terminal(Terminal::Pi) => 'p',
        Symbol::Terminal(Terminal::Unit) => 'u',
        Symbol::Nonterminal(Nonterminal::Equation) => 'e',
        Symbol::Nonterminal(Nonterminal::Expr) => 'e',
        Symbol::Nonterminal(Nonterminal::Sterm) => 's',
        Symbol::Nonterminal(Nonterminal::Smeasure) => 's',
        Symbol::Nonterminal(Nonterminal::Signed) => 's',
        Symbol::Nonterminal(Nonterminal::Term) => 't',
        Symbol::Nonterminal(Nonterminal::Factor) => 'f',
        Symbol::Nonterminal(Nonterminal::Power) => 'p',
        Symbol::Nonterminal(Nonterminal::Ufact) => 'u',
        Symbol::Nonterminal(Nonterminal::Group) => 'g',
        Symbol::Nonterminal(Nonterminal::Literal) => 'l',
        Symbol::Nonterminal(Nonterminal::Units) => 'u',
        Symbol::Nonterminal(Nonterminal::Upower) => 'u',
    }
}

/// The second character of a symbol's name, a blank where it has only one.
spec fn name_second(s: Symbol) -> char {
    match s {
        Symbol::Terminal(Terminal::Num) => 'u',
        Symbol::Terminal(Terminal::PosNum) => 'n',
        Symbol::Terminal(Terminal::NegNum) => 'n',
        Symbol::Terminal(Terminal::Plus) => ' ',
        Symbol::Terminal(Terminal::Minus) => ' ',
        Symbol::Terminal(Terminal::Times) => ' ',
        Symbol::Terminal(Terminal::Slash) => ' ',
        Symbol::Terminal(Terminal::Percent) => ' ',
        Symbol::Terminal(Terminal::Caret) => ' ',
        Symbol::Terminal(Terminal::Bang) => ' ',
        Symbol::Terminal(Terminal::Open) => ' ',
        Symbol::Terminal(Terminal::Close) => ' ',
        Symbol::Terminal(Terminal::Arrow) => '-',
        Symbol::Terminal(Terminal::Ln) => 'n',
        Symbol::Terminal(Terminal::Log) => 'o',
        Symbol::Terminal(Terminal::Sqrt) => 'q',
        Symbol::Terminal(Terminal::E) => ' ',
        Symbol::Terminal(Terminal::Pi) => 'i',
        Symbol::Terminal(Terminal::Unit) => 'n',
        Symbol::Nonterminal(Nonterminal::Equation) => 'q',
        Symbol::Nonterminal(Nonterminal::Expr) => 'x',
        Symbol::Nonterminal(Nonterminal::Sterm) => 't',
        Symbol::Nonterminal(Nonterminal::Smeasure) => 'm',
        Symbol::Nonterminal(Nonterminal::Signed) => 'i',
        Symbol::Nonterminal(Nonterminal::Term) => 'e',
        Symbol::Nonterminal(Nonterminal::Factor) => 'a',
        Symbol::Nonterminal(Nonterminal::Power) => 'o',
        Symbol::Nonterminal(Nonterminal::Ufact) => 'f',
        Symbol::Nonterminal(Nonterminal::Group) => 'r',
        Symbol::Nonterminal(Nonterminal::Literal) => 'i',
        Symbol::Nonterminal(Nonterminal::Units) => 'n',
        Symbol::Nonterminal(Nonterminal::Upower) => 'p',
    }
}

/// The length and the first two characters of each symbol's name.
proof fn lemma_name_shape(s: Symbol)
    ensures
        s.spec_name().len() == name_len(s),
        s.spec_name()[0] == name_head(s),
        name_len(s) >= 2 ==> s.spec_name()[1] == name_second(s),
{
    reveal_strlit("num");
    reveal_strlit("+num");
    reveal_strlit("-num");
    reveal_strlit("+");
    reveal_strlit("-");
    reveal_strlit("*");
    reveal_strlit("/");
    reveal_strlit("%");
    reveal_strlit("^");
    reveal_strlit("!");
    reveal_strlit("(");
    reveal_strlit(")");
    reveal_strlit("[->]");
    reveal_strlit("ln");
    reveal_strlit("log");
    reveal_strlit("sqrt");
    reveal_strlit("e");
    reveal_strlit("pi");
    reveal_strlit("unit");
    reveal_strlit("equation");
    reveal_strlit("expr");
    reveal_strlit("sterm");
    reveal_strlit("smeasure");
    reveal_strlit("signed");
    reveal_strlit("term");
    reveal_strlit("factor");
    reveal_strlit("power");
    reveal_strlit("ufact");
    reveal_strlit("group");
    reveal_strlit("literal");
    reveal_strlit("units");
    reveal_strlit("upower");
}

/// No name of a symbol is empty, holds a blank or is the arrow `->`.
pub proof fn lemma_names_plain(s: Symbol)
    ensures
        s.spec_name().len() > 0,
        forall|i: int| 0 <= i < s.spec_name().len() ==> s.spec_name()[i] != ' ',
        s.spec_name() != seq!['-', '>'],
{
    lemma_name_shape(s);
    reveal_strlit("num");
    reveal_strlit("+num");
    reveal_strlit("-num");
    reveal_strlit("+");
    reveal_strlit("-");
    reveal_strlit("*");
    reveal_strlit("/");
    reveal_strlit("%");
    reveal_strlit("^");
    reveal_strlit("!");
    reveal_strlit("(");
    reveal_strlit(")");
    reveal_strlit("[->]");
    reveal_strlit("ln");
    reveal_strlit("log");
    reveal_strlit("sqrt");
    reveal_strlit("e");
    reveal_strlit("pi");
    reveal_strlit("unit");
    reveal_strlit("equation");
    reveal_strlit("expr");
    reveal_strlit("sterm");
    reveal_strlit("smeasure");
    reveal_strlit("signed");
    reveal_strlit("term");
    reveal_strlit("factor");
    reveal_strlit("power");
    reveal_strlit("ufact");
    reveal_strlit("group");
    reveal_strlit("literal");
    reveal_strlit("units");
    reveal_strlit("upower");
    let name = s.spec_name();
    assert forall|i: int| 0 <= i < name.len() implies name[i] != ' ' by {
        if i == 0 {
        } else if i == 1 {
        } else if i == 2 {
        } else if i == 3 {
        } else if i == 4 {
        } else if i == 5 {
        } else if i == 6 {
        } else {
        }
    }
    if name == seq!['-', '>'] {
        assert(name.len() == 2);
        assert(name[0] == '-');
    }
}

/// No two symbols stand in the rules under one name.
pub proof fn lemma_symbol_names_differ(a: Symbol, b: Symbol)
    requires
        a != b,
    ensures
        a.spec_name() != b.spec_name(),
{
    lemma_name_shape(a);
    lemma_name_shape(b);
}

/// No two terminals stand in the rules under one name.
pub proof fn lemma_terminal_names_differ(a: Terminal, b: Terminal)
    requires
        a != b,
    ensures
        a.spec_name() != b.spec_name(),
{
    lemma_symbol_names_differ(Symbol::Terminal(a), Symbol::Terminal(b));
}

impl Terminal {
    /// The terminal that stands in the rules under `name`.
    pub fn named(name: &str) -> (r: Option<Terminal>)
        ensures
            r == terminal_named(name@),
    {
        let mut i: usize = 0;
        while i < Terminal::COUNT
            invariant
                i <= Terminal::COUNT,
                forall|t: Terminal| t.spec_index() < i ==> #[trigger] t.spec_name() != name@,
            decreases Terminal::COUNT - i,
        {
            if let Some(t) = Terminal::from_index(i) {
                if same_text(t.name(), name) {
                    proof {
                        let chosen = choose|t: Terminal| t.spec_name() == name@;
                        if chosen != t {
                            lemma_terminal_names_differ(chosen, t);
                        }
                    }
                    return Some(t);
                }
                assert forall|u: Terminal| u.spec_index() < i + 1 implies #[trigger] u.spec_name()
                    != name@ by {
                    if u.spec_index() == i {
                        assert(u == t);
                    }
                }
            }
            i += 1;
        }
        assert forall|t: Terminal| #[trigger] t.spec_name() != name@ by {
            assert(t.spec_index() < Terminal::COUNT);
        }
        None
    }
}

} // verus!
