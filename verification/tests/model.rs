use larvae::number::numeric;
use larvae::registry::Registry;
use larvae::tokenizer::tokenize;

// The lexemes of a text, written out once more in plain terms, to hold the
// tokenizer to them on every short text over a small alphabet.

fn is_white(c: char) -> bool {
    c == ' ' || c == '\n' || c == '\r' || c == '\t'
}

fn letter(c: char) -> bool {
    c.is_ascii_alphabetic()
}

fn run_end(s: &[char], mut i: usize, class: fn(char) -> bool) -> usize {
    while i < s.len() && class(s[i]) {
        i += 1;
    }
    i
}

fn digit(c: char) -> bool {
    c.is_ascii_digit()
}

fn has_at(s: &[char], i: usize, c: char) -> bool {
    i < s.len() && s[i] == c
}

fn sign_end(s: &[char], i: usize) -> usize {
    if has_at(s, i, '+') || has_at(s, i, '-') {
        i + 1
    } else {
        i
    }
}

fn number_end(s: &[char]) -> usize {
    let digits = sign_end(s, 0);
    let whole = run_end(s, digits, digit);
    if whole == digits {
        return 0;
    }
    let fraction = if has_at(s, whole, '.') && run_end(s, whole + 1, digit) > whole + 1 {
        run_end(s, whole + 1, digit)
    } else {
        whole
    };
    let exp_digits = sign_end(s, fraction + 1);
    let exponent = if (has_at(s, fraction, 'e') || has_at(s, fraction, 'E'))
        && run_end(s, exp_digits, digit) > exp_digits
    {
        run_end(s, exp_digits, digit)
    } else {
        fraction
    };
    exponent
}

fn lexeme_len(s: &[char], keys: &[Vec<char>]) -> usize {
    if number_end(s) > 0 {
        number_end(s)
    } else if s.starts_with(&['-', '>']) {
        2
    } else if !s.is_empty() && "+-*/%^!()".contains(s[0]) {
        1
    } else if !s.is_empty() && letter(s[0]) {
        run_end(s, 1, letter)
    } else if let Some(key) = keys.iter().find(|key| s.starts_with(key)) {
        key.len()
    } else if !s.is_empty() {
        1
    } else {
        0
    }
}

fn lexemes(text: &str, keys: &[Vec<char>]) -> Vec<String> {
    let s: Vec<char> = text.chars().collect();
    let mut out = Vec::new();
    let mut i = run_end(&s, 0, is_white);
    while i < s.len() {
        let n = lexeme_len(&s[i..], keys);
        out.push(s[i..i + n].iter().collect());
        i = run_end(&s, i + n, is_white);
    }
    out
}

fn keys_of(registry: &Registry) -> Vec<Vec<char>> {
    (0..registry.len()).map(|i| registry.key(i).chars().collect()).collect()
}

/// Every text of up to `length` characters of `alphabet`.
fn texts(alphabet: &[char], length: usize) -> Vec<String> {
    let mut all = vec![String::new()];
    let mut last = vec![String::new()];
    for _ in 0..length {
        let mut next = Vec::new();
        for text in &last {
            for c in alphabet {
                let mut t = text.clone();
                t.push(*c);
                next.push(t);
            }
        }
        all.extend(next.iter().cloned());
        last = next;
    }
    all
}

#[test]
fn the_tokenizer_reads_numbers_as_the_model_does() {
    let registry = Registry::standard();
    let keys = keys_of(&registry);
    for text in texts(&['+', '-', '1', '.', 'e', 'E', 'i', ' '], 5) {
        assert_eq!(tokenize(&text, &registry), lexemes(&text, &keys), "{:?}", text);
    }
}

#[test]
fn the_tokenizer_reads_words_and_glyphs_as_the_model_does() {
    let registry = Registry::standard();
    let keys = keys_of(&registry);
    for text in texts(&['k', 'm', '_', '2', '-', '>', '*', '(', 'μ', '\t', '&'], 4) {
        assert_eq!(tokenize(&text, &registry), lexemes(&text, &keys), "{:?}", text);
    }
}

#[test]
fn the_tokenizer_reads_unit_spellings_as_the_model_does() {
    let registry = Registry::standard();
    let keys = keys_of(&registry);
    for text in texts(&['μ', 'm', 's', 'g', 'N', '1', ' ', '°'], 5) {
        assert_eq!(tokenize(&text, &registry), lexemes(&text, &keys), "{:?}", text);
    }
}

#[test]
fn the_longest_spelling_is_taken() {
    let meter = larvae::unit::UnitRef::Length(larvae::unit::Length::meter);
    let registry = Registry::new().insert("°", meter).insert("°C", meter).insert("°Cel", meter);
    assert_eq!(tokenize("3°Celsius", &registry), vec!["3", "°Cel", "sius"]);
    assert_eq!(tokenize("3°C", &registry), vec!["3", "°C"]);
    assert_eq!(tokenize("3°F", &registry), vec!["3", "°", "F"]);
    let keys = keys_of(&registry);
    for text in texts(&['°', 'C', 'e', 'l', '3'], 5) {
        assert_eq!(tokenize(&text, &registry), lexemes(&text, &keys), "{:?}", text);
    }
}

#[test]
fn numeric_tokens_are_those_that_parse_as_doubles() {
    for text in texts(&['+', '-', '.', '1', '0', 'e', 'E', 'i', 'n', 'f', 'a', 'N'], 5) {
        assert_eq!(numeric(&text), text.parse::<f64>().is_ok(), "{:?}", text);
    }
    for text in ["infinity", "INFINITY", "+Infinity", "-infinitY", "infinit", "infinityy", "1e308", "1e-400", "123456789012345678901234567890"] {
        assert_eq!(numeric(text), text.parse::<f64>().is_ok(), "{:?}", text);
    }
}

/// The height of the stack after a program, `None` where an instruction
/// finds too few values.
fn height(program: &[larvae::program::Instruction]) -> Option<usize> {
    let mut h: usize = 0;
    for i in program {
        let takes = match i {
            larvae::program::Instruction::Number(_)
            | larvae::program::Instruction::E
            | larvae::program::Instruction::Pi
            | larvae::program::Instruction::Unit(_) => 0,
            larvae::program::Instruction::Neg
            | larvae::program::Instruction::Factorial
            | larvae::program::Instruction::Sqrt
            | larvae::program::Instruction::Log
            | larvae::program::Instruction::Ln => 1,
            _ => 2,
        };
        if h < takes {
            return None;
        }
        h = h - takes + 1;
    }
    Some(h)
}

#[test]
fn every_sentence_of_few_tokens_gives_a_program_that_runs() {
    let calculator = larvae::equation::Calculator::new();
    let words = ["1", "-2", "+", "-", "*", "(", ")", "m", "^", "!", "->", "sqrt"];
    let mut sentences = 0;
    let mut lists: Vec<Vec<String>> = vec![vec![]];
    for _ in 0..4 {
        let mut next = Vec::new();
        for list in &lists {
            for w in words {
                let mut l = list.clone();
                l.push(w.to_string());
                next.push(l);
            }
        }
        for list in &next {
            if let Ok(program) = calculator.parse(list) {
                assert_eq!(height(&program), Some(1), "{:?}", list);
                sentences += 1;
            }
        }
        lists = next;
    }
    assert!(sentences > 100);
}

/// The number of sentences among the lists of up to `length` of the words,
/// each of which must have one derivation and no more.
fn sentences_with_one_derivation(words: &[&str], length: usize) -> usize {
    let registry = Registry::standard();
    let mut builder = earlgrey::GrammarBuilder::default();
    for i in 0..larvae::grammar::Nonterminal::COUNT {
        builder = builder.nonterm(larvae::grammar::Nonterminal::from_index(i).unwrap().name());
    }
    for i in 0..larvae::grammar::Terminal::COUNT {
        let terminal = larvae::grammar::Terminal::from_index(i).unwrap();
        let registry = registry.clone();
        builder = builder.terminal(terminal.name(), move |token| terminal.matches(token, &registry));
    }
    // a derivation is written as the index of its production before its children
    let mut forest = earlgrey::EarleyForest::new(|_, token| token.to_string());
    for i in 0..larvae::grammar::Production::COUNT {
        let production = larvae::grammar::Production::from_index(i).unwrap();
        let body: Vec<&str> = production.body().iter().map(|s| s.name()).collect();
        builder = builder.rule(production.head().name(), &body);
        forest.action(larvae::semanter::rule_name(production).as_str(), move |children: Vec<String>| {
            format!("{}({})", i, children.join(" "))
        });
    }
    let parser = earlgrey::EarleyParser::new(builder.into_grammar("equation").unwrap());
    let mut sentences = 0;
    let mut lists: Vec<Vec<&str>> = vec![vec![]];
    for _ in 0..length {
        let mut next = Vec::new();
        for list in &lists {
            for w in words {
                let mut l = list.clone();
                l.push(*w);
                next.push(l);
            }
        }
        for list in &next {
            if let Ok(trees) = parser.parse(list.iter()) {
                let mut derivations = forest.eval_all(&trees).unwrap();
                derivations.sort();
                derivations.dedup();
                assert_eq!(derivations.len(), 1, "{:?}", list);
                sentences += 1;
            }
        }
        lists = next;
    }
    sentences
}

#[test]
fn every_sentence_of_few_tokens_has_one_derivation() {
    let words = ["1", "-2", "+", "-", "/", "(", ")", "m", "^", "!", "->", "pi"];
    assert!(sentences_with_one_derivation(&words, 4) > 100);
}

#[test]
fn every_sentence_with_signs_and_parentheses_has_one_derivation() {
    assert!(sentences_with_one_derivation(&["1", "-2", "-", "(", ")", "m"], 5) > 100);
}

#[test]
fn every_sentence_with_units_and_conversions_has_one_derivation() {
    assert!(sentences_with_one_derivation(&["1", "+2", "*", "m", "/", "->"], 5) > 100);
}

#[test]
fn every_sentence_with_powers_has_one_derivation() {
    assert!(sentences_with_one_derivation(&["1", "-2", "m", "s", "^", "!"], 5) > 100);
}
