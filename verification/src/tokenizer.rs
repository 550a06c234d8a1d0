//! The tokenizer: from the characters of an expression to its lexemes.
//!
//! White space separates lexemes and is never part of one. At each lexeme the
//! scans are tried in a fixed order, and the first that succeeds decides: a
//! numeric literal with its sign, the arrow `->`, an operator, a word of
//! letters, a unit spelling of the registry, and failing all of these the
//! next character by itself.
//!
//! The scanner's own reading of a number takes an `i` that stands right
//! behind the literal. The tokenizer does not: it hands the literal out
//! without the `i` and keeps the `i` as the first letter of the word that
//! follows, so that `2inch` is `2` and `inch`.

use crate::registry::{well_formed, Entries, Registry};
use crate::scanner::{
    accept_all, accept_any, extract_string, fraction_end, has_at, in_class, is_letter,
    literal_end, next_char, number_end, peek_char, run_end, scan_number, scan_whitespace,
    scanner_ahead, scanner_held, scanner_new, sign_end, CharClass,
};
use crate::text::texts;
use lexers::Scanner;
use std::str::Chars;
use vstd::prelude::*;

verus! {

/// The characters that are operators by themselves.
pub open spec fn is_operator(c: char) -> bool {
    c == '+' || c == '-' || c == '*' || c == '/' || c == '%' || c == '^' || c == '!' || c == '('
        || c == ')'
}

/// The two characters of the conversion arrow.
pub open spec fn arrow() -> Seq<char> {
    seq!['-', '>']
}

/// The first spelling, at or after position `from` of the registry, that
/// `text` starts with.
pub open spec fn first_key(text: Seq<char>, entries: Entries, from: int) -> Option<int>
    decreases entries.len() - from,
{
    if from < 0 || from >= entries.len() {
        None
    } else if entries[from].0.is_prefix_of(text) {
        Some(from)
    } else {
        first_key(text, entries, from + 1)
    }
}

/// The length of the word at the head of `s`, 0 where there is none: a run
/// of letters.
pub open spec fn word_end(s: Seq<char>) -> int {
    run_end(s, 0, CharClass::Letter)
}

/// The length of the lexeme at the head of `text`, which does not start with
/// white space: 0 only where `text` is empty.
pub open spec fn lexeme_len(text: Seq<char>, entries: Entries) -> int {
    if literal_end(text) > 0 {
        literal_end(text)
    } else if arrow().is_prefix_of(text) {
        2
    } else if text.len() > 0 && is_operator(text[0]) {
        1
    } else if word_end(text) > 0 {
        word_end(text)
    } else if let Some(k) = first_key(text, entries, 0) {
        entries[k].0.len() as int
    } else if text.len() > 0 {
        1
    } else {
        0
    }
}

/// The lexemes of `text`, in order.
pub open spec fn tokens(text: Seq<char>, entries: Entries) -> Seq<Seq<char>>
    decreases text.len(),
{
    let start = run_end(text, 0, CharClass::White);
    let rest = text.skip(start);
    let n = lexeme_len(rest, entries);
    if 0 <= start <= text.len() && 0 < n <= rest.len() {
        seq![rest.take(n)] + tokens(rest.skip(n), entries)
    } else {
        seq![]
    }
}

/// A run starts where it is asked for and ends within the text.
pub proof fn lemma_run_bounds(s: Seq<char>, i: int, class: CharClass)
    requires
        0 <= i <= s.len(),
    ensures
        i <= run_end(s, i, class) <= s.len(),
        forall|j: int| i <= j < run_end(s, i, class) ==> in_class(#[trigger] s[j], class),
        run_end(s, i, class) < s.len() ==> !in_class(s[run_end(s, i, class)], class),
    decreases s.len() - i,
{
    if i < s.len() && in_class(s[i], class) {
        lemma_run_bounds(s, i + 1, class);
    }
}

/// A numeric literal and a word lie within the text they head, and a
/// numeric literal ends in a digit.
pub proof fn lemma_scan_bounds(s: Seq<char>)
    ensures
        0 <= literal_end(s) <= s.len(),
        literal_end(s) <= number_end(s) <= s.len(),
        literal_end(s) > 0 ==> in_class(s[literal_end(s) - 1], CharClass::Digit),
        0 <= word_end(s) <= s.len(),
{
    let digits = sign_end(s, 0);
    lemma_run_bounds(s, digits, CharClass::Digit);
    let whole = run_end(s, digits, CharClass::Digit);
    if whole + 1 <= s.len() {
        lemma_run_bounds(s, whole + 1, CharClass::Digit);
    }
    let fraction = fraction_end(s, whole);
    let exp_digits = sign_end(s, fraction + 1);
    if exp_digits <= s.len() {
        lemma_run_bounds(s, exp_digits, CharClass::Digit);
    }
    lemma_run_bounds(s, 0, CharClass::Letter);
}

/// A run behind one more character at the front ends one place further on.
pub proof fn lemma_run_shift(c: char, s: Seq<char>, i: int, class: CharClass)
    requires
        0 <= i <= s.len(),
    ensures
        run_end(seq![c] + s, i + 1, class) == 1 + run_end(s, i, class),
    decreases s.len() - i,
{
    let t = seq![c] + s;
    if i < s.len() {
        assert(t[i + 1] == s[i]);
        if in_class(s[i], class) {
            lemma_run_shift(c, s, i + 1, class);
        }
    }
}

/// The first spelling that a text starts with is a spelling that it starts
/// with, and no earlier one is.
pub proof fn lemma_first_key(text: Seq<char>, entries: Entries, from: int)
    requires
        0 <= from,
    ensures
        match first_key(text, entries, from) {
            Some(k) => {
                &&& from <= k < entries.len()
                &&& entries[k].0.is_prefix_of(text)
                &&& forall|j: int| from <= j < k ==> !(#[trigger] entries[j]).0.is_prefix_of(text)
            },
            None => forall|j: int| from <= j < entries.len() ==> !(#[trigger] entries[j]).0.is_prefix_of(text),
        },
    decreases entries.len() - from,
{
    if from < entries.len() && !entries[from].0.is_prefix_of(text) {
        lemma_first_key(text, entries, from + 1);
    }
}

/// With the longest spellings first, the spelling that the tokenizer takes
/// is the longest spelling that the text starts with.
pub proof fn lemma_first_key_is_longest(text: Seq<char>, entries: Entries, other: int)
    requires
        well_formed(entries),
        0 <= other < entries.len(),
        entries[other].0.is_prefix_of(text),
    ensures
        first_key(text, entries, 0) matches Some(k) && entries[k].0.len() >= entries[other].0.len(),
{
    lemma_first_key(text, entries, 0);
}

/// Every lexeme has at least one character and lies within the text it heads.
pub proof fn lemma_lexeme_bounds(text: Seq<char>, entries: Entries)
    requires
        well_formed(entries),
    ensures
        0 <= lexeme_len(text, entries) <= text.len(),
        text.len() > 0 ==> lexeme_len(text, entries) > 0,
{
    lemma_scan_bounds(text);
    lemma_first_key(text, entries, 0);
}

/// No token is empty, and none begins with white space.
pub proof fn lemma_token_heads(text: Seq<char>, entries: Entries, i: int)
    requires
        0 <= i < tokens(text, entries).len(),
    ensures
        tokens(text, entries)[i].len() > 0,
        !in_class(tokens(text, entries)[i][0], CharClass::White),
    decreases text.len(),
{
    let start = run_end(text, 0, CharClass::White);
    let rest = text.skip(start);
    let n = lexeme_len(rest, entries);
    if i > 0 {
        lemma_token_heads(rest.skip(n), entries, i - 1);
    } else {
        lemma_run_bounds(text, 0, CharClass::White);
    }
}

/// The state of one run over an input: the scanner that reads it, the
/// registry whose spellings it looks for, and whether an `i` that the scanner
/// has read with a literal is still to be handed out.
pub struct Tokenizer<'a> {
    scanner: Scanner<Chars<'a>>,
    registry: &'a Registry,
    pending: bool,
}

/// Whether `c` is an ASCII letter.
fn letter(c: char) -> (r: bool)
    ensures
        r == is_letter(c),
{
    ('a' <= c && c <= 'z') || ('A' <= c && c <= 'Z')
}

/// The text without its last character.
fn without_last(text: &String) -> (r: String)
    requires
        text@.len() > 0,
    ensures
        r@ == text@.take(text@.len() - 1),
{
    let n = text.as_str().unicode_len();
    String::from_str(text.as_str().substring_char(0, n - 1))
}

impl<'a> Tokenizer<'a> {
    /// The part of the input that has not been turned into lexemes yet.
    pub closed spec fn remaining(&self) -> Seq<char> {
        if self.pending {
            seq!['i'] + scanner_ahead(self.scanner)
        } else {
            scanner_ahead(self.scanner)
        }
    }

    /// The entries of the registry that the tokenizer reads.
    pub closed spec fn entries(&self) -> Entries {
        self.registry@
    }

    /// The run of letters ahead of the scanner, which holds nothing
    /// afterwards.
    fn scan_letters(&mut self) -> (r: String)
        ensures
            final(self).entries() == old(self).entries(),
            final(self).pending == old(self).pending,
            scanner_held(final(self).scanner) == Seq::<char>::empty(),
            ({
                let ahead = scanner_ahead(old(self).scanner);
                let n = run_end(ahead, 0, CharClass::Letter);
                &&& r@ == ahead.take(n)
                &&& scanner_ahead(final(self).scanner) == ahead.skip(n)
            }),
    {
        let _ = extract_string(&mut self.scanner);
        let ghost ahead = scanner_ahead(self.scanner);
        let ghost mut n: int = 0;
        proof {
            lemma_run_bounds(ahead, 0, CharClass::Letter);
            assert(ahead.take(0) =~= Seq::<char>::empty());
            assert(ahead.skip(0) =~= ahead);
        }
        loop
            invariant
                ahead == scanner_ahead(old(self).scanner),
                self.entries() == old(self).entries(),
                self.pending == old(self).pending,
                0 <= n <= run_end(ahead, 0, CharClass::Letter) <= ahead.len(),
                run_end(ahead, 0, CharClass::Letter) == run_end(ahead, n, CharClass::Letter),
                scanner_held(self.scanner) == ahead.take(n),
                scanner_ahead(self.scanner) == ahead.skip(n),
            ensures
                self.entries() == old(self).entries(),
                self.pending == old(self).pending,
                n == run_end(ahead, 0, CharClass::Letter),
                0 <= n <= ahead.len(),
                scanner_held(self.scanner) == ahead.take(n),
                scanner_ahead(self.scanner) == ahead.skip(n),
            decreases ahead.len() - n,
        {
            match peek_char(&mut self.scanner) {
                Some(c) => {
                    assert(c == ahead.skip(n)[0] == ahead[n]);
                    if !letter(c) {
                        break ;
                    }
                    let _ = next_char(&mut self.scanner);
                    proof {
                        lemma_run_bounds(ahead, n + 1, CharClass::Letter);
                        assert(ahead.take(n).push(ahead[n]) =~= ahead.take(n + 1));
                        assert(ahead.skip(n).skip(1) =~= ahead.skip(n + 1));
                        n = n + 1;
                    }
                },
                None => {
                    break ;
                },
            }
        }
        extract_string(&mut self.scanner)
    }

    /// The unit spelling at the head of the input, tried longest first.
    fn scan_unit(&mut self) -> (r: Option<String>)
        requires
            !old(self).pending,
            scanner_held(old(self).scanner) == Seq::<char>::empty(),
        ensures
            !final(self).pending,
            final(self).entries() == old(self).entries(),
            scanner_held(final(self).scanner) == Seq::<char>::empty(),
            match first_key(old(self).remaining(), old(self).entries(), 0) {
                Some(k) => {
                    &&& r matches Some(token)
                    &&& token@ == old(self).entries()[k].0
                    &&& final(self).remaining() == old(self).remaining().skip(
                        old(self).entries()[k].0.len() as int,
                    )
                },
                None => r is None && final(self).remaining() == old(self).remaining(),
            },
    {
        let ghost text = self.remaining();
        let ghost entries = self.entries();
        let count = self.registry.len();
        let mut i: usize = 0;
        while i < count
            invariant
                i <= count == entries.len(),
                entries == old(self).entries(),
                text == old(self).remaining(),
                !self.pending,
                self.entries() == entries,
                self.remaining() == text,
                scanner_held(self.scanner) == Seq::<char>::empty(),
                first_key(text, entries, 0) == first_key(text, entries, i as int),
            decreases count - i,
        {
            if accept_all(&mut self.scanner, self.registry.key(i)) {
                let token = extract_string(&mut self.scanner);
                assert(token@ =~= entries[i as int].0);
                return Some(token);
            }
            i += 1;
        }
        None
    }

    /// The next lexeme of the input, or `None` where only white space is left.
    pub fn next_token(&mut self) -> (r: Option<String>)
        ensures
            final(self).entries() == old(self).entries(),
            ({
                let text = old(self).remaining();
                let start = run_end(text, 0, CharClass::White);
                let rest = text.skip(start);
                let n = lexeme_len(rest, old(self).entries());
                if rest.len() > 0 {
                    &&& r matches Some(token)
                    &&& token@ == rest.take(n)
                    &&& 0 < n <= rest.len()
                    &&& final(self).remaining() == rest.skip(n)
                } else {
                    &&& r is None
                    &&& final(self).remaining() == rest
                }
            }),
    {
        let ghost text = self.remaining();
        let ghost entries = self.entries();
        let ghost start = run_end(text, 0, CharClass::White);
        let ghost rest = text.skip(start);
        let _ = self.registry.len();
        proof {
            lemma_run_bounds(text, 0, CharClass::White);
            lemma_lexeme_bounds(rest, entries);
            lemma_scan_bounds(rest);
            reveal_strlit("->");
            reveal_strlit("i");
            assert("->"@ =~= arrow());
            assert("i"@ =~= seq!['i']);
        }
        if self.pending {
            // the `i` that was read with the literal before it begins a word
            let ghost ahead = scanner_ahead(self.scanner);
            self.pending = false;
            let letters = self.scan_letters();
            let token = String::from_str("i").concat(letters.as_str());
            proof {
                let k = run_end(ahead, 0, CharClass::Letter);
                lemma_run_bounds(ahead, 0, CharClass::Letter);
                lemma_run_shift('i', ahead, 0, CharClass::Letter);
                assert(start == 0);
                assert(rest =~= text);
                assert(run_end(text, 0, CharClass::Letter) == 1 + k);
                assert(lexeme_len(rest, entries) == 1 + k);
                assert(token@ =~= rest.take(1 + k));
                assert(ahead.skip(k) =~= rest.skip(1 + k));
            }
            return Some(token);
        }
        let _ = scan_whitespace(&mut self.scanner);
        if let Some(number) = scan_number(&mut self.scanner) {
            let ghost m = literal_end(rest);
            assert(number@ =~= rest.take(number_end(rest)));
            let n = number.as_str().unicode_len();
            if number.as_str().get_char(n - 1) == 'i' {
                assert(has_at(rest, m, 'i'));
                let token = without_last(&number);
                self.pending = true;
                proof {
                    assert(token@ =~= rest.take(m));
                    assert(seq!['i'] + rest.skip(m + 1) =~= rest.skip(m));
                }
                return Some(token);
            }
            assert(number_end(rest) == m);
            return Some(number);
        }
        if accept_all(&mut self.scanner, "->") {
            let token = extract_string(&mut self.scanner);
            assert(token@ =~= rest.take(2));
            return Some(token);
        }
        let operators: [char; 9] = ['+', '-', '*', '/', '%', '^', '!', '(', ')'];
        proof {
            assert forall|c: char| operators@.contains(c) <==> is_operator(c) by {
                if is_operator(c) {
                    assert(operators@[0] == '+' && operators@[1] == '-' && operators@[2] == '*'
                        && operators@[3] == '/' && operators@[4] == '%' && operators@[5] == '^'
                        && operators@[6] == '!' && operators@[7] == '(' && operators@[8] == ')');
                }
            }
        }
        if let Some(c) = accept_any(&mut self.scanner, operators.as_slice()) {
            let token = extract_string(&mut self.scanner);
            assert(token@ =~= rest.take(1));
            return Some(token);
        }
        if let Some(c) = peek_char(&mut self.scanner) {
            if letter(c) {
                let token = self.scan_letters();
                proof {
                    assert(c == rest[0]);
                    lemma_run_bounds(rest, 1, CharClass::Letter);
                    assert(word_end(rest) == run_end(rest, 1, CharClass::Letter));
                    assert(lexeme_len(rest, entries) == word_end(rest));
                }
                return Some(token);
            }
        }
        if let Some(token) = self.scan_unit() {
            proof {
                let k = first_key(rest, entries, 0)->0;
                lemma_first_key(rest, entries, 0);
                assert(token@ =~= rest.take(entries[k].0.len() as int));
            }
            return Some(token);
        }
        if let Some(c) = next_char(&mut self.scanner) {
            let token = extract_string(&mut self.scanner);
            assert(token@ =~= rest.take(1));
            return Some(token);
        }
        None
    }
}

/// A tokenizer at the start of `input`.
pub fn tokenizer<'a>(input: &'a str, registry: &'a Registry) -> (t: Tokenizer<'a>)
    ensures
        t.remaining() == input@,
        t.entries() == registry@,
{
    Tokenizer { scanner: scanner_new(input), registry, pending: false }
}

/// All the lexemes of `input`.
pub fn tokenize(input: &str, registry: &Registry) -> (out: Vec<String>)
    ensures
        texts(out@) == tokens(input@, registry@),
{
    let mut t = tokenizer(input, registry);
    let mut out: Vec<String> = Vec::new();
    let _ = registry.len();
    assert(texts(out@) =~= Seq::<Seq<char>>::empty());
    loop
        invariant
            well_formed(registry@),
            t.entries() == registry@,
            texts(out@) + tokens(t.remaining(), registry@) == tokens(input@, registry@),
        ensures
            texts(out@) == tokens(input@, registry@),
        decreases t.remaining().len(),
    {
        let ghost before = t.remaining();
        let ghost done = out@;
        proof {
            lemma_run_bounds(before, 0, CharClass::White);
        }
        match t.next_token() {
            Some(token) => {
                out.push(token);
                proof {
                    let start = run_end(before, 0, CharClass::White);
                    let rest = before.skip(start);
                    let n = lexeme_len(rest, registry@);
                    assert(texts(out@) =~= texts(done) + seq![rest.take(n)]);
                    assert(tokens(before, registry@) == seq![rest.take(n)] + tokens(
                        rest.skip(n),
                        registry@,
                    ));
                    assert(texts(out@) + tokens(t.remaining(), registry@) =~= texts(done) + tokens(
                        before,
                        registry@,
                    ));
                }
            },
            None => {
                proof {
                    let start = run_end(before, 0, CharClass::White);
                    let rest = before.skip(start);
                    assert(rest.len() == 0);
                }
                assert(tokens(before, registry@) =~= Seq::<Seq<char>>::empty()) by {
                    let start = run_end(before, 0, CharClass::White);
                    let rest = before.skip(start);
                    lemma_scan_bounds(rest);
                    lemma_first_key(rest, registry@, 0);
                    if let Some(k) = first_key(rest, registry@, 0) {
                        assert(registry@[k].0.len() <= rest.len());
                    }
                }
                break ;
            },
        }
    }
    out
}

} // verus!
