//! The executable scanner: a cursor over the input characters that hands
//! out one token per call, verified against the scanning model of
//! [`crate::scan`].

use vstd::prelude::*;
use vstd::string::StrSliceExecFns;

use crate::scan::CharClass;
use crate::scan::char_in_class;
use crate::scan::digits_value;
use crate::scan::is_digit_char;
use crate::scan::is_whitespace_char;
use crate::scan::lemma_digits_value_prefix_le;
use crate::scan::lemma_digits_value_snoc;
use crate::scan::single_token;
use crate::scan::span_end;
use crate::scan::spec_step;
use crate::scan::spec_word_token;
use crate::token::Token;

verus! {

/// Relies on String::push: appends the given character to the end of the
/// string.
pub assume_specification[ String::push ](s: &mut String, c: char)
    ensures
        final(s)@ == old(s)@.push(c),
;

/// Whether the scanner skips this character between tokens.
fn is_whitespace(c: char) -> (r: bool)
    ensures
        r == is_whitespace_char(c),
{
    c == ' ' || c == '\t' || c == '\n' || c == '\r'
}

/// Membership test for a maximal-munch character class.
fn in_class(class: CharClass, c: char) -> (r: bool)
    ensures
        r == char_in_class(class, c),
{
    match class {
        CharClass::Digit => '0' <= c && c <= '9',
        CharClass::Alpha => ('a' <= c && c <= 'z') || ('A' <= c && c <= 'Z'),
    }
}

/// The token for a fixed symbol with no multi-character extension.
fn single_char_token(c: char) -> (r: Option<Token>)
    ensures
        match r {
            Some(t) => single_token(c) == Some(t@),
            None => single_token(c) is None,
        },
{
    if c == '+' {
        Some(Token::Plus)
    } else if c == '-' {
        Some(Token::Minus)
    } else if c == '/' {
        Some(Token::Slash)
    } else if c == '*' {
        Some(Token::Asterisk)
    } else if c == '<' {
        Some(Token::LessThan)
    } else if c == '>' {
        Some(Token::GreatherThan)
    } else if c == '(' {
        Some(Token::LeftParenthesis)
    } else if c == ')' {
        Some(Token::RightParenthesis)
    } else if c == '{' {
        Some(Token::LeftBrace)
    } else if c == '}' {
        Some(Token::RightBrace)
    } else if c == ',' {
        Some(Token::Comma)
    } else if c == ';' {
        Some(Token::Semicolon)
    } else {
        None
    }
}

/// Whether a collected lexeme spells a given word exactly.
fn lexeme_matches(lex: &Vec<char>, word: &str) -> (r: bool)
    ensures
        r == (lex@ == word@),
{
    let n = word.unicode_len();
    if lex.len() != n {
        return false;
    }
    let mut k: usize = 0;
    while k < n
        invariant
            k <= n,
            n == word@.len(),
            lex@.len() == n,
            forall|j: int| 0 <= j < k ==> lex@[j] == word@[j],
        decreases n - k,
    {
        if lex[k] != word.get_char(k) {
            return false;
        }
        k = k + 1;
    }
    proof {
        assert(lex@ =~= word@);
    }
    true
}

/// The token an alphabetic lexeme resolves to: the keyword for an exact
/// spelling from the keyword table, an identifier carrying the lexeme
/// otherwise.
fn classify_word(lex: Vec<char>) -> (t: Token)
    ensures
        t@ == spec_word_token(lex@),
{
    if lexeme_matches(&lex, "let") {
        return Token::Let;
    }
    if lexeme_matches(&lex, "fn") {
        return Token::Function;
    }
    if lexeme_matches(&lex, "true") {
        return Token::True;
    }
    if lexeme_matches(&lex, "false") {
        return Token::False;
    }
    if lexeme_matches(&lex, "if") {
        return Token::If;
    }
    if lexeme_matches(&lex, "else") {
        return Token::Else;
    }
    if lexeme_matches(&lex, "return") {
        return Token::Return;
    }
    let mut text = String::new();
    let mut k: usize = 0;
    while k < lex.len()
        invariant
            k <= lex@.len(),
            text@ == lex@.subrange(0, k as int),
        decreases lex@.len() - k,
    {
        let ghost before = text@;
        text.push(lex[k]);
        proof {
            assert(before.push(lex@[k as int]) =~= lex@.subrange(0, k as int + 1));
        }
        k = k + 1;
    }
    proof {
        assert(lex@.subrange(0, lex@.len() as int) =~= lex@);
    }
    Token::Identifier(text)
}

/// The value of a run of decimal digit characters, or `None` when that
/// value does not fit in `usize`.
fn parse_digits(digits: &Vec<char>) -> (r: Option<usize>)
    requires
        forall|k: int| 0 <= k < digits@.len() ==> is_digit_char(digits@[k]),
    ensures
        match r {
            Some(v) => digits_value(digits@) <= usize::MAX as nat && v as nat == digits_value(
                digits@,
            ),
            None => digits_value(digits@) > usize::MAX as nat,
        },
{
    let mut value: usize = 0;
    let mut k: usize = 0;
    while k < digits.len()
        invariant
            k <= digits@.len(),
            forall|j: int| 0 <= j < digits@.len() ==> is_digit_char(digits@[j]),
            value as nat == digits_value(digits@.subrange(0, k as int)),
        decreases digits@.len() - k,
    {
        let c = digits[k];
        let d = (c as u32 - '0' as u32) as usize;
        proof {
            lemma_digits_value_snoc(digits@, k as int);
        }
        let scaled = match value.checked_mul(10) {
            Some(m) => m,
            None => {
                proof {
                    lemma_digits_value_prefix_le(digits@, k as int + 1);
                }
                return None;
            },
        };
        value = match scaled.checked_add(d) {
            Some(a) => a,
            None => {
                proof {
                    lemma_digits_value_prefix_le(digits@, k as int + 1);
                }
                return None;
            },
        };
        k = k + 1;
    }
    proof {
        assert(digits@.subrange(0, digits@.len() as int) =~= digits@);
    }
    Some(value)
}

/// A scanner over one input buffer. The cursor starts at the first
/// character, advances monotonically, and is never rewound; lookahead for
/// the two-character operators inspects the next character without moving
/// the cursor.
pub struct Lexer {
    input: Vec<char>,
    pos: usize,
}

impl Lexer {
    /// The text this scanner was built over.
    pub closed spec fn text(&self) -> Seq<char> {
        self.input@
    }

    /// The scan cursor: every character before it has been consumed.
    pub closed spec fn cursor(&self) -> int {
        self.pos as int
    }

    /// The cursor never leaves the text.
    pub open spec fn wf(&self) -> bool {
        0 <= self.cursor() <= self.text().len()
    }

    /// A fresh scanner over `input`, with the cursor at the start.
    pub fn new(input: &str) -> (lexer: Lexer)
        ensures
            lexer.wf(),
            lexer.text() == input@,
            lexer.cursor() == 0,
    {
        let n = input.unicode_len();
        let mut chars: Vec<char> = Vec::new();
        let mut k: usize = 0;
        while k < n
            invariant
                k <= n,
                n == input@.len(),
                chars@ == input@.subrange(0, k as int),
            decreases n - k,
        {
            let ghost before = chars@;
            chars.push(input.get_char(k));
            proof {
                assert(before.push(input@[k as int]) =~= input@.subrange(0, k as int + 1));
            }
            k = k + 1;
        }
        proof {
            assert(input@.subrange(0, input@.len() as int) =~= input@);
        }
        Lexer { input: chars, pos: 0 }
    }

    /// The lexeme that starts with the already consumed character `c`:
    /// greedily consume every immediately following character of `class`
    /// (maximal munch) and return `c` followed by the consumed run.
    fn read_until(&mut self, c: char, class: CharClass) -> (out: Vec<char>)
        requires
            old(self).wf(),
        ensures
            final(self).wf(),
            final(self).text() == old(self).text(),
            old(self).cursor() <= final(self).cursor(),
            final(self).cursor() == span_end(old(self).text(), old(self).cursor(), class),
            out@ == seq![c] + old(self).text().subrange(old(self).cursor(), final(self).cursor()),
            forall|k: int| 1 <= k < out@.len() ==> char_in_class(class, out@[k]),
    {
        let mut out: Vec<char> = Vec::new();
        out.push(c);
        let ghost text = self.input@;
        let ghost start = self.pos as int;
        proof {
            assert(out@ =~= seq![c] + text.subrange(start, start));
        }
        while self.pos < self.input.len() && in_class(class, self.input[self.pos])
            invariant
                self.pos <= self.input.len(),
                self.input@ == text,
                0 <= start <= self.pos as int,
                span_end(text, start, class) == span_end(text, self.pos as int, class),
                out@ == seq![c] + text.subrange(start, self.pos as int),
                forall|k: int| 1 <= k < out@.len() ==> char_in_class(class, out@[k]),
            decreases text.len() - self.pos,
        {
            let ghost before = out@;
            out.push(self.input[self.pos]);
            self.pos = self.pos + 1;
            proof {
                assert(before.push(text[self.pos as int - 1]) =~= seq![c] + text.subrange(
                    start,
                    self.pos as int,
                ));
            }
        }
        out
    }

    /// One scanning step: skip whitespace, then classify the token that
    /// starts at the cursor and consume its lexeme. Returns `None` when
    /// only whitespace (or nothing) remains; the cursor then rests at the
    /// end of the text.
    pub fn next(&mut self) -> (r: Option<Token>)
        requires
            old(self).wf(),
        ensures
            final(self).wf(),
            final(self).text() == old(self).text(),
            match r {
                Some(t) => spec_step(old(self).text(), old(self).cursor()) == Some(
                    (t@, final(self).cursor()),
                ),
                None => spec_step(old(self).text(), old(self).cursor()) is None
                    && final(self).cursor() == old(self).text().len(),
            },
    {
        let ghost text = self.input@;
        let ghost start = self.pos as int;
        while self.pos < self.input.len() && is_whitespace(self.input[self.pos])
            invariant
                self.pos <= self.input.len(),
                self.input@ == text,
                0 <= start <= self.pos as int,
                spec_step(text, start) == spec_step(text, self.pos as int),
            decreases text.len() - self.pos,
        {
            self.pos = self.pos + 1;
        }
        if self.pos == self.input.len() {
            return None;
        }
        let ghost i = self.pos as int;
        let c = self.input[self.pos];
        self.pos = self.pos + 1;
        if c == '=' {
            if self.pos < self.input.len() {
                if self.input[self.pos] == '=' {
                    self.pos = self.pos + 1;
                    return Some(Token::Equals);
                }
                return Some(Token::Assign);
            }
            return Some(Token::Illegal);
        }
        if c == '!' {
            if self.pos < self.input.len() {
                if self.input[self.pos] == '=' {
                    self.pos = self.pos + 1;
                    return Some(Token::NotEquals);
                }
                return Some(Token::Bang);
            }
            return Some(Token::Illegal);
        }
        match single_char_token(c) {
            Some(t) => {
                return Some(t);
            },
            None => {},
        }
        if in_class(CharClass::Digit, c) {
            let lex = self.read_until(c, CharClass::Digit);
            proof {
                assert(lex@ =~= text.subrange(i, self.pos as int));
            }
            return match parse_digits(&lex) {
                Some(v) => Some(Token::Integer(v)),
                None => Some(Token::Illegal),
            };
        }
        if in_class(CharClass::Alpha, c) {
            let lex = self.read_until(c, CharClass::Alpha);
            proof {
                assert(lex@ =~= text.subrange(i, self.pos as int));
            }
            return Some(classify_word(lex));
        }
        Some(Token::Illegal)
    }
}

} // verus!
