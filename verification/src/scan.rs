//! The mathematical model of scanning: character classes, maximal-munch
//! spans, and the step function that says which token starts at a given
//! position of the input. Every executable contract of the library is
//! stated against these functions.

use vstd::prelude::*;

use crate::token::TokenView;

verus! {

/// The characters the scanner skips between tokens: space, tab, newline
/// and carriage return. Whitespace produces no token and is never
/// preserved.
pub open spec fn is_whitespace_char(c: char) -> bool {
    c == ' ' || c == '\t' || c == '\n' || c == '\r'
}

/// ASCII decimal digits, the only characters of an integer literal.
pub open spec fn is_digit_char(c: char) -> bool {
    '0' <= c && c <= '9'
}

/// ASCII alphabetic characters, the only characters of an identifier.
pub open spec fn is_alpha_char(c: char) -> bool {
    ('a' <= c && c <= 'z') || ('A' <= c && c <= 'Z')
}

/// The value of one decimal digit character.
pub open spec fn digit_val(c: char) -> nat {
    (c as u32 - '0' as u32) as nat
}

/// The unsigned value of a run of decimal digit characters, most
/// significant digit first.
pub open spec fn digits_value(s: Seq<char>) -> nat
    decreases s.len(),
{
    if s.len() == 0 {
        0
    } else {
        digits_value(s.drop_last()) * 10 + digit_val(s.last())
    }
}

/// The two character classes subject to maximal munch: a digit run forms
/// an integer literal, an alphabetic run forms a word (keyword or
/// identifier).
#[derive(Clone, Copy)]
pub enum CharClass {
    Digit,
    Alpha,
}

/// Membership of a character in a maximal-munch class.
pub open spec fn char_in_class(class: CharClass, c: char) -> bool {
    match class {
        CharClass::Digit => is_digit_char(c),
        CharClass::Alpha => is_alpha_char(c),
    }
}

/// The first position at or after `i` whose character leaves `class`:
/// the exclusive end of the maximal-munch span that starts at `i`.
pub open spec fn span_end(s: Seq<char>, i: int, class: CharClass) -> int
    decreases s.len() - i,
{
    if 0 <= i < s.len() && char_in_class(class, s[i]) {
        span_end(s, i + 1, class)
    } else {
        i
    }
}

/// The fixed keyword table: the token for a reserved word, `None` for any
/// other lexeme. The lookup is on the whole lexeme only; no prefix
/// matches.
pub open spec fn spec_keyword(lex: Seq<char>) -> Option<TokenView> {
    if lex == "let"@ {
        Some(TokenView::Let)
    } else if lex == "fn"@ {
        Some(TokenView::Function)
    } else if lex == "true"@ {
        Some(TokenView::True)
    } else if lex == "false"@ {
        Some(TokenView::False)
    } else if lex == "if"@ {
        Some(TokenView::If)
    } else if lex == "else"@ {
        Some(TokenView::Else)
    } else if lex == "return"@ {
        Some(TokenView::Return)
    } else {
        None
    }
}

/// The token an alphabetic lexeme resolves to: the keyword variant when
/// the spelling matches the keyword table exactly, an identifier
/// otherwise.
pub open spec fn spec_word_token(lex: Seq<char>) -> TokenView {
    match spec_keyword(lex) {
        Some(t) => t,
        None => TokenView::Identifier(lex),
    }
}

/// The fixed symbols with no multi-character extension: one character,
/// one token.
pub open spec fn single_token(c: char) -> Option<TokenView> {
    if c == '+' {
        Some(TokenView::Plus)
    } else if c == '-' {
        Some(TokenView::Minus)
    } else if c == '/' {
        Some(TokenView::Slash)
    } else if c == '*' {
        Some(TokenView::Asterisk)
    } else if c == '<' {
        Some(TokenView::LessThan)
    } else if c == '>' {
        Some(TokenView::GreatherThan)
    } else if c == '(' {
        Some(TokenView::LeftParenthesis)
    } else if c == ')' {
        Some(TokenView::RightParenthesis)
    } else if c == '{' {
        Some(TokenView::LeftBrace)
    } else if c == '}' {
        Some(TokenView::RightBrace)
    } else if c == ',' {
        Some(TokenView::Comma)
    } else if c == ';' {
        Some(TokenView::Semicolon)
    } else {
        None
    }
}

/// One scanning step: the token whose lexeme starts at the first
/// non-whitespace position at or after `i`, together with the position
/// just past that lexeme; `None` when only whitespace (or nothing)
/// remains.
///
/// `=` and `!` look one character ahead: a following `=` makes the
/// two-character operator; at true end of input the lone character is
/// `Illegal`. A digit run whose value does not fit in `usize` is a single
/// `Illegal` token covering the whole run: the explicit overflow policy
/// of this scanner. Any character no rule covers is one `Illegal` token
/// of its own.
pub open spec fn spec_step(s: Seq<char>, i: int) -> Option<(TokenView, int)>
    decreases s.len() - i,
{
    if !(0 <= i < s.len()) {
        None
    } else {
        let c = s[i];
        if is_whitespace_char(c) {
            spec_step(s, i + 1)
        } else if c == '=' {
            if i + 1 < s.len() {
                if s[i + 1] == '=' {
                    Some((TokenView::Equals, i + 2))
                } else {
                    Some((TokenView::Assign, i + 1))
                }
            } else {
                Some((TokenView::Illegal, i + 1))
            }
        } else if c == '!' {
            if i + 1 < s.len() {
                if s[i + 1] == '=' {
                    Some((TokenView::NotEquals, i + 2))
                } else {
                    Some((TokenView::Bang, i + 1))
                }
            } else {
                Some((TokenView::Illegal, i + 1))
            }
        } else if single_token(c) is Some {
            Some((single_token(c)->Some_0, i + 1))
        } else if is_digit_char(c) {
            let j = span_end(s, i, CharClass::Digit);
            let run = s.subrange(i, j);
            if digits_value(run) <= usize::MAX as nat {
                Some((TokenView::Integer(digits_value(run)), j))
            } else {
                Some((TokenView::Illegal, j))
            }
        } else if is_alpha_char(c) {
            let j = span_end(s, i, CharClass::Alpha);
            Some((spec_word_token(s.subrange(i, j)), j))
        } else {
            Some((TokenView::Illegal, i + 1))
        }
    }
}

/// Extending a digit run on the right multiplies its value by ten and
/// adds the new digit.
pub proof fn lemma_digits_value_snoc(s: Seq<char>, i: int)
    requires
        0 <= i < s.len(),
    ensures
        digits_value(s.subrange(0, i + 1)) == digits_value(s.subrange(0, i)) * 10 + digit_val(
            s[i],
        ),
{
    let ext = s.subrange(0, i + 1);
    assert(ext.drop_last() =~= s.subrange(0, i));
    assert(ext.last() == s[i]);
}

/// The value of a digit run is at least the value of any prefix of it.
pub proof fn lemma_digits_value_prefix_le(s: Seq<char>, i: int)
    requires
        0 <= i <= s.len(),
    ensures
        digits_value(s.subrange(0, i)) <= digits_value(s),
    decreases s.len() - i,
{
    if i == s.len() {
        assert(s.subrange(0, i) =~= s);
    } else {
        lemma_digits_value_snoc(s, i);
        lemma_digits_value_prefix_le(s, i + 1);
    }
}

/// A maximal-munch span ends within the input and not before its start.
pub proof fn lemma_span_end_in_range(s: Seq<char>, i: int, class: CharClass)
    requires
        0 <= i <= s.len(),
    ensures
        i <= span_end(s, i, class) <= s.len(),
    decreases s.len() - i,
{
    if 0 <= i < s.len() && char_in_class(class, s[i]) {
        lemma_span_end_in_range(s, i + 1, class);
    }
}

/// When every character from `i` to the end of the input lies in the
/// class, the span runs to the end of the input.
pub proof fn lemma_span_end_all(s: Seq<char>, i: int, class: CharClass)
    requires
        0 <= i <= s.len(),
        forall|k: int| i <= k < s.len() ==> char_in_class(class, s[k]),
    ensures
        span_end(s, i, class) == s.len(),
    decreases s.len() - i,
{
    if i < s.len() {
        lemma_span_end_all(s, i + 1, class);
    }
}

/// A successful step lands strictly past its starting position and never
/// past the end of the input: scanning advances.
pub proof fn lemma_step_advances(s: Seq<char>, i: int)
    requires
        spec_step(s, i) is Some,
    ensures
        i < spec_step(s, i)->Some_0.1 <= s.len(),
    decreases s.len() - i,
{
    if 0 <= i < s.len() {
        let c = s[i];
        if is_whitespace_char(c) {
            lemma_step_advances(s, i + 1);
        } else if c == '=' || c == '!' || single_token(c) is Some {
        } else if is_digit_char(c) {
            lemma_span_end_in_range(s, i + 1, CharClass::Digit);
        } else if is_alpha_char(c) {
            lemma_span_end_in_range(s, i + 1, CharClass::Alpha);
        }
    }
}

/// The sequence of tokens produced from position `i` to the end of the
/// input: step until only whitespace remains.
pub open spec fn spec_tokens_from(s: Seq<char>, i: int) -> Seq<TokenView>
    decreases s.len() - i,
    via spec_tokens_from_decreases
{
    match spec_step(s, i) {
        None => Seq::empty(),
        Some((t, j)) => seq![t] + spec_tokens_from(s, j),
    }
}

#[via_fn]
proof fn spec_tokens_from_decreases(s: Seq<char>, i: int) {
    if spec_step(s, i) is Some {
        lemma_step_advances(s, i);
    }
}

/// The full token sequence of an input: what scanning the whole text
/// produces, in the order the lexemes appear.
pub open spec fn spec_tokenize(s: Seq<char>) -> Seq<TokenView> {
    spec_tokens_from(s, 0)
}

} // verus!
