//! Laws of the tokenizer, stated and proved against the scanning model of
//! [`crate::scan`].

use vstd::prelude::*;

use crate::scan::CharClass;
use crate::scan::digit_val;
use crate::scan::digits_value;
use crate::scan::is_alpha_char;
use crate::scan::is_digit_char;
use crate::scan::is_whitespace_char;
use crate::scan::lemma_span_end_all;
use crate::scan::spec_keyword;
use crate::scan::spec_step;
use crate::scan::spec_tokenize;
use crate::scan::spec_tokens_from;
use crate::scan::spec_word_token;
use crate::token::TokenView;

verus! {

/// When only whitespace (or nothing) lies between `i` and the end of the
/// input, no further token starts there.
proof fn lemma_whitespace_tail_step_none(s: Seq<char>, i: int)
    requires
        0 <= i <= s.len(),
        forall|k: int| i <= k < s.len() ==> is_whitespace_char(s[k]),
    ensures
        spec_step(s, i) is None,
    decreases s.len() - i,
{
    if i < s.len() {
        lemma_whitespace_tail_step_none(s, i + 1);
    }
}

/// An input composed only of whitespace produces an empty token sequence;
/// so does an empty input.
pub proof fn lemma_whitespace_only_scans_empty(s: Seq<char>)
    requires
        forall|i: int| 0 <= i < s.len() ==> is_whitespace_char(s[i]),
    ensures
        spec_tokenize(s) == Seq::<TokenView>::empty(),
{
    lemma_whitespace_tail_step_none(s, 0);
}

/// An input that is one whole alphabetic lexeme produces exactly one
/// token: what the lexeme resolves to.
proof fn lemma_word_scans_alone(s: Seq<char>)
    requires
        s.len() > 0,
        forall|i: int| 0 <= i < s.len() ==> is_alpha_char(s[i]),
    ensures
        spec_tokenize(s) == seq![spec_word_token(s)],
{
    lemma_span_end_all(s, 0, CharClass::Alpha);
    assert(s.subrange(0, s.len() as int) =~= s);
    assert(spec_step(s, 0) == Some((spec_word_token(s), s.len() as int)));
    assert(spec_step(s, s.len() as int) is None);
    assert(spec_tokens_from(s, s.len() as int) == Seq::<TokenView>::empty());
    assert(spec_tokenize(s) == seq![spec_word_token(s)] + spec_tokens_from(s, s.len() as int));
    assert(seq![spec_word_token(s)] + Seq::<TokenView>::empty() =~= seq![spec_word_token(s)]);
}

/// A valid identifier — a non-empty alphabetic lexeme that is not a
/// reserved word — produces exactly one `Identifier` token carrying the
/// lexeme text.
pub proof fn lemma_identifier_single_token(s: Seq<char>)
    requires
        s.len() > 0,
        forall|i: int| 0 <= i < s.len() ==> is_alpha_char(s[i]),
        spec_keyword(s) is None,
    ensures
        spec_tokenize(s) == seq![TokenView::Identifier(s)],
{
    lemma_word_scans_alone(s);
}

/// A reserved word spelled exactly produces the corresponding keyword
/// token, never an `Identifier`.
pub proof fn lemma_keyword_single_token(s: Seq<char>, t: TokenView)
    requires
        spec_keyword(s) == Some(t),
    ensures
        spec_tokenize(s) == seq![t],
        t != TokenView::Identifier(s),
{
    reveal_strlit("let");
    reveal_strlit("fn");
    reveal_strlit("true");
    reveal_strlit("false");
    reveal_strlit("if");
    reveal_strlit("else");
    reveal_strlit("return");
    assert(forall|i: int| 0 <= i < s.len() ==> is_alpha_char(s[i]));
    lemma_word_scans_alone(s);
}

/// An input that is one whole digit run, with a value that fits the
/// target width, produces exactly one `Integer` token with that value.
proof fn lemma_digits_scan_alone(s: Seq<char>)
    requires
        s.len() > 0,
        forall|i: int| 0 <= i < s.len() ==> is_digit_char(s[i]),
        digits_value(s) <= usize::MAX as nat,
    ensures
        spec_tokenize(s) == seq![TokenView::Integer(digits_value(s))],
{
    lemma_span_end_all(s, 0, CharClass::Digit);
    assert(s.subrange(0, s.len() as int) =~= s);
    assert(spec_step(s, 0) == Some((TokenView::Integer(digits_value(s)), s.len() as int)));
    assert(spec_step(s, s.len() as int) is None);
    assert(spec_tokens_from(s, s.len() as int) == Seq::<TokenView>::empty());
    assert(spec_tokenize(s) == seq![TokenView::Integer(digits_value(s))] + spec_tokens_from(
        s,
        s.len() as int,
    ));
    assert(seq![TokenView::Integer(digits_value(s))] + Seq::<TokenView>::empty() =~= seq![
        TokenView::Integer(digits_value(s)),
    ]);
}

/// The decimal digit character for a value below ten.
pub open spec fn digit_char(d: nat) -> char {
    if d == 0 {
        '0'
    } else if d == 1 {
        '1'
    } else if d == 2 {
        '2'
    } else if d == 3 {
        '3'
    } else if d == 4 {
        '4'
    } else if d == 5 {
        '5'
    } else if d == 6 {
        '6'
    } else if d == 7 {
        '7'
    } else if d == 8 {
        '8'
    } else {
        '9'
    }
}

/// The decimal spelling of a non-negative integer: most significant digit
/// first, no sign, no leading zeros beyond the single digit of zero
/// itself.
pub open spec fn decimal_of(v: nat) -> Seq<char>
    decreases v,
{
    if v < 10 {
        seq![digit_char(v)]
    } else {
        decimal_of(v / 10).push(digit_char(v % 10))
    }
}

/// A value below ten and its digit character correspond exactly.
proof fn lemma_digit_char_val(d: nat)
    requires
        d < 10,
    ensures
        is_digit_char(digit_char(d)),
        digit_val(digit_char(d)) == d,
{
}

/// The decimal spelling of a value is a non-empty digit run that scans
/// back to the value it was made from.
proof fn lemma_decimal_of_digits(v: nat)
    ensures
        decimal_of(v).len() > 0,
        forall|k: int| 0 <= k < decimal_of(v).len() ==> is_digit_char(decimal_of(v)[k]),
        digits_value(decimal_of(v)) == v,
    decreases v,
{
    if v < 10 {
        lemma_digit_char_val(v);
        assert(digits_value(Seq::<char>::empty()) == 0);
        assert(seq![digit_char(v)].drop_last() =~= Seq::<char>::empty());
        assert(seq![digit_char(v)].last() == digit_char(v));
        assert(digits_value(seq![digit_char(v)]) == digit_val(digit_char(v)));
    } else {
        vstd::arithmetic::div_mod::lemma_div_is_strictly_smaller(v as int, 10);
        lemma_decimal_of_digits(v / 10);
        lemma_digit_char_val(v % 10);
        let pre = decimal_of(v / 10);
        let c = digit_char(v % 10);
        assert(pre.push(c).drop_last() =~= pre);
        vstd::arithmetic::div_mod::lemma_fundamental_div_mod(v as int, 10);
        assert(digits_value(pre.push(c)) == (v / 10) * 10 + digit_val(c));
    }
}

/// Integer literals round-trip: re-serializing a representable value in
/// decimal and re-scanning the spelling yields exactly one `Integer`
/// token with the same value.
pub proof fn lemma_integer_round_trip(v: usize)
    ensures
        spec_tokenize(decimal_of(v as nat)) == seq![TokenView::Integer(v as nat)],
{
    lemma_decimal_of_digits(v as nat);
    lemma_digits_scan_alone(decimal_of(v as nat));
}

/// The lookahead rule for `=`: a directly following `=` makes one
/// `Equals` token and both characters are consumed; anything else makes
/// one `Assign` token and only the first character is consumed; at true
/// end of input the lone `=` is `Illegal`.
pub proof fn lemma_lookahead_assign(s: Seq<char>, i: int)
    requires
        0 <= i < s.len(),
        s[i] == '=',
    ensures
        i + 1 < s.len() && s[i + 1] == '=' ==> spec_step(s, i) == Some((TokenView::Equals, i + 2)),
        i + 1 < s.len() && s[i + 1] != '=' ==> spec_step(s, i) == Some((TokenView::Assign, i + 1)),
        i + 1 == s.len() ==> spec_step(s, i) == Some((TokenView::Illegal, i + 1)),
{
}

/// The lookahead rule for `!`, symmetric to the one for `=`: `!=` makes
/// one `NotEquals` token consuming both characters, anything else one
/// `Bang` token consuming only the `!`, and a lone trailing `!` is
/// `Illegal`.
pub proof fn lemma_lookahead_bang(s: Seq<char>, i: int)
    requires
        0 <= i < s.len(),
        s[i] == '!',
    ensures
        i + 1 < s.len() && s[i + 1] == '=' ==> spec_step(s, i) == Some(
            (TokenView::NotEquals, i + 2),
        ),
        i + 1 < s.len() && s[i + 1] != '=' ==> spec_step(s, i) == Some((TokenView::Bang, i + 1)),
        i + 1 == s.len() ==> spec_step(s, i) == Some((TokenView::Illegal, i + 1)),
{
}

} // verus!
