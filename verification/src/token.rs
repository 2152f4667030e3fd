//! The token data model: one tagged value per lexical unit, together with
//! its mathematical image used in contracts.

use vstd::prelude::*;

verus! {

/// One lexical unit of the language.
///
/// Fixed symbols and keywords carry no payload; `Identifier` carries the
/// lexeme text (a non-empty run of ASCII alphabetic characters that is not
/// a reserved word) and `Integer` the value parsed from a run of ASCII
/// decimal digits. `Illegal` stands for a character or sequence the scanner
/// could not classify; `EOF` is the conceptual end-of-input terminator,
/// which the scanner itself never emits (the produced sequence simply
/// ends).
#[derive(Debug, PartialEq, Eq)]
pub enum Token {
    Illegal,
    EOF,
    // Identifiers and literals
    Identifier(String),
    Integer(usize),
    // Operators
    Assign,
    Plus,
    Minus,
    Bang,
    Slash,
    Asterisk,
    LessThan,
    GreatherThan,
    Equals,
    NotEquals,
    // Delimiters
    Comma,
    Semicolon,
    LeftParenthesis,
    RightParenthesis,
    LeftBrace,
    RightBrace,
    // Keywords
    Let,
    Function,
    If,
    Else,
    Return,
    True,
    False,
}

/// The mathematical image of a [`Token`]: identical variants, with the
/// `Identifier` payload abstracted to a sequence of characters and the
/// `Integer` payload to an unbounded natural number.
pub enum TokenView {
    Illegal,
    EOF,
    Identifier(Seq<char>),
    Integer(nat),
    Assign,
    Plus,
    Minus,
    Bang,
    Slash,
    Asterisk,
    LessThan,
    GreatherThan,
    Equals,
    NotEquals,
    Comma,
    Semicolon,
    LeftParenthesis,
    RightParenthesis,
    LeftBrace,
    RightBrace,
    Let,
    Function,
    If,
    Else,
    Return,
    True,
    False,
}

impl View for Token {
    type V = TokenView;

    open spec fn view(&self) -> TokenView {
        match self {
            Token::Illegal => TokenView::Illegal,
            Token::EOF => TokenView::EOF,
            Token::Identifier(text) => TokenView::Identifier(text@),
            Token::Integer(value) => TokenView::Integer(*value as nat),
            Token::Assign => TokenView::Assign,
            Token::Plus => TokenView::Plus,
            Token::Minus => TokenView::Minus,
            Token::Bang => TokenView::Bang,
            Token::Slash => TokenView::Slash,
            Token::Asterisk => TokenView::Asterisk,
            Token::LessThan => TokenView::LessThan,
            Token::GreatherThan => TokenView::GreatherThan,
            Token::Equals => TokenView::Equals,
            Token::NotEquals => TokenView::NotEquals,
            Token::Comma => TokenView::Comma,
            Token::Semicolon => TokenView::Semicolon,
            Token::LeftParenthesis => TokenView::LeftParenthesis,
            Token::RightParenthesis => TokenView::RightParenthesis,
            Token::LeftBrace => TokenView::LeftBrace,
            Token::RightBrace => TokenView::RightBrace,
            Token::Let => TokenView::Let,
            Token::Function => TokenView::Function,
            Token::If => TokenView::If,
            Token::Else => TokenView::Else,
            Token::Return => TokenView::Return,
            Token::True => TokenView::True,
            Token::False => TokenView::False,
        }
    }
}

/// The images of a sequence of tokens, in order.
pub open spec fn views_of(tokens: Seq<Token>) -> Seq<TokenView> {
    tokens.map_values(|t: Token| t@)
}

} // verus!
