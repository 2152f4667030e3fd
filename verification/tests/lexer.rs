use monkey::Lexer;
use monkey::Token;

fn collect_tokens(input: &str) -> Vec<Token> {
    let mut lexer = Lexer::new(input);
    let mut tokens: Vec<Token> = Vec::new();
    while let Some(token) = lexer.next() {
        tokens.push(token);
    }
    tokens
}

#[test]
fn delimiters() {
    let input = "=+(){},;";

    let expected_tokens = vec![
        Token::Assign,
        Token::Plus,
        Token::LeftParenthesis,
        Token::RightParenthesis,
        Token::LeftBrace,
        Token::RightBrace,
        Token::Comma,
        Token::Semicolon,
    ];

    let tokens = collect_tokens(input);

    assert_eq!(expected_tokens, tokens);
}

#[test]
fn basic_code() {
    let input = "let five = 5;
        let ten = 10;

        let add = fn(x, y) {
            x + y;
        };

        let result = add(five, ten);
        ";

    let expected_tokens = vec![
        Token::Let,
        Token::Identifier(String::from("five")),
        Token::Assign,
        Token::Integer(5),
        Token::Semicolon,
        Token::Let,
        Token::Identifier(String::from("ten")),
        Token::Assign,
        Token::Integer(10),
        Token::Semicolon,
        Token::Let,
        Token::Identifier(String::from("add")),
        Token::Assign,
        Token::Function,
        Token::LeftParenthesis,
        Token::Identifier(String::from("x")),
        Token::Comma,
        Token::Identifier(String::from("y")),
        Token::RightParenthesis,
        Token::LeftBrace,
        Token::Identifier(String::from("x")),
        Token::Plus,
        Token::Identifier(String::from("y")),
        Token::Semicolon,
        Token::RightBrace,
        Token::Semicolon,
        Token::Let,
        Token::Identifier(String::from("result")),
        Token::Assign,
        Token::Identifier(String::from("add")),
        Token::LeftParenthesis,
        Token::Identifier(String::from("five")),
        Token::Comma,
        Token::Identifier(String::from("ten")),
        Token::RightParenthesis,
        Token::Semicolon,
    ];

    let tokens = collect_tokens(input);

    assert_eq!(expected_tokens, tokens);
}

#[test]
fn extended_keywords_and_operators() {
    let input = "let five = 5;

        let ten = 10;

        let add = fn(x, y) {
            x + y;
        };

        let result = add(five, ten);

        !-/*5;
        5 < 10 > 5;

        if (5 < 10) {
            return true;
        } else {
            return false;
        }

        10 == 10;

        10 != 9;
        ";

    let expected_tokens = vec![
        Token::Let,
        Token::Identifier(String::from("five")),
        Token::Assign,
        Token::Integer(5),
        Token::Semicolon,
        Token::Let,
        Token::Identifier(String::from("ten")),
        Token::Assign,
        Token::Integer(10),
        Token::Semicolon,
        Token::Let,
        Token::Identifier(String::from("add")),
        Token::Assign,
        Token::Function,
        Token::LeftParenthesis,
        Token::Identifier(String::from("x")),
        Token::Comma,
        Token::Identifier(String::from("y")),
        Token::RightParenthesis,
        Token::LeftBrace,
        Token::Identifier(String::from("x")),
        Token::Plus,
        Token::Identifier(String::from("y")),
        Token::Semicolon,
        Token::RightBrace,
        Token::Semicolon,
        Token::Let,
        Token::Identifier(String::from("result")),
        Token::Assign,
        Token::Identifier(String::from("add")),
        Token::LeftParenthesis,
        Token::Identifier(String::from("five")),
        Token::Comma,
        Token::Identifier(String::from("ten")),
        Token::RightParenthesis,
        Token::Semicolon,
        Token::Bang,
        Token::Minus,
        Token::Slash,
        Token::Asterisk,
        Token::Integer(5),
        Token::Semicolon,
        Token::Integer(5),
        Token::LessThan,
        Token::Integer(10),
        Token::GreatherThan,
        Token::Integer(5),
        Token::Semicolon,
        Token::If,
        Token::LeftParenthesis,
        Token::Integer(5),
        Token::LessThan,
        Token::Integer(10),
        Token::RightParenthesis,
        Token::LeftBrace,
        Token::Return,
        Token::True,
        Token::Semicolon,
        Token::RightBrace,
        Token::Else,
        Token::LeftBrace,
        Token::Return,
        Token::False,
        Token::Semicolon,
        Token::RightBrace,
        Token::Integer(10),
        Token::Equals,
        Token::Integer(10),
        Token::Semicolon,
        Token::Integer(10),
        Token::NotEquals,
        Token::Integer(9),
        Token::Semicolon,
    ];

    let tokens = collect_tokens(input);

    assert_eq!(expected_tokens, tokens);
}
