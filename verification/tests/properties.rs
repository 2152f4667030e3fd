use monkey::Repl;
use monkey::Token;

#[test]
fn empty_input_yields_no_tokens() {
    let repl = Repl::new();
    assert_eq!(repl.evaluate(""), Vec::<Token>::new());
}

#[test]
fn whitespace_only_input_yields_no_tokens() {
    let repl = Repl::new();
    assert_eq!(repl.evaluate(" \t \r\n   \n"), Vec::<Token>::new());
}

#[test]
fn identifier_carries_exact_lexeme() {
    let repl = Repl::new();
    assert_eq!(
        repl.evaluate("foobar"),
        vec![Token::Identifier(String::from("foobar"))]
    );
    assert_eq!(
        repl.evaluate("fooBar"),
        vec![Token::Identifier(String::from("fooBar"))]
    );
    // The keyword table matches whole lexemes only: no prefix matching.
    assert_eq!(
        repl.evaluate("lettuce"),
        vec![Token::Identifier(String::from("lettuce"))]
    );
    assert_eq!(
        repl.evaluate("truest"),
        vec![Token::Identifier(String::from("truest"))]
    );
}

#[test]
fn reserved_words_become_keyword_tokens() {
    let repl = Repl::new();
    assert_eq!(repl.evaluate("let"), vec![Token::Let]);
    assert_eq!(repl.evaluate("fn"), vec![Token::Function]);
    assert_eq!(repl.evaluate("true"), vec![Token::True]);
    assert_eq!(repl.evaluate("false"), vec![Token::False]);
    assert_eq!(repl.evaluate("if"), vec![Token::If]);
    assert_eq!(repl.evaluate("else"), vec![Token::Else]);
    assert_eq!(repl.evaluate("return"), vec![Token::Return]);
}

#[test]
fn integer_literals_round_trip() {
    let repl = Repl::new();
    for value in [0usize, 5, 9, 10, 42, 9007, usize::MAX] {
        let literal = format!("{value}");
        assert_eq!(repl.evaluate(&literal), vec![Token::Integer(value)]);
    }
}

#[test]
fn lookahead_for_assign_and_equals() {
    let repl = Repl::new();
    assert_eq!(repl.evaluate("=="), vec![Token::Equals]);
    assert_eq!(repl.evaluate("=5"), vec![Token::Assign, Token::Integer(5)]);
    // A lone `=` at true end of input is Illegal.
    assert_eq!(repl.evaluate("="), vec![Token::Illegal]);
    assert_eq!(repl.evaluate("==="), vec![Token::Equals, Token::Illegal]);
}

#[test]
fn lookahead_for_bang_and_not_equals() {
    let repl = Repl::new();
    assert_eq!(repl.evaluate("!="), vec![Token::NotEquals]);
    assert_eq!(repl.evaluate("!5"), vec![Token::Bang, Token::Integer(5)]);
    // A lone `!` at true end of input is Illegal.
    assert_eq!(repl.evaluate("!"), vec![Token::Illegal]);
    assert_eq!(repl.evaluate("!!"), vec![Token::Bang, Token::Illegal]);
}

#[test]
fn scenario_assignment_line() {
    let repl = Repl::new();
    assert_eq!(
        repl.evaluate("let five = 5;"),
        vec![
            Token::Let,
            Token::Identifier(String::from("five")),
            Token::Assign,
            Token::Integer(5),
            Token::Semicolon,
        ]
    );
}

#[test]
fn scenario_comparison_lines() {
    let repl = Repl::new();
    assert_eq!(
        repl.evaluate("10 == 10;"),
        vec![
            Token::Integer(10),
            Token::Equals,
            Token::Integer(10),
            Token::Semicolon,
        ]
    );
    assert_eq!(
        repl.evaluate("10 != 9;"),
        vec![
            Token::Integer(10),
            Token::NotEquals,
            Token::Integer(9),
            Token::Semicolon,
        ]
    );
}

#[test]
fn scenario_operator_run() {
    let repl = Repl::new();
    assert_eq!(
        repl.evaluate("!-/*5;"),
        vec![
            Token::Bang,
            Token::Minus,
            Token::Slash,
            Token::Asterisk,
            Token::Integer(5),
            Token::Semicolon,
        ]
    );
}

#[test]
fn unrecognized_characters_degrade_to_illegal() {
    let repl = Repl::new();
    assert_eq!(repl.evaluate("@"), vec![Token::Illegal]);
    // One character per Illegal token: no resynchronization.
    assert_eq!(repl.evaluate("@#"), vec![Token::Illegal, Token::Illegal]);
    // Scanning continues past unrecognized characters.
    assert_eq!(
        repl.evaluate("a @ 1"),
        vec![
            Token::Identifier(String::from("a")),
            Token::Illegal,
            Token::Integer(1),
        ]
    );
}

#[test]
fn integer_overflow_yields_illegal() {
    let repl = Repl::new();
    // Far beyond the target width on any machine.
    assert_eq!(
        repl.evaluate("340282366920938463463374607431768211456"),
        vec![Token::Illegal]
    );
    // The whole digit run is consumed: scanning resumes after it.
    assert_eq!(
        repl.evaluate("340282366920938463463374607431768211456;"),
        vec![Token::Illegal, Token::Semicolon]
    );
}
