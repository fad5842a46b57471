use minicompiler::errors::CompileError;
use minicompiler::lexical_analysis::lexical_analysis;
use minicompiler::token::Token;

fn lex(input: &str) -> Result<Vec<Token>, CompileError> {
    let characters: Vec<char> = input.chars().collect();
    lexical_analysis(&characters)
}

fn assert_input_tokenizes_as(input: String, expected_tokens: Vec<Token>) {
    let result = lex(&input);
    assert!(result.is_ok());
    assert_eq!(result.unwrap(), expected_tokens);
}

fn constant(text: &str) -> Token {
    Token::Constant(text.to_string())
}

#[test]
fn it_tokenizes_floating_point_values() {
    let input = String::from("123.4");
    let expected_tokens = vec![constant("123.4"), Token::EOF];

    // the numeral is kept as written; its 32-bit value belongs to the edge
    assert_eq!("123.4".parse::<f32>().unwrap(), 123.4);
    assert_input_tokenizes_as(input, expected_tokens);
}

#[test]
fn it_tokenizes_integer_constants_as_floats() {
    let input = String::from("42");
    let expected_tokens = vec![constant("42"), Token::EOF];

    assert_eq!("42".parse::<f32>().unwrap(), 42.0);
    assert_input_tokenizes_as(input, expected_tokens);
}

#[test]
fn it_interrupts_numbers_when_grouping_characters_are_reached() {
    let input = String::from("24{9821}2)");
    let expected_tokens = vec![
        constant("24"),
        Token::CurlyOpening,
        constant("9821"),
        Token::CurlyClosing,
        constant("2"),
        Token::ParenthesisClosing,
        Token::EOF,
    ];

    assert_input_tokenizes_as(input, expected_tokens)
}

#[test]
fn it_breaks_numbers_apart_using_whitespace() {
    let input = String::from("42 60 42.8 231");
    let expected_tokens = vec![
        constant("42"),
        constant("60"),
        constant("42.8"),
        constant("231"),
        Token::EOF,
    ];

    assert_input_tokenizes_as(input, expected_tokens);
}

#[test]
fn it_tokenizes_keywords() {
    let input = String::from("for if");
    let expected_tokens = vec![Token::For, Token::If, Token::EOF];

    assert_input_tokenizes_as(input, expected_tokens);
}

#[test]
fn it_tokenizes_identifiers() {
    let input = String::from("for if foo bar");
    let expected_tokens = vec![
        Token::For,
        Token::If,
        Token::Identifier("foo".into()),
        Token::Identifier("bar".into()),
        Token::EOF,
    ];

    assert_input_tokenizes_as(input, expected_tokens)
}

#[test]
fn it_tokenizes_booleans() {
    let input = String::from("true false");
    let expected_tokens = vec![Token::True, Token::False, Token::EOF];

    assert_input_tokenizes_as(input, expected_tokens)
}

#[test]
fn it_tokenizes_operators() {
    let input = String::from(" 1 + 2++ 3 +=4 -5 -- 6-= 7* 8*= 9/ 10/= 11== 12!=13");
    let expected_tokens = vec![
        constant("1"),
        Token::OperatorAddition,
        constant("2"),
        Token::OperatorIncrement,
        constant("3"),
        Token::OperatorIncreaseBy,
        constant("4"),
        Token::OperatorSubtraction,
        constant("5"),
        Token::OperatorDecrement,
        constant("6"),
        Token::OperatorDecreaseBy,
        constant("7"),
        Token::OperatorMultiplication,
        constant("8"),
        Token::OperatorMultiplyBy,
        constant("9"),
        Token::OperatorDivision,
        constant("10"),
        Token::OperatorDivideBy,
        constant("11"),
        Token::OperatorEqual,
        constant("12"),
        Token::OperatorNotEqual,
        constant("13"),
        Token::EOF,
    ];

    assert_input_tokenizes_as(input, expected_tokens)
}

#[test]
fn it_ignores_line_comments() {
    let input = String::from(
        "foo // this is the first line comment\n//this is the second line comment\nbar",
    );
    let expected_tokens = vec![
        Token::Identifier("foo".into()),
        Token::Identifier("bar".into()),
        Token::EOF,
    ];

    assert_input_tokenizes_as(input, expected_tokens)
}

#[test]
fn it_ignores_block_comments() {
    let input = String::from("foo /*this\n\n is a block\n comment true false if / * ? */bar");
    let expected_tokens = vec![
        Token::Identifier("foo".into()),
        Token::Identifier("bar".into()),
        Token::EOF,
    ];

    assert_input_tokenizes_as(input, expected_tokens)
}

#[test]
fn it_classifies_every_fixed_word_of_the_alphabet() {
    let cases: Vec<(&str, Token)> = vec![
        ("for", Token::For),
        ("if", Token::If),
        ("true", Token::True),
        ("false", Token::False),
        ("num", Token::NumType),
        ("bool", Token::BoolType),
        (";", Token::Semicolon),
        ("!", Token::Not),
        ("(", Token::ParenthesisOpening),
        (")", Token::ParenthesisClosing),
        ("{", Token::CurlyOpening),
        ("}", Token::CurlyClosing),
        ("*", Token::OperatorMultiplication),
        ("*=", Token::OperatorMultiplyBy),
        ("/", Token::OperatorDivision),
        ("/=", Token::OperatorDivideBy),
        ("+", Token::OperatorAddition),
        ("++", Token::OperatorIncrement),
        ("+=", Token::OperatorIncreaseBy),
        ("-", Token::OperatorSubtraction),
        ("--", Token::OperatorDecrement),
        ("-=", Token::OperatorDecreaseBy),
        ("=", Token::OperatorAssignment),
        ("==", Token::OperatorEqual),
        ("!=", Token::OperatorNotEqual),
        ("<", Token::OperatorLessThan),
        ("<=", Token::OperatorLessThanOrEqual),
        (">", Token::OperatorGreaterThan),
        (">=", Token::OperatorGreaterThanOrEqual),
    ];
    for (text, token) in cases {
        let result = lex(text);
        assert!(result.is_ok());
        assert_eq!(result.unwrap(), vec![token, Token::EOF]);
    }
}

#[test]
fn it_rejects_a_character_no_state_accepts() {
    match lex("a ? b") {
        Err(CompileError::UnexpectedCharacter { character, .. }) => assert_eq!(character, '?'),
        other => panic!("expected an unexpected-character error, got {:?}", other),
    }
}

#[test]
fn it_rejects_a_dangling_period() {
    match lex("12. ") {
        Err(CompileError::UnexpectedCharacter { character, .. }) => assert_eq!(character, ' '),
        other => panic!("expected an unexpected-character error, got {:?}", other),
    }
}

#[test]
fn it_rejects_a_second_period_in_a_number() {
    match lex("12.3.4") {
        Err(CompileError::UnexpectedCharacter { character, .. }) => assert_eq!(character, '.'),
        other => panic!("expected an unexpected-character error, got {:?}", other),
    }
}

#[test]
fn it_rejects_an_unclassifiable_word() {
    // the letter is alphabetic, so the machine accumulates it, but the
    // committed word matches no keyword, numeral or ASCII identifier
    match lex("\u{e9}") {
        Err(CompileError::InvalidToken { text }) => assert_eq!(text, "\u{e9}"),
        other => panic!("expected an invalid-token error, got {:?}", other),
    }
}

#[test]
fn it_commits_an_operator_before_a_single_character_token() {
    // in an operator state, a following digit or letter is committed as
    // a one-character token of its own
    assert_input_tokenizes_as(
        String::from("-ab"),
        vec![
            Token::OperatorSubtraction,
            Token::Identifier("a".into()),
            Token::Identifier("b".into()),
            Token::EOF,
        ],
    );
}
