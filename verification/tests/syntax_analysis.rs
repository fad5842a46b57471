use minicompiler::abstract_syntax_tree::{
    Ast, BinaryOperation, Constant, Relation, SyntaxComponent, Type, UnaryOperation,
};
use minicompiler::errors::CompileError;
use minicompiler::syntax_analysis::syntax_analysis;
use minicompiler::token::Token;

fn node(component: SyntaxComponent, children: Vec<Ast>) -> Ast {
    Ast { component, children }
}

fn leaf(component: SyntaxComponent) -> Ast {
    Ast { component, children: vec![] }
}

fn number(text: &str) -> Ast {
    leaf(SyntaxComponent::Constant(Constant::Number(text.to_string())))
}

fn identifier(name: &str) -> Ast {
    leaf(SyntaxComponent::Identifier(name.to_string()))
}

fn assert_tokens_parse_to(tokens: Vec<Token>, expected: Ast) {
    let result = syntax_analysis(&tokens);
    assert!(result.is_ok());
    assert_eq!(result.unwrap(), expected);
}

#[test]
fn it_parses_if_statements() {
    // if (i == 0) {}
    let tokens = vec![
        Token::If,
        Token::ParenthesisOpening,
        Token::Identifier("i".into()),
        Token::OperatorEqual,
        Token::Constant("0".into()),
        Token::ParenthesisClosing,
        Token::CurlyOpening,
        Token::CurlyClosing,
        Token::EOF,
    ];

    let expected = node(
        SyntaxComponent::Sequence,
        vec![
            node(
                SyntaxComponent::If,
                vec![
                    node(
                        SyntaxComponent::Relation(Relation::EqualTo),
                        vec![identifier("i"), number("0")],
                    ),
                    leaf(SyntaxComponent::Sequence),
                ],
            ),
        ],
    );

    assert_tokens_parse_to(tokens, expected);
}

#[test]
fn it_parses_for_statements() {
    // for (i = 0; i < 100; i++) {}
    let tokens = vec![
        Token::For,
        Token::ParenthesisOpening,
        Token::Identifier("i".into()),
        Token::OperatorEqual,
        Token::Constant("0".into()),
        Token::Semicolon,
        Token::Identifier("i".into()),
        Token::OperatorLessThan,
        Token::Constant("100".into()),
        Token::Semicolon,
        Token::Identifier("i".into()),
        Token::OperatorIncrement,
        Token::ParenthesisClosing,
        Token::CurlyOpening,
        Token::CurlyClosing,
        Token::EOF,
    ];

    let expected = node(
        SyntaxComponent::Sequence,
        vec![
            node(
                SyntaxComponent::For,
                vec![
                    node(
                        SyntaxComponent::Relation(Relation::EqualTo),
                        vec![identifier("i"), number("0")],
                    ),
                    node(
                        SyntaxComponent::Relation(Relation::LessThan),
                        vec![identifier("i"), number("100")],
                    ),
                    node(
                        SyntaxComponent::UnaryOperation(UnaryOperation::Increment),
                        vec![identifier("i")],
                    ),
                    leaf(SyntaxComponent::Sequence),
                ],
            ),
        ],
    );

    assert_tokens_parse_to(tokens, expected);
}

#[test]
fn it_parses_block_statements() {
    // { i = 0; j = 1; j++; }
    let tokens = vec![
        Token::CurlyOpening,
        Token::Identifier("i".into()),
        Token::OperatorAssignment,
        Token::Constant("0".into()),
        Token::Semicolon,
        Token::Identifier("j".into()),
        Token::OperatorAssignment,
        Token::Constant("1".into()),
        Token::Semicolon,
        Token::Identifier("j".into()),
        Token::OperatorIncrement,
        Token::Semicolon,
        Token::CurlyClosing,
        Token::EOF,
    ];

    let expected = node(
        SyntaxComponent::Sequence,
        vec![
            node(
                SyntaxComponent::Sequence,
                vec![
                    node(
                        SyntaxComponent::Assignment,
                        vec![identifier("i"), number("0")],
                    ),
                    node(
                        SyntaxComponent::Assignment,
                        vec![identifier("j"), number("1")],
                    ),
                    node(
                        SyntaxComponent::UnaryOperation(UnaryOperation::Increment),
                        vec![identifier("j")],
                    ),
                ],
            ),
        ],
    );

    assert_tokens_parse_to(tokens, expected);
}

#[test]
fn it_keeps_operator_precedence() {
    // i = 1 + 2 * 3 / 4 + 5 * 6 - j--;
    let tokens = vec![
        Token::Identifier("i".into()),
        Token::OperatorAssignment,
        Token::Constant("1".into()),
        Token::OperatorAddition,
        Token::Constant("2".into()),
        Token::OperatorMultiplication,
        Token::Constant("3".into()),
        Token::OperatorDivision,
        Token::Constant("4".into()),
        Token::OperatorAddition,
        Token::Constant("5".into()),
        Token::OperatorMultiplication,
        Token::Constant("6".into()),
        Token::OperatorSubtraction,
        Token::Identifier("j".into()),
        Token::OperatorDecrement,
        Token::Semicolon,
        Token::EOF,
    ];

    let expected = node(
        SyntaxComponent::Sequence,
        vec![
            node(
                SyntaxComponent::Assignment,
                vec![
                    identifier("i"),
                    node(
                        SyntaxComponent::BinaryOperation(BinaryOperation::Add),
                        vec![
                            number("1"),
                            node(
                                SyntaxComponent::BinaryOperation(BinaryOperation::Add),
                                vec![
                                    node(
                                        SyntaxComponent::BinaryOperation(
                                            BinaryOperation::Multiply,
                                        ),
                                        vec![
                                            number("2"),
                                            node(
                                                SyntaxComponent::BinaryOperation(
                                                    BinaryOperation::Divide,
                                                ),
                                                vec![number("3"), number("4")],
                                            ),
                                        ],
                                    ),
                                    node(
                                        SyntaxComponent::BinaryOperation(
                                            BinaryOperation::Subtract,
                                        ),
                                        vec![
                                            node(
                                                SyntaxComponent::BinaryOperation(
                                                    BinaryOperation::Multiply,
                                                ),
                                                vec![number("5"), number("6")],
                                            ),
                                            node(
                                                SyntaxComponent::UnaryOperation(
                                                    UnaryOperation::Decrement,
                                                ),
                                                vec![identifier("j")],
                                            ),
                                        ],
                                    ),
                                ],
                            ),
                        ],
                    ),
                ],
            ),
        ],
    );

    assert_tokens_parse_to(tokens, expected);
}

#[test]
fn it_parses_declarations_with_initializers() {
    // num x = 1 + 2;
    let tokens = vec![
        Token::NumType,
        Token::Identifier("x".into()),
        Token::OperatorAssignment,
        Token::Constant("1".into()),
        Token::OperatorAddition,
        Token::Constant("2".into()),
        Token::Semicolon,
        Token::EOF,
    ];

    let expected = node(
        SyntaxComponent::Sequence,
        vec![
            node(
                SyntaxComponent::Declaration,
                vec![
                    leaf(SyntaxComponent::Type(Type::Number)),
                    identifier("x"),
                    node(
                        SyntaxComponent::BinaryOperation(BinaryOperation::Add),
                        vec![number("1"), number("2")],
                    ),
                ],
            ),
        ],
    );

    assert_tokens_parse_to(tokens, expected);
}

#[test]
fn it_parses_declarations_without_initializers() {
    // bool flag;
    let tokens = vec![
        Token::BoolType,
        Token::Identifier("flag".into()),
        Token::Semicolon,
        Token::EOF,
    ];

    let expected = node(
        SyntaxComponent::Sequence,
        vec![
            node(
                SyntaxComponent::Declaration,
                vec![leaf(SyntaxComponent::Type(Type::Boolean)), identifier("flag")],
            ),
        ],
    );

    assert_tokens_parse_to(tokens, expected);
}

#[test]
fn it_demands_a_semicolon_after_an_expression_statement() {
    let tokens = vec![Token::Identifier("i".into()), Token::OperatorIncrement, Token::EOF];
    match syntax_analysis(&tokens) {
        Err(CompileError::UnexpectedToken { got, expected }) => {
            assert_eq!(got, Token::EOF);
            assert_eq!(expected, Token::Semicolon);
        },
        other => panic!("expected an unexpected-token error, got {:?}", other),
    }
}

#[test]
fn it_demands_an_operand_in_place_of_a_keyword() {
    // a type keyword inside an expression is not an operand
    let tokens = vec![
        Token::Identifier("i".into()),
        Token::OperatorAssignment,
        Token::NumType,
        Token::Semicolon,
        Token::EOF,
    ];
    match syntax_analysis(&tokens) {
        Err(CompileError::InvalidOperand { got }) => assert_eq!(got, Token::NumType),
        other => panic!("expected an invalid-operand error, got {:?}", other),
    }
}

#[test]
fn it_rejects_an_empty_expression() {
    let tokens = vec![
        Token::Constant("1".into()),
        Token::OperatorAddition,
        Token::Constant("2".into()),
        Token::Constant("3".into()),
        Token::Semicolon,
        Token::EOF,
    ];
    match syntax_analysis(&tokens) {
        Err(CompileError::UnexpectedEndOfExpression) => {},
        other => panic!("expected an end-of-expression error, got {:?}", other),
    }
}

#[test]
fn it_demands_an_identifier_after_a_type_keyword() {
    let tokens = vec![Token::NumType, Token::Semicolon, Token::EOF];
    match syntax_analysis(&tokens) {
        Err(CompileError::ExpectedIdentifierAfterType) => {},
        other => panic!("expected an identifier-after-type error, got {:?}", other),
    }
}

#[test]
fn it_reports_a_stream_that_ends_inside_a_block() {
    let tokens = vec![Token::CurlyOpening];
    match syntax_analysis(&tokens) {
        Err(CompileError::UnexpectedEndOfStream { expected }) => {
            assert_eq!(expected, Token::CurlyClosing);
        },
        other => panic!("expected an end-of-stream error, got {:?}", other),
    }
}

#[test]
fn it_reports_a_declaration_cut_off_after_its_identifier() {
    let tokens = vec![Token::NumType, Token::Identifier("x".into())];
    match syntax_analysis(&tokens) {
        Err(CompileError::UnexpectedEndOfDeclaration) => {},
        other => panic!("expected an end-of-declaration error, got {:?}", other),
    }
}
