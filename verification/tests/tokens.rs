use minicompiler::code_generation::{Address, Code, Instruction, ThreeAddressCode};
use minicompiler::errors::CompileError;
use minicompiler::lexeme::{Lexeme, LexemeType};
use minicompiler::symbol_table::{DataType, Symbol, SymbolTable};
use minicompiler::token::{expect_token, Token};

#[test]
fn it_accepts_the_expected_token() {
    let tokens = vec![Token::If, Token::Semicolon];
    assert_eq!(expect_token(&tokens, 0, &Token::If), Ok(1));
}

#[test]
fn it_refuses_an_unexpected_token() {
    let tokens = vec![Token::If, Token::Semicolon];
    assert_eq!(
        expect_token(&tokens, 1, &Token::CurlyOpening),
        Err(CompileError::UnexpectedToken { got: Token::Semicolon, expected: Token::CurlyOpening }),
    );
}

#[test]
fn it_refuses_an_exhausted_stream() {
    let tokens = vec![Token::If];
    assert_eq!(
        expect_token(&tokens, 1, &Token::Semicolon),
        Err(CompileError::UnexpectedEndOfStream { expected: Token::Semicolon }),
    );
}

#[test]
fn it_tells_binary_operators_from_unary_ones() {
    assert!(Token::OperatorAssignment.is_binary_operator());
    assert!(Token::OperatorAddition.is_binary_operator());
    assert!(Token::OperatorEqual.is_binary_operator());
    assert!(!Token::OperatorIncrement.is_binary_operator());
    assert!(!Token::OperatorDecrement.is_binary_operator());
    assert!(!Token::Not.is_binary_operator());
}

#[test]
fn it_records_and_finds_symbols() {
    let mut table = SymbolTable::new();
    assert!(table.get(&"x".to_string()).is_none());
    let previous = table.insert(
        "x".to_string(),
        Symbol { location: None, data_type: DataType::Number },
    );
    assert!(previous.is_none());
    let found = table.get(&"x".to_string()).unwrap();
    assert_eq!(found.data_type, DataType::Number);
    let replaced = table.insert(
        "x".to_string(),
        Symbol { location: Some(Address::Temp(1)), data_type: DataType::Boolean },
    );
    assert_eq!(replaced.unwrap().data_type, DataType::Number);
    let found = table.get(&"x".to_string()).unwrap();
    assert_eq!(found.location, Some(Address::Temp(1)));
}

#[test]
fn it_draws_monotonic_counters() {
    let mut table = SymbolTable::new();
    assert_eq!(table.new_temp(), 1);
    assert_eq!(table.new_temp(), 2);
    assert_eq!(table.new_if(), 1);
    assert_eq!(table.new_for(), 1);
    assert_eq!(table.new_temp(), 3);
}

#[test]
fn it_copies_a_table_without_sharing_it() {
    let mut outer = SymbolTable::new();
    outer.insert("x".to_string(), Symbol { location: None, data_type: DataType::Number });
    let mut inner = outer.duplicate();
    inner.insert("y".to_string(), Symbol { location: None, data_type: DataType::Boolean });
    assert!(inner.get(&"x".to_string()).is_some());
    assert!(inner.get(&"y".to_string()).is_some());
    assert!(outer.get(&"y".to_string()).is_none());
}

#[test]
fn it_hands_out_the_result_address_of_an_instruction() {
    let entry = Code::ThreeAddress(ThreeAddressCode {
        instruction: Instruction::Addition,
        operand_1: Address::Constant("1".to_string()),
        operand_2: Some(Address::Constant("2".to_string())),
        result: Address::Temp(7),
    });
    assert_eq!(entry.try_get_result_address(), Ok(Address::Temp(7)));
    let jump = Code::Jump(minicompiler::code_generation::Label {
        kind: minicompiler::code_generation::LabelKind::IfBefore,
        id: 1,
    });
    assert_eq!(jump.try_get_result_address(), Err(CompileError::NoResultAddress));
}

#[test]
fn it_classifies_single_character_lexemes() {
    let plus = Lexeme { lexeme_type: LexemeType::OperatorAddition, value: '+' };
    assert_eq!(plus.value, '+');
    assert_eq!(plus.lexeme_type, LexemeType::OperatorAddition);
    let digit = Lexeme { lexeme_type: LexemeType::Constant, value: '7' };
    assert_eq!(digit.lexeme_type, LexemeType::Constant);
}
