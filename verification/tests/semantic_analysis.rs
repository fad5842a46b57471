use minicompiler::abstract_syntax_tree::{Ast, Constant, SyntaxComponent};
use minicompiler::errors::CompileError;
use minicompiler::lexical_analysis::lexical_analysis;
use minicompiler::semantic_analysis::{semantic_analysis, ReturnType};
use minicompiler::symbol_table::SymbolTable;
use minicompiler::syntax_analysis::syntax_analysis;

fn parse(source: &str) -> Ast {
    let characters: Vec<char> = source.chars().collect();
    let tokens = lexical_analysis(&characters).unwrap();
    syntax_analysis(&tokens).unwrap()
}

fn analyze(source: &str) -> Result<ReturnType, CompileError> {
    let ast = parse(source);
    let mut symbol_table = SymbolTable::new();
    semantic_analysis(&ast, &mut symbol_table)
}

#[test]
fn it_accepts_a_well_typed_program() {
    let result = analyze("num i = 0; for (i = 0; i < 100; i++) { num j = i + 1; j += 2; }");
    assert_eq!(result, Ok(ReturnType::Void));
}

#[test]
fn it_rejects_assigning_a_number_to_a_boolean() {
    match analyze("bool b; b = 1;") {
        Err(CompileError::AssignmentTypeMismatch { left, right }) => {
            assert_eq!(left, ReturnType::Boolean);
            assert_eq!(right, ReturnType::Number);
        },
        other => panic!("expected an assignment mismatch, got {:?}", other),
    }
}

#[test]
fn it_rejects_a_boolean_declaration_initialized_with_a_number() {
    match analyze("bool b = 1;") {
        Err(CompileError::DeclarationTypeMismatch { expected, value }) => {
            assert_eq!(expected, ReturnType::Boolean);
            assert_eq!(value, ReturnType::Number);
        },
        other => panic!("expected a declaration mismatch, got {:?}", other),
    }
}

#[test]
fn it_rejects_an_undeclared_identifier() {
    match analyze("x = 2;") {
        Err(CompileError::UndeclaredIdentifier { name }) => assert_eq!(name, "x"),
        other => panic!("expected an undeclared-identifier error, got {:?}", other),
    }
}

#[test]
fn it_rejects_a_numeric_condition_in_an_if() {
    match analyze("num i = 1; if (i + 1) i = 2;") {
        Err(CompileError::IfConditionNotBoolean) => {},
        other => panic!("expected a non-boolean if condition error, got {:?}", other),
    }
}

#[test]
fn it_rejects_a_numeric_condition_in_a_for() {
    match analyze("num i = 0; for (i = 0; i + 1; i++) {}") {
        Err(CompileError::ForConditionNotBoolean) => {},
        other => panic!("expected a non-boolean for condition error, got {:?}", other),
    }
}

#[test]
fn it_keeps_block_declarations_local() {
    // the block's clone of the table dies with the block
    match analyze("{ num x = 1; } x = 2;") {
        Err(CompileError::UndeclaredIdentifier { name }) => assert_eq!(name, "x"),
        other => panic!("expected an undeclared-identifier error, got {:?}", other),
    }
}

#[test]
fn it_lets_outer_declarations_reach_into_blocks() {
    assert_eq!(analyze("num x = 1; { x = 2; }"), Ok(ReturnType::Void));
}

#[test]
fn it_rejects_arithmetic_on_booleans() {
    match analyze("bool a; bool b; a + b;") {
        Err(CompileError::BinaryOperandsNotNumbers) => {},
        other => panic!("expected a non-number operand error, got {:?}", other),
    }
}

#[test]
fn it_rejects_comparing_a_number_with_a_boolean() {
    match analyze("num i = 1; bool b; if (i == b) {}") {
        Err(CompileError::RelationTypeMismatch { left, right }) => {
            assert_eq!(left, ReturnType::Number);
            assert_eq!(right, ReturnType::Boolean);
        },
        other => panic!("expected a relation mismatch, got {:?}", other),
    }
}

#[test]
fn it_rejects_incrementing_a_boolean() {
    match analyze("bool b; b++;") {
        Err(CompileError::MutatedNonNumber) => {},
        other => panic!("expected a mutated-non-number error, got {:?}", other),
    }
}

#[test]
fn it_rejects_negating_a_number() {
    match analyze("num i = 1; bool b = !i;") {
        Err(CompileError::NegatedNonBoolean) => {},
        other => panic!("expected a negated-non-boolean error, got {:?}", other),
    }
}

#[test]
fn it_rejects_assigning_to_a_constant() {
    match analyze("1 = 2;") {
        Err(CompileError::AssignmentTargetNotIdentifier { got }) => {
            assert_eq!(got, SyntaxComponent::Constant(Constant::Number("1".to_string())));
        },
        other => panic!("expected a non-identifier target error, got {:?}", other),
    }
}

#[test]
fn it_rejects_a_node_with_too_many_children() {
    // a hand-built leaf with a stray child is a structural error
    let stray = Ast {
        component: SyntaxComponent::Constant(Constant::Number("1".to_string())),
        children: vec![
            Ast {
                component: SyntaxComponent::Null,
                children: vec![],
            },
        ],
    };
    let mut symbol_table = SymbolTable::new();
    assert_eq!(
        semantic_analysis(&stray, &mut symbol_table),
        Err(CompileError::TooManyChildren),
    );
}

#[test]
fn it_types_a_negation_as_boolean() {
    assert_eq!(analyze("bool b; bool c = !b;"), Ok(ReturnType::Void));
}
