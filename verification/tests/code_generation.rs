use minicompiler::abstract_syntax_tree::{Ast, Constant, SyntaxComponent};
use minicompiler::code_generation::{
    intermediate_code_generation, Address, Code, Instruction, Label, LabelKind, ThreeAddressCode,
};
use minicompiler::errors::CompileError;
use minicompiler::lexical_analysis::lexical_analysis;
use minicompiler::semantic_analysis::semantic_analysis;
use minicompiler::symbol_table::SymbolTable;
use minicompiler::syntax_analysis::syntax_analysis;

fn compile(source: &str) -> Result<Vec<Code>, CompileError> {
    let characters: Vec<char> = source.chars().collect();
    let tokens = lexical_analysis(&characters)?;
    let ast = syntax_analysis(&tokens)?;
    let mut semantic_table = SymbolTable::new();
    semantic_analysis(&ast, &mut semantic_table)?;
    let mut generation_table = SymbolTable::new();
    intermediate_code_generation(&ast, &mut generation_table)
}

fn three_address(
    instruction: Instruction,
    operand_1: Address,
    operand_2: Option<Address>,
    result: Address,
) -> Code {
    Code::ThreeAddress(ThreeAddressCode { instruction, operand_1, operand_2, result })
}

fn constant(text: &str) -> Address {
    Address::Constant(text.to_string())
}

#[test]
fn it_lowers_a_declaration_with_an_initializer() {
    // num x = 1 + 2; the sum lands in the first temporary, and the
    // second becomes x's storage
    let code = compile("num x = 1 + 2;").unwrap();
    assert_eq!(
        code,
        vec![
            three_address(
                Instruction::Addition,
                constant("1"),
                Some(constant("2")),
                Address::Temp(1),
            ),
            three_address(Instruction::Copy, Address::Temp(1), None, Address::Temp(2)),
        ],
    );
}

#[test]
fn it_lowers_an_if_statement() {
    // if (i == 0) i = 1;
    let code = compile("num i; if (i == 0) i = 1;").unwrap();
    let after = Label { kind: LabelKind::IfBefore, id: 1 };
    assert_eq!(
        code,
        vec![
            three_address(
                Instruction::Equal,
                Address::Temp(1),
                Some(constant("0")),
                Address::Temp(2),
            ),
            Code::JumpIfFalse(Address::Temp(2), after),
            three_address(Instruction::Copy, constant("1"), None, Address::Temp(1)),
            Code::Label(after),
        ],
    );
}

#[test]
fn it_lowers_a_for_statement_with_its_body_once() {
    // for (i = 0; i < 2; i++) i = i - 1; with i declared first
    let code = compile("num i; for (i = 0; i < 2; i++) i = i - 1;").unwrap();
    let before = Label { kind: LabelKind::ForBefore, id: 1 };
    let after = Label { kind: LabelKind::ForAfter, id: 1 };
    let storage = Address::Temp(1);
    assert_eq!(
        code,
        vec![
            // pre-loop: i = 0
            three_address(Instruction::Copy, constant("0"), None, storage.clone()),
            Code::Label(before),
            // condition: i < 2
            three_address(
                Instruction::LessThan,
                storage.clone(),
                Some(constant("2")),
                Address::Temp(2),
            ),
            Code::JumpIfFalse(Address::Temp(2), after),
            // body: i = i - 1
            three_address(
                Instruction::Subtraction,
                storage.clone(),
                Some(constant("1")),
                Address::Temp(3),
            ),
            three_address(Instruction::Copy, Address::Temp(3), None, storage.clone()),
            // post-loop: i++
            three_address(
                Instruction::Addition,
                storage.clone(),
                Some(constant("1")),
                storage.clone(),
            ),
            Code::Jump(before),
            Code::Label(after),
        ],
    );
}

#[test]
fn it_lowers_booleans_to_one_and_zero() {
    let code = compile("bool b = true; bool c = false;").unwrap();
    assert_eq!(
        code,
        vec![
            three_address(Instruction::Copy, constant("1"), None, Address::Temp(1)),
            three_address(Instruction::Copy, constant("0"), None, Address::Temp(2)),
        ],
    );
}

#[test]
fn it_lowers_a_negation_into_a_fresh_temporary() {
    let code = compile("bool b; bool c = !b;").unwrap();
    assert_eq!(
        code,
        vec![
            three_address(Instruction::Negation, Address::Temp(1), None, Address::Temp(2)),
            three_address(Instruction::Copy, Address::Temp(2), None, Address::Temp(3)),
        ],
    );
}

#[test]
fn it_lowers_compound_assignments_onto_their_target() {
    let code = compile("num i = 4; i += 2; i -= 3;").unwrap();
    let storage = Address::Temp(1);
    assert_eq!(
        code,
        vec![
            three_address(Instruction::Copy, constant("4"), None, storage.clone()),
            three_address(
                Instruction::Addition,
                storage.clone(),
                Some(constant("2")),
                storage.clone(),
            ),
            three_address(
                Instruction::Subtraction,
                storage.clone(),
                Some(constant("3")),
                storage.clone(),
            ),
        ],
    );
}

#[test]
fn it_lowers_a_multiply_by_onto_its_target() {
    // `*=` has no place in the expression parser's precedence bands,
    // but the generator lowers the node to a multiplication in place
    let target = Ast { component: SyntaxComponent::Identifier("x".to_string()), children: vec![] };
    let two = Ast {
        component: SyntaxComponent::Constant(Constant::Number("2".to_string())),
        children: vec![],
    };
    let node = Ast {
        component: SyntaxComponent::BinaryOperation(
            minicompiler::abstract_syntax_tree::BinaryOperation::MultiplyBy,
        ),
        children: vec![target, two],
    };
    let mut table = SymbolTable::new();
    table.new_temp();
    table.insert(
        "x".to_string(),
        minicompiler::symbol_table::Symbol {
            location: Some(Address::Temp(1)),
            data_type: minicompiler::symbol_table::DataType::Number,
        },
    );
    assert_eq!(
        intermediate_code_generation(&node, &mut table),
        Ok(vec![
            three_address(
                Instruction::Multiplication,
                Address::Temp(1),
                Some(constant("2")),
                Address::Temp(1),
            ),
        ]),
    );
}

#[test]
fn it_numbers_every_label_and_temporary_once() {
    // two ifs and two fors draw distinct label numbers; every label is
    // laid down once and jumped to once
    let code = compile(
        "num i; if (i == 0) i = 1; if (i == 1) i = 2; \
         for (i = 0; i < 2; i++) {} for (i = 0; i < 3; i++) {}",
    )
    .unwrap();
    let mut laid_down: Vec<Label> = vec![];
    let mut jumped_to: Vec<Label> = vec![];
    for entry in &code {
        match entry {
            Code::Label(label) => {
                assert!(!laid_down.contains(label));
                laid_down.push(*label);
            },
            Code::Jump(label) => jumped_to.push(*label),
            Code::JumpIfFalse(_, label) => jumped_to.push(*label),
            Code::ThreeAddress(_) => {},
        }
    }
    laid_down.sort();
    jumped_to.sort();
    assert_eq!(laid_down, jumped_to);
    assert_eq!(laid_down.len(), 6);
}

#[test]
fn it_keeps_temporaries_fresh_across_blocks() {
    // the counters are adopted back when a block ends, so the second
    // block's storage does not reuse the first block's temporary
    let code = compile("{ num x = 1; } { num y = 2; }").unwrap();
    assert_eq!(
        code,
        vec![
            three_address(Instruction::Copy, constant("1"), None, Address::Temp(1)),
            three_address(Instruction::Copy, constant("2"), None, Address::Temp(2)),
        ],
    );
}

#[test]
fn it_refuses_a_bare_constant_as_a_statement() {
    match compile("4;") {
        Err(CompileError::NotAStatement { component }) => {
            assert_eq!(component, SyntaxComponent::Constant(Constant::Number("4".to_string())));
        },
        other => panic!("expected a not-a-statement error, got {:?}", other),
    }
}

#[test]
fn it_refuses_a_condition_that_produces_no_code() {
    // a bare identifier condition emits no instruction whose result a
    // jump could test; the type checker does not see it either way
    let condition = Ast {
        component: SyntaxComponent::Identifier("b".to_string()),
        children: vec![],
    };
    let body = Ast { component: SyntaxComponent::Sequence, children: vec![] };
    let if_node = Ast { component: SyntaxComponent::If, children: vec![condition, body] };
    let mut table = SymbolTable::new();
    table.new_temp();
    table.insert(
        "b".to_string(),
        minicompiler::symbol_table::Symbol {
            location: Some(Address::Temp(1)),
            data_type: minicompiler::symbol_table::DataType::Boolean,
        },
    );
    assert_eq!(
        intermediate_code_generation(&if_node, &mut table),
        Err(CompileError::EmptyConditionCode),
    );
}

#[test]
fn it_refuses_to_mutate_a_constant() {
    let target = Ast {
        component: SyntaxComponent::Constant(Constant::Number("1".to_string())),
        children: vec![],
    };
    let increment = Ast {
        component: SyntaxComponent::UnaryOperation(
            minicompiler::abstract_syntax_tree::UnaryOperation::Increment,
        ),
        children: vec![target],
    };
    let mut table = SymbolTable::new();
    assert_eq!(
        intermediate_code_generation(&increment, &mut table),
        Err(CompileError::MutationTargetNotIdentifier),
    );
}

#[test]
fn it_reports_an_identifier_without_storage() {
    let lone = Ast { component: SyntaxComponent::Identifier("q".to_string()), children: vec![] };
    let mut table = SymbolTable::new();
    match intermediate_code_generation(&lone, &mut table) {
        Err(CompileError::UnallocatedIdentifier { name }) => assert_eq!(name, "q"),
        other => panic!("expected an unallocated-identifier error, got {:?}", other),
    }
}
