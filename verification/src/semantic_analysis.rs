//! Semantic analysis: a single pass that computes a return type for each
//! node and enforces the typing rules under lexical scoping. Entering a
//! `Sequence` copies the symbol table, so a block's declarations are
//! dropped when the block ends.

use vstd::prelude::*;

use crate::abstract_syntax_tree::{Ast, Constant, SyntaxComponent, Type, UnaryOperation};
use crate::errors::{CompileError, ErrorV};
use crate::symbol_table::{DataType, Symbol, SymbolTable, SymbolV};

verus! {

/// The type that a node evaluates to.
#[derive(Debug, Clone, Copy, PartialEq, Eq, Structural)]
pub enum ReturnType {
    Boolean,
    Number,
    Void,
}

/// The map a symbol table stands for during semantic analysis.
pub type SemMap = Map<Seq<char>, SymbolV>;

/// The return type a recorded data type gives an identifier.
pub open spec fn spec_type_of_symbol(s: SymbolV) -> ReturnType {
    match s.data_type {
        DataType::Number => ReturnType::Number,
        DataType::Boolean => ReturnType::Boolean,
    }
}

/// Analyses the children of a `Sequence` in order against the block's
/// own copy of the table, stopping at the first error.
pub open spec fn spec_analyze_sequence(children: Seq<Ast>, m: SemMap, i: int) -> (Result<
    (),
    ErrorV,
>, SemMap)
    decreases children, children.len() - i,
{
    if i < 0 || i >= children.len() {
        (Ok(()), m)
    } else {
        let (r, m1) = spec_analyze(children[i], m);
        match r {
            Ok(_) => spec_analyze_sequence(children, m1, i + 1),
            Err(e) => (Err(e), m1),
        }
    }
}

/// What semantic analysis yields for one node: its return type or the
/// first violation, together with the table it leaves behind.
pub open spec fn spec_analyze(a: Ast, m: SemMap) -> (Result<ReturnType, ErrorV>, SemMap)
    decreases a, 0int,
{
    let children = a.children@;
    match a.component {
        SyntaxComponent::If => {
            if children.len() < 1 {
                (Err(ErrorV::MissingChild { parent: a.component@ }), m)
            } else {
                let (condition_r, m1) = spec_analyze(children[0], m);
                match condition_r {
                    Err(e) => (Err(e), m1),
                    Ok(condition_type) => {
                        if condition_type != ReturnType::Boolean {
                            (Err(ErrorV::IfConditionNotBoolean), m1)
                        } else if children.len() < 2 {
                            (Err(ErrorV::MissingChild { parent: a.component@ }), m1)
                        } else {
                            let (body_r, m2) = spec_analyze(children[1], m1);
                            match body_r {
                                Err(e) => (Err(e), m2),
                                Ok(_) => {
                                    if children.len() > 2 {
                                        (Err(ErrorV::TooManyChildren), m2)
                                    } else {
                                        (Ok(ReturnType::Void), m2)
                                    }
                                },
                            }
                        }
                    },
                }
            }
        },
        SyntaxComponent::For => {
            if children.len() < 1 {
                (Err(ErrorV::MissingChild { parent: a.component@ }), m)
            } else {
                let (pre_r, m1) = spec_analyze(children[0], m);
                match pre_r {
                    Err(e) => (Err(e), m1),
                    Ok(pre_type) => {
                        if pre_type != ReturnType::Void {
                            (Err(ErrorV::ForPreLoopNotVoid), m1)
                        } else if children.len() < 2 {
                            (Err(ErrorV::MissingChild { parent: a.component@ }), m1)
                        } else {
                            let (condition_r, m2) = spec_analyze(children[1], m1);
                            match condition_r {
                                Err(e) => (Err(e), m2),
                                Ok(condition_type) => {
                                    if condition_type != ReturnType::Boolean {
                                        (Err(ErrorV::ForConditionNotBoolean), m2)
                                    } else if children.len() < 3 {
                                        (Err(ErrorV::MissingChild { parent: a.component@ }), m2)
                                    } else {
                                        let (post_r, m3) = spec_analyze(children[2], m2);
                                        match post_r {
                                            Err(e) => (Err(e), m3),
                                            Ok(post_type) => {
                                                if post_type != ReturnType::Void {
                                                    (Err(ErrorV::ForPostLoopNotVoid), m3)
                                                } else if children.len() < 4 {
                                                    (
                                                        Err(
                                                            ErrorV::MissingChild {
                                                                parent: a.component@,
                                                            },
                                                        ),
                                                        m3,
                                                    )
                                                } else {
                                                    let (body_r, m4) = spec_analyze(
                                                        children[3],
                                                        m3,
                                                    );
                                                    match body_r {
                                                        Err(e) => (Err(e), m4),
                                                        Ok(body_type) => {
                                                            if body_type != ReturnType::Void {
                                                                (Err(ErrorV::ForBodyNotVoid), m4)
                                                            } else if children.len() > 4 {
                                                                (
                                                                    Err(ErrorV::TooManyChildren),
                                                                    m4,
                                                                )
                                                            } else {
                                                                (Ok(ReturnType::Void), m4)
                                                            }
                                                        },
                                                    }
                                                }
                                            },
                                        }
                                    }
                                },
                            }
                        }
                    },
                }
            }
        },
        SyntaxComponent::Null => {
            if children.len() == 0 {
                (Ok(ReturnType::Void), m)
            } else {
                (Err(ErrorV::TooManyChildren), m)
            }
        },
        SyntaxComponent::Sequence => {
            // the block works on its own copy; the outer table is kept
            let (r, _) = spec_analyze_sequence(children, m, 0);
            match r {
                Ok(_) => (Ok(ReturnType::Void), m),
                Err(e) => (Err(e), m),
            }
        },
        SyntaxComponent::Assignment => {
            if children.len() < 1 {
                (Err(ErrorV::MissingChild { parent: a.component@ }), m)
            } else if !(children[0].component is Identifier) {
                (
                    Err(
                        ErrorV::AssignmentTargetNotIdentifier {
                            got: children[0].component@,
                        },
                    ),
                    m,
                )
            } else {
                let (left_r, m1) = spec_analyze(children[0], m);
                match left_r {
                    Err(e) => (Err(e), m1),
                    Ok(left_type) => {
                        if children.len() < 2 {
                            (Err(ErrorV::MissingChild { parent: a.component@ }), m1)
                        } else {
                            let (right_r, m2) = spec_analyze(children[1], m1);
                            match right_r {
                                Err(e) => (Err(e), m2),
                                Ok(right_type) => {
                                    if children.len() > 2 {
                                        (Err(ErrorV::TooManyChildren), m2)
                                    } else if left_type != right_type {
                                        (
                                            Err(
                                                ErrorV::AssignmentTypeMismatch {
                                                    left: left_type,
                                                    right: right_type,
                                                },
                                            ),
                                            m2,
                                        )
                                    } else {
                                        (Ok(ReturnType::Void), m2)
                                    }
                                },
                            }
                        }
                    },
                }
            }
        },
        SyntaxComponent::Relation(_) => {
            if children.len() < 1 {
                (Err(ErrorV::MissingChild { parent: a.component@ }), m)
            } else {
                let (left_r, m1) = spec_analyze(children[0], m);
                match left_r {
                    Err(e) => (Err(e), m1),
                    Ok(left_type) => {
                        if children.len() < 2 {
                            (Err(ErrorV::MissingChild { parent: a.component@ }), m1)
                        } else {
                            let (right_r, m2) = spec_analyze(children[1], m1);
                            match right_r {
                                Err(e) => (Err(e), m2),
                                Ok(right_type) => {
                                    if children.len() > 2 {
                                        (Err(ErrorV::TooManyChildren), m2)
                                    } else if left_type != right_type {
                                        (
                                            Err(
                                                ErrorV::RelationTypeMismatch {
                                                    left: left_type,
                                                    right: right_type,
                                                },
                                            ),
                                            m2,
                                        )
                                    } else {
                                        (Ok(ReturnType::Boolean), m2)
                                    }
                                },
                            }
                        }
                    },
                }
            }
        },
        SyntaxComponent::BinaryOperation(_) => {
            if children.len() < 1 {
                (Err(ErrorV::MissingChild { parent: a.component@ }), m)
            } else {
                let (left_r, m1) = spec_analyze(children[0], m);
                match left_r {
                    Err(e) => (Err(e), m1),
                    Ok(left_type) => {
                        if children.len() < 2 {
                            (Err(ErrorV::MissingChild { parent: a.component@ }), m1)
                        } else {
                            let (right_r, m2) = spec_analyze(children[1], m1);
                            match right_r {
                                Err(e) => (Err(e), m2),
                                Ok(right_type) => {
                                    if left_type != ReturnType::Number || right_type
                                        != ReturnType::Number {
                                        (Err(ErrorV::BinaryOperandsNotNumbers), m2)
                                    } else if children.len() > 2 {
                                        (Err(ErrorV::TooManyChildren), m2)
                                    } else {
                                        (Ok(ReturnType::Number), m2)
                                    }
                                },
                            }
                        }
                    },
                }
            }
        },
        SyntaxComponent::UnaryOperation(unary_operation) => {
            if children.len() < 1 {
                (Err(ErrorV::MissingChild { parent: a.component@ }), m)
            } else {
                let (operand_r, m1) = spec_analyze(children[0], m);
                match operand_r {
                    Err(e) => (Err(e), m1),
                    Ok(operand_type) => {
                        if children.len() > 1 {
                            (Err(ErrorV::TooManyChildren), m1)
                        } else {
                            match unary_operation {
                                UnaryOperation::Increment | UnaryOperation::Decrement => {
                                    if operand_type != ReturnType::Number {
                                        (Err(ErrorV::MutatedNonNumber), m1)
                                    } else {
                                        (Ok(ReturnType::Void), m1)
                                    }
                                },
                                UnaryOperation::Negation => {
                                    if operand_type != ReturnType::Boolean {
                                        (Err(ErrorV::NegatedNonBoolean), m1)
                                    } else {
                                        (Ok(ReturnType::Boolean), m1)
                                    }
                                },
                            }
                        }
                    },
                }
            }
        },
        SyntaxComponent::Constant(constant) => {
            if children.len() > 0 {
                (Err(ErrorV::TooManyChildren), m)
            } else {
                match constant {
                    Constant::Boolean(_) => (Ok(ReturnType::Boolean), m),
                    Constant::Number(_) => (Ok(ReturnType::Number), m),
                }
            }
        },
        SyntaxComponent::Identifier(name) => {
            if !m.contains_key(name@) {
                (Err(ErrorV::UndeclaredIdentifier { name: name@ }), m)
            } else if children.len() > 0 {
                (Err(ErrorV::TooManyChildren), m)
            } else {
                (Ok(spec_type_of_symbol(m[name@])), m)
            }
        },
        SyntaxComponent::Declaration => {
            if children.len() < 1 {
                (Err(ErrorV::MissingChild { parent: a.component@ }), m)
            } else {
                match children[0].component {
                    SyntaxComponent::Type(declared) => {
                        let expected_value_type = match declared {
                            Type::Boolean => ReturnType::Boolean,
                            Type::Number => ReturnType::Number,
                        };
                        let identifier_data_type = match declared {
                            Type::Boolean => DataType::Boolean,
                            Type::Number => DataType::Number,
                        };
                        if children.len() < 2 {
                            (Err(ErrorV::MissingChild { parent: a.component@ }), m)
                        } else {
                            let m1 = match children[1].component {
                                SyntaxComponent::Identifier(name) => m.insert(
                                    name@,
                                    SymbolV { location: None, data_type: identifier_data_type },
                                ),
                                _ => m,
                            };
                            if children.len() < 3 {
                                (Ok(ReturnType::Void), m1)
                            } else {
                                let (value_r, m2) = spec_analyze(children[2], m1);
                                match value_r {
                                    Err(e) => (Err(e), m2),
                                    Ok(value_type) => {
                                        if value_type != expected_value_type {
                                            (
                                                Err(
                                                    ErrorV::DeclarationTypeMismatch {
                                                        expected: expected_value_type,
                                                        value: value_type,
                                                    },
                                                ),
                                                m2,
                                            )
                                        } else if children.len() > 3 {
                                            (Err(ErrorV::TooManyChildren), m2)
                                        } else {
                                            (Ok(ReturnType::Void), m2)
                                        }
                                    },
                                }
                            }
                        }
                    },
                    _ => (Err(ErrorV::DeclarationTypeNotType), m),
                }
            }
        },
        SyntaxComponent::Type(_) => {
            if children.len() > 0 {
                (Err(ErrorV::TooManyChildren), m)
            } else {
                (Ok(ReturnType::Void), m)
            }
        },
    }
}


/// Block-local declarations do not leak out: analysing a `Sequence`
/// hands back the caller's table unchanged, whatever was declared
/// inside the block and whether or not the block was well-typed.
pub proof fn lemma_block_declarations_do_not_leak(a: Ast, m: SemMap)
    requires
        a.component is Sequence,
    ensures
        spec_analyze(a, m).1 == m,
{
}

fn analyze_if(abstract_syntax_tree: &Ast, symbol_table: &mut SymbolTable) -> (r: Result<
    ReturnType,
    CompileError,
>)
    requires
        abstract_syntax_tree.component is If,
    ensures
        ({
            let (spec_r, spec_m) = spec_analyze(*abstract_syntax_tree, old(symbol_table)@.map);
            spec_m == final(symbol_table)@.map && match r {
                Ok(return_type) => spec_r == Ok::<ReturnType, ErrorV>(return_type),
                Err(e) => spec_r == Err::<ReturnType, ErrorV>(e@),
            }
        }),
        final(symbol_table)@.temp_count == old(symbol_table)@.temp_count,
        final(symbol_table)@.if_count == old(symbol_table)@.if_count,
        final(symbol_table)@.for_count == old(symbol_table)@.for_count,
    decreases *abstract_syntax_tree, 0int,
{
    let ast = abstract_syntax_tree;
    let children_len = ast.children.len();
    if children_len < 1 {
        return Err(CompileError::MissingChild { parent: ast.component.duplicate() });
    }
    let condition_type = semantic_analysis(&ast.children[0], symbol_table)?;
    if condition_type != ReturnType::Boolean {
        return Err(CompileError::IfConditionNotBoolean);
    }
    if children_len < 2 {
        return Err(CompileError::MissingChild { parent: ast.component.duplicate() });
    }
    let _body_type = semantic_analysis(&ast.children[1], symbol_table)?;
    if children_len > 2 {
        return Err(CompileError::TooManyChildren);
    }
    Ok(ReturnType::Void)
}

fn analyze_for(abstract_syntax_tree: &Ast, symbol_table: &mut SymbolTable) -> (r: Result<
    ReturnType,
    CompileError,
>)
    requires
        abstract_syntax_tree.component is For,
    ensures
        ({
            let (spec_r, spec_m) = spec_analyze(*abstract_syntax_tree, old(symbol_table)@.map);
            spec_m == final(symbol_table)@.map && match r {
                Ok(return_type) => spec_r == Ok::<ReturnType, ErrorV>(return_type),
                Err(e) => spec_r == Err::<ReturnType, ErrorV>(e@),
            }
        }),
        final(symbol_table)@.temp_count == old(symbol_table)@.temp_count,
        final(symbol_table)@.if_count == old(symbol_table)@.if_count,
        final(symbol_table)@.for_count == old(symbol_table)@.for_count,
    decreases *abstract_syntax_tree, 0int,
{
    let ast = abstract_syntax_tree;
    let children_len = ast.children.len();
    if children_len < 1 {
        return Err(CompileError::MissingChild { parent: ast.component.duplicate() });
    }
    let pre_loop_type = semantic_analysis(&ast.children[0], symbol_table)?;
    if pre_loop_type != ReturnType::Void {
        return Err(CompileError::ForPreLoopNotVoid);
    }
    if children_len < 2 {
        return Err(CompileError::MissingChild { parent: ast.component.duplicate() });
    }
    let condition_type = semantic_analysis(&ast.children[1], symbol_table)?;
    if condition_type != ReturnType::Boolean {
        return Err(CompileError::ForConditionNotBoolean);
    }
    if children_len < 3 {
        return Err(CompileError::MissingChild { parent: ast.component.duplicate() });
    }
    let post_loop_type = semantic_analysis(&ast.children[2], symbol_table)?;
    if post_loop_type != ReturnType::Void {
        return Err(CompileError::ForPostLoopNotVoid);
    }
    if children_len < 4 {
        return Err(CompileError::MissingChild { parent: ast.component.duplicate() });
    }
    let body_type = semantic_analysis(&ast.children[3], symbol_table)?;
    if body_type != ReturnType::Void {
        return Err(CompileError::ForBodyNotVoid);
    }
    if children_len > 4 {
        return Err(CompileError::TooManyChildren);
    }
    Ok(ReturnType::Void)
}

fn analyze_sequence_node(abstract_syntax_tree: &Ast, symbol_table: &mut SymbolTable) -> (r: Result<
    ReturnType,
    CompileError,
>)
    requires
        abstract_syntax_tree.component is Sequence,
    ensures
        ({
            let (spec_r, spec_m) = spec_analyze(*abstract_syntax_tree, old(symbol_table)@.map);
            spec_m == final(symbol_table)@.map && match r {
                Ok(return_type) => spec_r == Ok::<ReturnType, ErrorV>(return_type),
                Err(e) => spec_r == Err::<ReturnType, ErrorV>(e@),
            }
        }),
        final(symbol_table)@.temp_count == old(symbol_table)@.temp_count,
        final(symbol_table)@.if_count == old(symbol_table)@.if_count,
        final(symbol_table)@.for_count == old(symbol_table)@.for_count,
    decreases *abstract_syntax_tree, 0int,
{
    let ast = abstract_syntax_tree;
    let children_len = ast.children.len();
    let mut inherited_symbol_table = symbol_table.duplicate();
    let ghost m0 = old(symbol_table)@.map;
    let mut i: usize = 0;
    while i < ast.children.len()
        invariant
            ast == abstract_syntax_tree,
            i <= ast.children@.len(),
            ast.component is Sequence,
            m0 == old(symbol_table)@.map,
            symbol_table@.map == old(symbol_table)@.map,
            symbol_table@.temp_count == old(symbol_table)@.temp_count,
            symbol_table@.if_count == old(symbol_table)@.if_count,
            symbol_table@.for_count == old(symbol_table)@.for_count,
            spec_analyze_sequence(ast.children@, m0, 0) == spec_analyze_sequence(
                ast.children@,
                inherited_symbol_table@.map,
                i as int,
            ),
        decreases ast.children@.len() - i,
    {
        proof {
            assert(decreases_to!(*ast, 0int => ast.children@[i as int], 1int));
        }
        match semantic_analysis(&ast.children[i], &mut inherited_symbol_table) {
            Ok(_) => {},
            Err(e) => {
                return Err(e);
            },
        }
        i = i + 1;
    }
    Ok(ReturnType::Void)
}

fn analyze_assignment(abstract_syntax_tree: &Ast, symbol_table: &mut SymbolTable) -> (r: Result<
    ReturnType,
    CompileError,
>)
    requires
        abstract_syntax_tree.component is Assignment,
    ensures
        ({
            let (spec_r, spec_m) = spec_analyze(*abstract_syntax_tree, old(symbol_table)@.map);
            spec_m == final(symbol_table)@.map && match r {
                Ok(return_type) => spec_r == Ok::<ReturnType, ErrorV>(return_type),
                Err(e) => spec_r == Err::<ReturnType, ErrorV>(e@),
            }
        }),
        final(symbol_table)@.temp_count == old(symbol_table)@.temp_count,
        final(symbol_table)@.if_count == old(symbol_table)@.if_count,
        final(symbol_table)@.for_count == old(symbol_table)@.for_count,
    decreases *abstract_syntax_tree, 0int,
{
    let ast = abstract_syntax_tree;
    let children_len = ast.children.len();
    if children_len < 1 {
        return Err(CompileError::MissingChild { parent: ast.component.duplicate() });
    }
    if !ast.children[0].component.is_identifier() {
        return Err(
            CompileError::AssignmentTargetNotIdentifier {
                got: ast.children[0].component.duplicate(),
            },
        );
    }
    let left_side_type = semantic_analysis(&ast.children[0], symbol_table)?;
    if children_len < 2 {
        return Err(CompileError::MissingChild { parent: ast.component.duplicate() });
    }
    let right_side_type = semantic_analysis(&ast.children[1], symbol_table)?;
    if children_len > 2 {
        return Err(CompileError::TooManyChildren);
    }
    if left_side_type != right_side_type {
        Err(CompileError::AssignmentTypeMismatch { left: left_side_type, right: right_side_type })
    } else {
        Ok(ReturnType::Void)
    }
}

fn analyze_relation(abstract_syntax_tree: &Ast, symbol_table: &mut SymbolTable) -> (r: Result<
    ReturnType,
    CompileError,
>)
    requires
        abstract_syntax_tree.component is Relation,
    ensures
        ({
            let (spec_r, spec_m) = spec_analyze(*abstract_syntax_tree, old(symbol_table)@.map);
            spec_m == final(symbol_table)@.map && match r {
                Ok(return_type) => spec_r == Ok::<ReturnType, ErrorV>(return_type),
                Err(e) => spec_r == Err::<ReturnType, ErrorV>(e@),
            }
        }),
        final(symbol_table)@.temp_count == old(symbol_table)@.temp_count,
        final(symbol_table)@.if_count == old(symbol_table)@.if_count,
        final(symbol_table)@.for_count == old(symbol_table)@.for_count,
    decreases *abstract_syntax_tree, 0int,
{
    let ast = abstract_syntax_tree;
    let children_len = ast.children.len();
    if children_len < 1 {
        return Err(CompileError::MissingChild { parent: ast.component.duplicate() });
    }
    let left_side_type = semantic_analysis(&ast.children[0], symbol_table)?;
    if children_len < 2 {
        return Err(CompileError::MissingChild { parent: ast.component.duplicate() });
    }
    let right_side_type = semantic_analysis(&ast.children[1], symbol_table)?;
    if children_len > 2 {
        return Err(CompileError::TooManyChildren);
    }
    if left_side_type != right_side_type {
        Err(CompileError::RelationTypeMismatch { left: left_side_type, right: right_side_type })
    } else {
        Ok(ReturnType::Boolean)
    }
}

fn analyze_binary_operation(abstract_syntax_tree: &Ast, symbol_table: &mut SymbolTable) -> (r: Result<
    ReturnType,
    CompileError,
>)
    requires
        abstract_syntax_tree.component is BinaryOperation,
    ensures
        ({
            let (spec_r, spec_m) = spec_analyze(*abstract_syntax_tree, old(symbol_table)@.map);
            spec_m == final(symbol_table)@.map && match r {
                Ok(return_type) => spec_r == Ok::<ReturnType, ErrorV>(return_type),
                Err(e) => spec_r == Err::<ReturnType, ErrorV>(e@),
            }
        }),
        final(symbol_table)@.temp_count == old(symbol_table)@.temp_count,
        final(symbol_table)@.if_count == old(symbol_table)@.if_count,
        final(symbol_table)@.for_count == old(symbol_table)@.for_count,
    decreases *abstract_syntax_tree, 0int,
{
    let ast = abstract_syntax_tree;
    let children_len = ast.children.len();
    if children_len < 1 {
        return Err(CompileError::MissingChild { parent: ast.component.duplicate() });
    }
    let left_side_type = semantic_analysis(&ast.children[0], symbol_table)?;
    if children_len < 2 {
        return Err(CompileError::MissingChild { parent: ast.component.duplicate() });
    }
    let right_side_type = semantic_analysis(&ast.children[1], symbol_table)?;
    if left_side_type != ReturnType::Number || right_side_type != ReturnType::Number {
        return Err(CompileError::BinaryOperandsNotNumbers);
    }
    if children_len > 2 {
        return Err(CompileError::TooManyChildren);
    }
    Ok(ReturnType::Number)
}

fn analyze_unary_operation(abstract_syntax_tree: &Ast, symbol_table: &mut SymbolTable) -> (r: Result<
    ReturnType,
    CompileError,
>)
    requires
        abstract_syntax_tree.component is UnaryOperation,
    ensures
        ({
            let (spec_r, spec_m) = spec_analyze(*abstract_syntax_tree, old(symbol_table)@.map);
            spec_m == final(symbol_table)@.map && match r {
                Ok(return_type) => spec_r == Ok::<ReturnType, ErrorV>(return_type),
                Err(e) => spec_r == Err::<ReturnType, ErrorV>(e@),
            }
        }),
        final(symbol_table)@.temp_count == old(symbol_table)@.temp_count,
        final(symbol_table)@.if_count == old(symbol_table)@.if_count,
        final(symbol_table)@.for_count == old(symbol_table)@.for_count,
    decreases *abstract_syntax_tree, 0int,
{
    let ast = abstract_syntax_tree;
    let children_len = ast.children.len();
    let unary_operation = match &ast.component {
        SyntaxComponent::UnaryOperation(op) => *op,
        _ => {
            return Err(CompileError::TooManyChildren);
        },
    };
    if children_len < 1 {
        return Err(CompileError::MissingChild { parent: ast.component.duplicate() });
    }
    let operand_type = semantic_analysis(&ast.children[0], symbol_table)?;
    if children_len > 1 {
        return Err(CompileError::TooManyChildren);
    }
    match unary_operation {
        UnaryOperation::Increment | UnaryOperation::Decrement => {
            if operand_type != ReturnType::Number {
                Err(CompileError::MutatedNonNumber)
            } else {
                Ok(ReturnType::Void)
            }
        },
        UnaryOperation::Negation => {
            if operand_type != ReturnType::Boolean {
                Err(CompileError::NegatedNonBoolean)
            } else {
                Ok(ReturnType::Boolean)
            }
        },
    }
}

fn analyze_declaration(abstract_syntax_tree: &Ast, symbol_table: &mut SymbolTable) -> (r: Result<
    ReturnType,
    CompileError,
>)
    requires
        abstract_syntax_tree.component is Declaration,
    ensures
        ({
            let (spec_r, spec_m) = spec_analyze(*abstract_syntax_tree, old(symbol_table)@.map);
            spec_m == final(symbol_table)@.map && match r {
                Ok(return_type) => spec_r == Ok::<ReturnType, ErrorV>(return_type),
                Err(e) => spec_r == Err::<ReturnType, ErrorV>(e@),
            }
        }),
        final(symbol_table)@.temp_count == old(symbol_table)@.temp_count,
        final(symbol_table)@.if_count == old(symbol_table)@.if_count,
        final(symbol_table)@.for_count == old(symbol_table)@.for_count,
    decreases *abstract_syntax_tree, 0int,
{
    let ast = abstract_syntax_tree;
    let children_len = ast.children.len();
    if children_len < 1 {
        return Err(CompileError::MissingChild { parent: ast.component.duplicate() });
    }
    let declared = match &ast.children[0].component {
        SyntaxComponent::Type(t) => *t,
        _ => {
            return Err(CompileError::DeclarationTypeNotType);
        },
    };
    let expected_value_type = match declared {
        Type::Boolean => ReturnType::Boolean,
        Type::Number => ReturnType::Number,
    };
    let identifier_data_type = match declared {
        Type::Boolean => DataType::Boolean,
        Type::Number => DataType::Number,
    };
    if children_len < 2 {
        return Err(CompileError::MissingChild { parent: ast.component.duplicate() });
    }
    if let SyntaxComponent::Identifier(id_name) = &ast.children[1].component {
        symbol_table.insert(
            id_name.clone(),
            Symbol { location: None, data_type: identifier_data_type },
        );
    }
    if children_len < 3 {
        return Ok(ReturnType::Void);
    }
    let value_type = semantic_analysis(&ast.children[2], symbol_table)?;
    if value_type != expected_value_type {
        return Err(
            CompileError::DeclarationTypeMismatch {
                expected: expected_value_type,
                value: value_type,
            },
        );
    }
    if children_len > 3 {
        return Err(CompileError::TooManyChildren);
    }
    Ok(ReturnType::Void)
}

/// Semantic analysis: computes the node's return type and threads the
/// symbol table exactly as `spec_analyze` describes, or fails with the
/// first violation. The counters are untouched.
pub fn semantic_analysis(abstract_syntax_tree: &Ast, symbol_table: &mut SymbolTable) -> (r:
    Result<ReturnType, CompileError>)
    ensures
        ({
            let (spec_r, spec_m) = spec_analyze(*abstract_syntax_tree, old(symbol_table)@.map);
            spec_m == final(symbol_table)@.map && match r {
                Ok(return_type) => spec_r == Ok::<ReturnType, ErrorV>(return_type),
                Err(e) => spec_r == Err::<ReturnType, ErrorV>(e@),
            }
        }),
        final(symbol_table)@.temp_count == old(symbol_table)@.temp_count,
        final(symbol_table)@.if_count == old(symbol_table)@.if_count,
        final(symbol_table)@.for_count == old(symbol_table)@.for_count,
    decreases *abstract_syntax_tree, 1int,
{
    let ast = abstract_syntax_tree;
    let children_len = ast.children.len();
    match &ast.component {
        SyntaxComponent::If => analyze_if(ast, symbol_table),
        SyntaxComponent::For => analyze_for(ast, symbol_table),
        SyntaxComponent::Sequence => analyze_sequence_node(ast, symbol_table),
        SyntaxComponent::Assignment => analyze_assignment(ast, symbol_table),
        SyntaxComponent::Relation(_) => analyze_relation(ast, symbol_table),
        SyntaxComponent::BinaryOperation(_) => analyze_binary_operation(ast, symbol_table),
        SyntaxComponent::UnaryOperation(_) => analyze_unary_operation(ast, symbol_table),
        SyntaxComponent::Declaration => analyze_declaration(ast, symbol_table),
        SyntaxComponent::Null => {
            if children_len == 0 {
                Ok(ReturnType::Void)
            } else {
                Err(CompileError::TooManyChildren)
            }
        },
        SyntaxComponent::Constant(constant) => {
            if children_len > 0 {
                return Err(CompileError::TooManyChildren);
            }
            match constant {
                Constant::Boolean(_) => Ok(ReturnType::Boolean),
                Constant::Number(_) => Ok(ReturnType::Number),
            }
        },
        SyntaxComponent::Identifier(identifier) => {
            match symbol_table.get(identifier) {
                None => Err(CompileError::UndeclaredIdentifier { name: identifier.clone() }),
                Some(symbol) => {
                    if children_len > 0 {
                        return Err(CompileError::TooManyChildren);
                    }
                    match symbol.data_type {
                        DataType::Number => Ok(ReturnType::Number),
                        DataType::Boolean => Ok(ReturnType::Boolean),
                    }
                },
            }
        },
        SyntaxComponent::Type(_) => {
            if children_len > 0 {
                return Err(CompileError::TooManyChildren);
            }
            Ok(ReturnType::Void)
        },
    }
}

} // verus!
