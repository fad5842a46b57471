//! Statement parsing by recursive descent: `for`, `if`, blocks,
//! declarations, and optional expression statements.

use vstd::prelude::*;

use crate::abstract_syntax_tree::{
    ast_leaf, ast_view, asts_view, lemma_asts_view_push, Ast, AstV, SyntaxComponent,
    SyntaxComponentV, Type,
};
use crate::errors::{CompileError, ErrorV};
use crate::expression::{
    parse_expression, spec_parse_expression, spec_token_concludes_expression,
};
use crate::token::{expect_token, spec_expect_token, token_eq, Token, TokenV};

verus! {

/// What parsing an optional expression yields: a `Null` leaf, consuming
/// nothing, exactly when the stream is exhausted or the next token is
/// `;`, `)` or `EOF`; otherwise the expression that starts here.
pub open spec fn spec_parse_optional_expression(tokens: Seq<Token>, pos: int) -> Result<
    (AstV, int),
    ErrorV,
> {
    if !(0 <= pos < tokens.len()) {
        Ok((AstV { component: SyntaxComponentV::Null, children: Seq::empty() }, pos))
    } else if spec_token_concludes_expression(tokens[pos]@) {
        Ok((AstV { component: SyntaxComponentV::Null, children: Seq::empty() }, pos))
    } else {
        spec_parse_expression(tokens, pos)
    }
}

/// What parsing an `if` statement yields: an `If` node whose children
/// are the condition and the body.
pub open spec fn spec_parse_if(tokens: Seq<Token>, pos: int) -> Result<(AstV, int), ErrorV>
    decreases tokens.len() - pos, 2int,
{
    match spec_expect_token(tokens, pos, Token::If) {
        Ok(p1) => match spec_expect_token(tokens, p1, Token::ParenthesisOpening) {
            Ok(p2) => match spec_parse_expression(tokens, p2) {
                Ok((condition, p3)) => {
                    if !(p2 < p3 <= tokens.len()) {
                        Err(ErrorV::UnexpectedEndOfInput)
                    } else {
                        match spec_expect_token(tokens, p3, Token::ParenthesisClosing) {
                            Ok(p4) => match spec_parse_statement(tokens, p4) {
                                Ok((body, p5)) => Ok(
                                    (
                                        AstV {
                                            component: SyntaxComponentV::If,
                                            children: seq![condition, body],
                                        },
                                        p5,
                                    ),
                                ),
                                Err(e) => Err(e),
                            },
                            Err(e) => Err(e),
                        }
                    }
                },
                Err(e) => Err(e),
            },
            Err(e) => Err(e),
        },
        Err(e) => Err(e),
    }
}

/// What parsing a `for` statement yields: a `For` node whose children
/// are the pre-loop expression, the condition, the post-loop expression,
/// and the body, in that order.
pub open spec fn spec_parse_for(tokens: Seq<Token>, pos: int) -> Result<(AstV, int), ErrorV>
    decreases tokens.len() - pos, 2int,
{
    match spec_expect_token(tokens, pos, Token::For) {
        Ok(p1) => match spec_expect_token(tokens, p1, Token::ParenthesisOpening) {
            Ok(p2) => match spec_parse_optional_expression(tokens, p2) {
                Ok((pre_loop, p3)) => {
                    if !(p2 <= p3 <= tokens.len()) {
                        Err(ErrorV::UnexpectedEndOfInput)
                    } else {
                        match spec_expect_token(tokens, p3, Token::Semicolon) {
                            Ok(p4) => match spec_parse_optional_expression(tokens, p4) {
                                Ok((condition, p5)) => {
                                    if !(p4 <= p5 <= tokens.len()) {
                                        Err(ErrorV::UnexpectedEndOfInput)
                                    } else {
                                        match spec_expect_token(tokens, p5, Token::Semicolon) {
                                            Ok(p6) => match spec_parse_optional_expression(
                                                tokens,
                                                p6,
                                            ) {
                                                Ok((post_loop, p7)) => {
                                                    if !(p6 <= p7 <= tokens.len()) {
                                                        Err(ErrorV::UnexpectedEndOfInput)
                                                    } else {
                                                        match spec_expect_token(
                                                            tokens,
                                                            p7,
                                                            Token::ParenthesisClosing,
                                                        ) {
                                                            Ok(p8) => match spec_parse_statement(
                                                                tokens,
                                                                p8,
                                                            ) {
                                                                Ok((body, p9)) => Ok(
                                                                    (
                                                                        AstV {
                                                                            component:
                                                                                SyntaxComponentV::For,
                                                                            children: seq![
                                                                                pre_loop,
                                                                                condition,
                                                                                post_loop,
                                                                                body,
                                                                            ],
                                                                        },
                                                                        p9,
                                                                    ),
                                                                ),
                                                                Err(e) => Err(e),
                                                            },
                                                            Err(e) => Err(e),
                                                        }
                                                    }
                                                },
                                                Err(e) => Err(e),
                                            },
                                            Err(e) => Err(e),
                                        }
                                    }
                                },
                                Err(e) => Err(e),
                            },
                            Err(e) => Err(e),
                        }
                    }
                },
                Err(e) => Err(e),
            },
            Err(e) => Err(e),
        },
        Err(e) => Err(e),
    }
}

/// What parsing a declaration yields: a `Declaration` node with a `Type`
/// child, an `Identifier` child, and the initializer when one is
/// written. The caller guarantees that a type token stands at `pos`.
pub open spec fn spec_parse_declaration(tokens: Seq<Token>, pos: int) -> Result<
    (AstV, int),
    ErrorV,
>
    decreases tokens.len() - pos, 2int,
{
    if !(0 <= pos < tokens.len()) {
        Err(ErrorV::UnexpectedEndOfDeclaration)
    } else {
        let declared = match tokens[pos]@ {
            TokenV::NumType => Some(Type::Number),
            TokenV::BoolType => Some(Type::Boolean),
            _ => None,
        };
        match declared {
            None => Err(ErrorV::UnexpectedEndOfDeclaration),
            Some(data_type) => {
                if pos + 1 >= tokens.len() || !(tokens[pos + 1]@ is Identifier) {
                    Err(ErrorV::ExpectedIdentifierAfterType)
                } else {
                    let type_child = AstV {
                        component: SyntaxComponentV::Type(data_type),
                        children: Seq::empty(),
                    };
                    let identifier_child = AstV {
                        component: SyntaxComponentV::Identifier(tokens[pos + 1]@->Identifier_0),
                        children: Seq::empty(),
                    };
                    if pos + 2 >= tokens.len() {
                        Err(ErrorV::UnexpectedEndOfDeclaration)
                    } else if tokens[pos + 2]@ is OperatorAssignment {
                        match spec_parse_expression(tokens, pos + 3) {
                            Ok((initializer, p)) => {
                                if !(pos + 3 <= p <= tokens.len()) {
                                    Err(ErrorV::UnexpectedEndOfInput)
                                } else {
                                    match spec_expect_token(tokens, p, Token::Semicolon) {
                                        Ok(p2) => Ok(
                                            (
                                                AstV {
                                                    component: SyntaxComponentV::Declaration,
                                                    children: seq![
                                                        type_child,
                                                        identifier_child,
                                                        initializer,
                                                    ],
                                                },
                                                p2,
                                            ),
                                        ),
                                        Err(e) => Err(e),
                                    }
                                }
                            },
                            Err(e) => Err(e),
                        }
                    } else {
                        match spec_expect_token(tokens, pos + 2, Token::Semicolon) {
                            Ok(p2) => Ok(
                                (
                                    AstV {
                                        component: SyntaxComponentV::Declaration,
                                        children: seq![type_child, identifier_child],
                                    },
                                    p2,
                                ),
                            ),
                            Err(e) => Err(e),
                        }
                    }
                }
            },
        }
    }
}

/// The statements of a block, up to the closing brace (or the end of the
/// stream, which the caller then reports on).
pub open spec fn spec_parse_block_items(tokens: Seq<Token>, pos: int) -> Result<
    (Seq<AstV>, int),
    ErrorV,
>
    decreases tokens.len() - pos, 4int,
{
    if !(0 <= pos < tokens.len()) {
        Ok((Seq::empty(), pos))
    } else if tokens[pos]@ is CurlyClosing {
        Ok((Seq::empty(), pos))
    } else {
        match spec_parse_statement(tokens, pos) {
            Ok((statement, p)) => {
                if !(pos < p <= tokens.len()) {
                    Err(ErrorV::UnexpectedEndOfInput)
                } else {
                    match spec_parse_block_items(tokens, p) {
                        Ok((rest, end)) => Ok((seq![statement] + rest, end)),
                        Err(e) => Err(e),
                    }
                }
            },
            Err(e) => Err(e),
        }
    }
}

/// What parsing a block yields: a `Sequence` node holding the enclosed
/// statements.
pub open spec fn spec_parse_block(tokens: Seq<Token>, pos: int) -> Result<(AstV, int), ErrorV>
    decreases tokens.len() - pos, 2int,
{
    match spec_expect_token(tokens, pos, Token::CurlyOpening) {
        Ok(p1) => match spec_parse_block_items(tokens, p1) {
            Ok((items, p2)) => {
                if !(p1 <= p2 <= tokens.len()) {
                    Err(ErrorV::UnexpectedEndOfInput)
                } else {
                    match spec_expect_token(tokens, p2, Token::CurlyClosing) {
                        Ok(p3) => Ok(
                            (AstV { component: SyntaxComponentV::Sequence, children: items }, p3),
                        ),
                        Err(e) => Err(e),
                    }
                }
            },
            Err(e) => Err(e),
        },
        Err(e) => Err(e),
    }
}

/// What parsing one statement yields, dispatched on the next token:
/// `for`, `if`, a block, a declaration, or an optional expression
/// followed by `;`.
pub open spec fn spec_parse_statement(tokens: Seq<Token>, pos: int) -> Result<(AstV, int), ErrorV>
    decreases tokens.len() - pos, 3int,
{
    if !(0 <= pos < tokens.len()) {
        Err(ErrorV::UnexpectedEndOfInput)
    } else {
        match tokens[pos]@ {
            TokenV::For => spec_parse_for(tokens, pos),
            TokenV::If => spec_parse_if(tokens, pos),
            TokenV::CurlyOpening => spec_parse_block(tokens, pos),
            TokenV::NumType => spec_parse_declaration(tokens, pos),
            TokenV::BoolType => spec_parse_declaration(tokens, pos),
            _ => match spec_parse_optional_expression(tokens, pos) {
                Ok((expression, p)) => {
                    if !(pos <= p <= tokens.len()) {
                        Err(ErrorV::UnexpectedEndOfInput)
                    } else {
                        match spec_expect_token(tokens, p, Token::Semicolon) {
                            Ok(p2) => Ok((expression, p2)),
                            Err(e) => Err(e),
                        }
                    }
                },
                Err(e) => Err(e),
            },
        }
    }
}

/// Parses the optional expression at `pos`: empty exactly before `;`,
/// `)` or `EOF` (or at the end of the stream), a `Null` leaf then.
pub fn parse_optional_expression(tokens: &Vec<Token>, pos: usize) -> (r: Result<
    (Ast, usize),
    CompileError,
>)
    requires
        pos <= tokens@.len(),
    ensures
        match r {
            Ok((ast, p)) => spec_parse_optional_expression(tokens@, pos as int) == Ok::<
                (AstV, int),
                ErrorV,
            >((ast_view(ast), p as int)) && pos <= p <= tokens@.len(),
            Err(e) => spec_parse_optional_expression(tokens@, pos as int) == Err::<
                (AstV, int),
                ErrorV,
            >(e@),
        },
{
    if pos >= tokens.len() {
        Ok((ast_leaf(SyntaxComponent::Null), pos))
    } else {
        match &tokens[pos] {
            Token::EOF | Token::Semicolon | Token::ParenthesisClosing => Ok(
                (ast_leaf(SyntaxComponent::Null), pos),
            ),
            _ => parse_expression(tokens, pos),
        }
    }
}

/// Parses the `if` statement at `pos`.
pub fn parse_if(tokens: &Vec<Token>, pos: usize) -> (r: Result<(Ast, usize), CompileError>)
    requires
        pos <= tokens@.len(),
    ensures
        match r {
            Ok((ast, p)) => spec_parse_if(tokens@, pos as int) == Ok::<(AstV, int), ErrorV>(
                (ast_view(ast), p as int),
            ) && pos < p <= tokens@.len(),
            Err(e) => spec_parse_if(tokens@, pos as int) == Err::<(AstV, int), ErrorV>(e@),
        },
    decreases tokens@.len() - pos, 2int,
{
    let p1 = match expect_token(tokens, pos, &Token::If) {
        Ok(p) => p,
        Err(e) => {
            return Err(e);
        },
    };
    let p2 = match expect_token(tokens, p1, &Token::ParenthesisOpening) {
        Ok(p) => p,
        Err(e) => {
            return Err(e);
        },
    };
    let (condition, p3) = match parse_expression(tokens, p2) {
        Ok(v) => v,
        Err(e) => {
            return Err(e);
        },
    };
    let p4 = match expect_token(tokens, p3, &Token::ParenthesisClosing) {
        Ok(p) => p,
        Err(e) => {
            return Err(e);
        },
    };
    let (body, p5) = match parse_statement(tokens, p4) {
        Ok(v) => v,
        Err(e) => {
            return Err(e);
        },
    };
    let ghost condition_v = ast_view(condition);
    let ghost body_v = ast_view(body);
    let mut children: Vec<Ast> = Vec::new();
    let ghost empty_children = children@;
    children.push(condition);
    proof {
        lemma_asts_view_push(empty_children, children@.last());
        assert(asts_view(children@) =~= seq![condition_v]);
    }
    let ghost one_child = children@;
    children.push(body);
    proof {
        lemma_asts_view_push(one_child, children@.last());
        assert(asts_view(children@) =~= seq![condition_v, body_v]);
    }
    Ok((Ast { component: SyntaxComponent::If, children }, p5))
}

/// Parses the `for` statement at `pos`.
pub fn parse_for(tokens: &Vec<Token>, pos: usize) -> (r: Result<(Ast, usize), CompileError>)
    requires
        pos <= tokens@.len(),
    ensures
        match r {
            Ok((ast, p)) => spec_parse_for(tokens@, pos as int) == Ok::<(AstV, int), ErrorV>(
                (ast_view(ast), p as int),
            ) && pos < p <= tokens@.len(),
            Err(e) => spec_parse_for(tokens@, pos as int) == Err::<(AstV, int), ErrorV>(e@),
        },
    decreases tokens@.len() - pos, 2int,
{
    let p1 = match expect_token(tokens, pos, &Token::For) {
        Ok(p) => p,
        Err(e) => {
            return Err(e);
        },
    };
    let p2 = match expect_token(tokens, p1, &Token::ParenthesisOpening) {
        Ok(p) => p,
        Err(e) => {
            return Err(e);
        },
    };
    // initial expression, e.g. i = 0
    let (pre_loop, p3) = match parse_optional_expression(tokens, p2) {
        Ok(v) => v,
        Err(e) => {
            return Err(e);
        },
    };
    let p4 = match expect_token(tokens, p3, &Token::Semicolon) {
        Ok(p) => p,
        Err(e) => {
            return Err(e);
        },
    };
    // condition, e.g. i < 100
    let (condition, p5) = match parse_optional_expression(tokens, p4) {
        Ok(v) => v,
        Err(e) => {
            return Err(e);
        },
    };
    let p6 = match expect_token(tokens, p5, &Token::Semicolon) {
        Ok(p) => p,
        Err(e) => {
            return Err(e);
        },
    };
    // post-loop expression, e.g. i++
    let (post_loop, p7) = match parse_optional_expression(tokens, p6) {
        Ok(v) => v,
        Err(e) => {
            return Err(e);
        },
    };
    let p8 = match expect_token(tokens, p7, &Token::ParenthesisClosing) {
        Ok(p) => p,
        Err(e) => {
            return Err(e);
        },
    };
    // loop body
    let (body, p9) = match parse_statement(tokens, p8) {
        Ok(v) => v,
        Err(e) => {
            return Err(e);
        },
    };
    let ghost pre_v = ast_view(pre_loop);
    let ghost cond_v = ast_view(condition);
    let ghost post_v = ast_view(post_loop);
    let ghost body_v = ast_view(body);
    let mut children: Vec<Ast> = Vec::new();
    let ghost c0 = children@;
    children.push(pre_loop);
    proof {
        lemma_asts_view_push(c0, children@.last());
        assert(asts_view(children@) =~= seq![pre_v]);
    }
    let ghost c1 = children@;
    children.push(condition);
    proof {
        lemma_asts_view_push(c1, children@.last());
        assert(asts_view(children@) =~= seq![pre_v, cond_v]);
    }
    let ghost c2 = children@;
    children.push(post_loop);
    proof {
        lemma_asts_view_push(c2, children@.last());
        assert(asts_view(children@) =~= seq![pre_v, cond_v, post_v]);
    }
    let ghost c3 = children@;
    children.push(body);
    proof {
        lemma_asts_view_push(c3, children@.last());
        assert(asts_view(children@) =~= seq![pre_v, cond_v, post_v, body_v]);
    }
    Ok((Ast { component: SyntaxComponent::For, children }, p9))
}

/// Parses the declaration at `pos`; the caller has already seen the type
/// token standing there.
pub fn parse_declaration(tokens: &Vec<Token>, pos: usize) -> (r: Result<
    (Ast, usize),
    CompileError,
>)
    requires
        pos < tokens@.len(),
        tokens@[pos as int]@ is NumType || tokens@[pos as int]@ is BoolType,
    ensures
        match r {
            Ok((ast, p)) => spec_parse_declaration(tokens@, pos as int) == Ok::<
                (AstV, int),
                ErrorV,
            >((ast_view(ast), p as int)) && pos < p <= tokens@.len(),
            Err(e) => spec_parse_declaration(tokens@, pos as int) == Err::<(AstV, int), ErrorV>(
                e@,
            ),
        },
    decreases tokens@.len() - pos, 2int,
{
    let data_type: Type = match &tokens[pos] {
        Token::NumType => Type::Number,
        Token::BoolType => Type::Boolean,
        _ => {
            return Err(CompileError::UnexpectedEndOfDeclaration);
        },
    };
    let type_child = ast_leaf(SyntaxComponent::Type(data_type));
    let n = tokens.len();
    if pos + 1 >= n {
        return Err(CompileError::ExpectedIdentifierAfterType);
    }
    let identifier_child = match &tokens[pos + 1] {
        Token::Identifier(name) => ast_leaf(SyntaxComponent::Identifier(name.clone())),
        _ => {
            return Err(CompileError::ExpectedIdentifierAfterType);
        },
    };
    let ghost type_v = ast_view(type_child);
    let ghost identifier_v = ast_view(identifier_child);
    if pos + 2 >= n {
        return Err(CompileError::UnexpectedEndOfDeclaration);
    }
    let mut children: Vec<Ast> = Vec::new();
    let ghost c0 = children@;
    children.push(type_child);
    proof {
        lemma_asts_view_push(c0, children@.last());
        assert(asts_view(children@) =~= seq![type_v]);
    }
    let ghost c1 = children@;
    children.push(identifier_child);
    proof {
        lemma_asts_view_push(c1, children@.last());
        assert(asts_view(children@) =~= seq![type_v, identifier_v]);
    }
    if token_eq(&tokens[pos + 2], &Token::OperatorAssignment) {
        // skip the assignment token and read the initializer
        let (initializer, p) = match parse_expression(tokens, pos + 3) {
            Ok(v) => v,
            Err(e) => {
                return Err(e);
            },
        };
        let ghost initializer_v = ast_view(initializer);
        let p2 = match expect_token(tokens, p, &Token::Semicolon) {
            Ok(p2) => p2,
            Err(e) => {
                return Err(e);
            },
        };
        let ghost c2 = children@;
        children.push(initializer);
        proof {
            lemma_asts_view_push(c2, children@.last());
            assert(asts_view(children@) =~= seq![type_v, identifier_v, initializer_v]);
        }
        Ok((Ast { component: SyntaxComponent::Declaration, children }, p2))
    } else {
        let p2 = match expect_token(tokens, pos + 2, &Token::Semicolon) {
            Ok(p2) => p2,
            Err(e) => {
                return Err(e);
            },
        };
        Ok((Ast { component: SyntaxComponent::Declaration, children }, p2))
    }
}

/// Parses the block at `pos`: `{`, any number of statements, `}`.
pub fn parse_block(tokens: &Vec<Token>, pos: usize) -> (r: Result<(Ast, usize), CompileError>)
    requires
        pos <= tokens@.len(),
    ensures
        match r {
            Ok((ast, p)) => spec_parse_block(tokens@, pos as int) == Ok::<(AstV, int), ErrorV>(
                (ast_view(ast), p as int),
            ) && pos < p <= tokens@.len(),
            Err(e) => spec_parse_block(tokens@, pos as int) == Err::<(AstV, int), ErrorV>(e@),
        },
    decreases tokens@.len() - pos, 2int,
{
    let p1 = match expect_token(tokens, pos, &Token::CurlyOpening) {
        Ok(p) => p,
        Err(e) => {
            return Err(e);
        },
    };
    let mut children: Vec<Ast> = Vec::new();
    let mut current: usize = p1;
    while current < tokens.len() && !token_eq(&tokens[current], &Token::CurlyClosing)
        invariant
            pos < p1 <= current <= tokens@.len(),
            spec_expect_token(tokens@, pos as int, Token::CurlyOpening) == Ok::<int, ErrorV>(
                p1 as int,
            ),
            spec_parse_block_items(tokens@, p1 as int) == (match spec_parse_block_items(
                tokens@,
                current as int,
            ) {
                Ok((rest, end)) => Ok::<(Seq<AstV>, int), ErrorV>(
                    (asts_view(children@) + rest, end),
                ),
                Err(e) => Err::<(Seq<AstV>, int), ErrorV>(e),
            }),
        decreases tokens@.len() - current,
    {
        let (statement, next) = match parse_statement(tokens, current) {
            Ok(v) => v,
            Err(e) => {
                return Err(e);
            },
        };
        let ghost statement_v = ast_view(statement);
        let ghost before = children@;
        children.push(statement);
        proof {
            lemma_asts_view_push(before, children@.last());
            assert(asts_view(children@) =~= asts_view(before).push(statement_v));
            assert(spec_parse_block_items(tokens@, p1 as int) == (match spec_parse_block_items(
                tokens@,
                next as int,
            ) {
                Ok((rest, end)) => Ok::<(Seq<AstV>, int), ErrorV>(
                    (asts_view(children@) + rest, end),
                ),
                Err(e) => Err::<(Seq<AstV>, int), ErrorV>(e),
            })) by {
                if spec_parse_block_items(tokens@, next as int) is Ok {
                    let (rest, end) = spec_parse_block_items(tokens@, next as int)->Ok_0;
                    assert(asts_view(before) + (seq![statement_v] + rest) =~= asts_view(children@)
                        + rest);
                }
            }
        }
        current = next;
    }
    proof {
        assert(spec_parse_block_items(tokens@, current as int) == Ok::<(Seq<AstV>, int), ErrorV>(
            (Seq::empty(), current as int),
        ));
        assert(asts_view(children@) + Seq::empty() =~= asts_view(children@));
    }
    let p3 = match expect_token(tokens, current, &Token::CurlyClosing) {
        Ok(p) => p,
        Err(e) => {
            return Err(e);
        },
    };
    Ok((Ast { component: SyntaxComponent::Sequence, children }, p3))
}

/// Parses the statement at `pos`, dispatching on the token standing
/// there.
pub fn parse_statement(tokens: &Vec<Token>, pos: usize) -> (r: Result<(Ast, usize), CompileError>)
    requires
        pos <= tokens@.len(),
    ensures
        match r {
            Ok((ast, p)) => spec_parse_statement(tokens@, pos as int) == Ok::<(AstV, int), ErrorV>(
                (ast_view(ast), p as int),
            ) && pos < p <= tokens@.len(),
            Err(e) => spec_parse_statement(tokens@, pos as int) == Err::<(AstV, int), ErrorV>(e@),
        },
    decreases tokens@.len() - pos, 3int,
{
    if pos >= tokens.len() {
        return Err(CompileError::UnexpectedEndOfInput);
    }
    match &tokens[pos] {
        Token::For => parse_for(tokens, pos),
        Token::If => parse_if(tokens, pos),
        Token::CurlyOpening => parse_block(tokens, pos),
        Token::NumType | Token::BoolType => parse_declaration(tokens, pos),
        _ => {
            let (expression, p) = match parse_optional_expression(tokens, pos) {
                Ok(v) => v,
                Err(e) => {
                    return Err(e);
                },
            };
            match expect_token(tokens, p, &Token::Semicolon) {
                Ok(p2) => Ok((expression, p2)),
                Err(e) => Err(e),
            }
        },
    }
}

} // verus!
