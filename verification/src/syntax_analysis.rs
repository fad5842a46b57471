//! Syntax analysis: parses the whole token stream into a tree rooted at
//! a `Sequence`, and demands the end-of-input token after the last
//! statement.

use vstd::prelude::*;

use crate::abstract_syntax_tree::{
    ast_view, asts_view, lemma_asts_view_push, Ast, AstV, SyntaxComponent, SyntaxComponentV,
};
use crate::errors::{CompileError, ErrorV};
use crate::statement::{parse_statement, spec_parse_statement};
use crate::token::{expect_token, spec_expect_token, token_eq, Token, TokenV};

verus! {

/// The program's statements, up to the end-of-input token (or the end of
/// the stream, which the caller then reports on).
pub open spec fn spec_parse_program_items(tokens: Seq<Token>, pos: int) -> Result<
    (Seq<AstV>, int),
    ErrorV,
>
    decreases tokens.len() - pos, 4int,
{
    if !(0 <= pos < tokens.len()) {
        Ok((Seq::empty(), pos))
    } else if tokens[pos]@ is EOF {
        Ok((Seq::empty(), pos))
    } else {
        match spec_parse_statement(tokens, pos) {
            Ok((statement, p)) => {
                if !(pos < p <= tokens.len()) {
                    Err(ErrorV::UnexpectedEndOfInput)
                } else {
                    match spec_parse_program_items(tokens, p) {
                        Ok((rest, end)) => Ok((seq![statement] + rest, end)),
                        Err(e) => Err(e),
                    }
                }
            },
            Err(e) => Err(e),
        }
    }
}

/// What syntax analysis yields: a `Sequence` root holding the program's
/// statements, with the end-of-input token verified behind them.
pub open spec fn spec_syntax_analysis(tokens: Seq<Token>) -> Result<AstV, ErrorV> {
    match spec_parse_program_items(tokens, 0) {
        Ok((items, p)) => match spec_expect_token(tokens, p, Token::EOF) {
            Ok(_) => Ok(AstV { component: SyntaxComponentV::Sequence, children: items }),
            Err(e) => Err(e),
        },
        Err(e) => Err(e),
    }
}

/// Syntax analysis: parses the token stream into the tree that
/// `spec_syntax_analysis` describes, or fails with the first syntax
/// error.
pub fn syntax_analysis(tokens: &Vec<Token>) -> (r: Result<Ast, CompileError>)
    ensures
        match r {
            Ok(ast) => spec_syntax_analysis(tokens@) == Ok::<AstV, ErrorV>(ast_view(ast)),
            Err(e) => spec_syntax_analysis(tokens@) == Err::<AstV, ErrorV>(e@),
        },
{
    let mut children: Vec<Ast> = Vec::new();
    let mut current: usize = 0;
    while current < tokens.len() && !token_eq(&tokens[current], &Token::EOF)
        invariant
            current <= tokens@.len(),
            spec_parse_program_items(tokens@, 0) == (match spec_parse_program_items(
                tokens@,
                current as int,
            ) {
                Ok((rest, end)) => Ok::<(Seq<AstV>, int), ErrorV>(
                    (asts_view(children@) + rest, end),
                ),
                Err(e) => Err::<(Seq<AstV>, int), ErrorV>(e),
            }),
        decreases tokens@.len() - current,
    {
        let (statement, next) = match parse_statement(tokens, current) {
            Ok(v) => v,
            Err(e) => {
                return Err(e);
            },
        };
        let ghost statement_v = ast_view(statement);
        let ghost before = children@;
        children.push(statement);
        proof {
            lemma_asts_view_push(before, children@.last());
            assert(asts_view(children@) =~= asts_view(before).push(statement_v));
            assert(spec_parse_program_items(tokens@, 0) == (match spec_parse_program_items(
                tokens@,
                next as int,
            ) {
                Ok((rest, end)) => Ok::<(Seq<AstV>, int), ErrorV>(
                    (asts_view(children@) + rest, end),
                ),
                Err(e) => Err::<(Seq<AstV>, int), ErrorV>(e),
            })) by {
                if spec_parse_program_items(tokens@, next as int) is Ok {
                    let (rest, end) = spec_parse_program_items(tokens@, next as int)->Ok_0;
                    assert(asts_view(before) + (seq![statement_v] + rest) =~= asts_view(children@)
                        + rest);
                }
            }
        }
        current = next;
    }
    proof {
        assert(spec_parse_program_items(tokens@, current as int) == Ok::<
            (Seq<AstV>, int),
            ErrorV,
        >((Seq::empty(), current as int)));
        assert(asts_view(children@) + Seq::empty() =~= asts_view(children@));
    }
    match expect_token(tokens, current, &Token::EOF) {
        Ok(_) => Ok(Ast { component: SyntaxComponent::Sequence, children }),
        Err(e) => Err(e),
    }
}

} // verus!
