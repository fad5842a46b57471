//! Expression parsing: the run of tokens up to the first terminator is
//! split on the first operator of the lowest precedence band, and the two
//! halves are parsed recursively, so equal-precedence operators lean
//! right.

use vstd::prelude::*;

use crate::abstract_syntax_tree::{
    ast_binary, ast_leaf, ast_unary, ast_view, spec_component_of, Ast, AstV, ConstantV,
    SyntaxComponent, SyntaxComponentV,
};
use crate::errors::{CompileError, ErrorV};
use crate::token::{
    spec_is_binary_operator, spec_is_operator_token, token_clone, token_eq, Token, TokenV,
};

verus! {

/// Whether a token ends the collection of an expression's tokens.
pub open spec fn spec_token_concludes_expression(t: TokenV) -> bool {
    t is EOF || t is Semicolon || t is ParenthesisClosing
}

fn token_concludes_expression(token: &Token) -> (r: bool)
    ensures
        r == spec_token_concludes_expression(token@),
{
    match token {
        Token::EOF | Token::Semicolon | Token::ParenthesisClosing => true,
        _ => false,
    }
}

/// The position of the first expression terminator at or after `pos`, or
/// the end of the stream.
pub open spec fn spec_expression_end(tokens: Seq<Token>, pos: int) -> int
    decreases tokens.len() - pos,
{
    if pos < 0 || pos >= tokens.len() {
        pos
    } else if spec_token_concludes_expression(tokens[pos]@) {
        pos
    } else {
        spec_expression_end(tokens, pos + 1)
    }
}

/// The first position in `run` at or after `from` holding the given
/// token.
pub open spec fn spec_find(run: Seq<Token>, t: TokenV, from: int) -> Option<int>
    decreases run.len() - from,
{
    if from < 0 || from >= run.len() {
        None
    } else if run[from]@ == t {
        Some(from)
    } else {
        spec_find(run, t, from + 1)
    }
}

/// The operator tokens in splitting order: five precedence bands, lowest
/// first, each scanned operator by operator.
pub open spec fn spec_operator_order(k: int) -> TokenV {
    if k == 0 {
        TokenV::OperatorAssignment
    } else if k == 1 {
        TokenV::OperatorAddition
    } else if k == 2 {
        TokenV::OperatorSubtraction
    } else if k == 3 {
        TokenV::OperatorMultiplication
    } else if k == 4 {
        TokenV::OperatorDivision
    } else if k == 5 {
        TokenV::OperatorDecrement
    } else if k == 6 {
        TokenV::OperatorIncrement
    } else if k == 7 {
        TokenV::OperatorGreaterThan
    } else if k == 8 {
        TokenV::OperatorGreaterThanOrEqual
    } else if k == 9 {
        TokenV::OperatorLessThan
    } else if k == 10 {
        TokenV::OperatorLessThanOrEqual
    } else if k == 11 {
        TokenV::OperatorEqual
    } else if k == 12 {
        TokenV::OperatorIncreaseBy
    } else if k == 13 {
        TokenV::OperatorDecreaseBy
    } else {
        TokenV::Not
    }
}

/// The split position: the first occurrence of the first operator, in
/// splitting order, that occurs in the run at all.
pub open spec fn spec_find_operator(run: Seq<Token>, k: int) -> Option<int>
    decreases 15 - k,
{
    if k < 0 || k >= 15 {
        None
    } else {
        match spec_find(run, spec_operator_order(k), 0) {
            Some(p) => Some(p),
            None => spec_find_operator(run, k + 1),
        }
    }
}

/// The tree for a run split at the operator in position `p`: a binary
/// operator parses both sides; a unary one parses the left slice when it
/// is non-empty and the right slice otherwise.
pub open spec fn spec_split_expression(run: Seq<Token>, p: int) -> Result<AstV, ErrorV>
    decreases run.len(), 0int,
{
    if p < 0 || p >= run.len() {
        Err(ErrorV::UnexpectedEndOfExpression)
    } else {
        match spec_component_of(run[p]@) {
            Ok(component) => {
                if spec_is_binary_operator(run[p]@) {
                    match spec_parse_expression_run(run.subrange(0, p)) {
                        Ok(first_operand) => {
                            match spec_parse_expression_run(
                                run.subrange(p + 1, run.len() as int),
                            ) {
                                Ok(second_operand) => Ok(
                                    AstV {
                                        component,
                                        children: seq![first_operand, second_operand],
                                    },
                                ),
                                Err(e) => Err(e),
                            }
                        },
                        Err(e) => Err(e),
                    }
                } else {
                    let operand_run = if p == 0 {
                        run.subrange(1, run.len() as int)
                    } else {
                        run.subrange(0, p)
                    };
                    match spec_parse_expression_run(operand_run) {
                        Ok(operand) => Ok(AstV { component, children: seq![operand] }),
                        Err(e) => Err(e),
                    }
                }
            },
            Err(e) => Err(e),
        }
    }
}

/// The tree for one run of expression tokens.
pub open spec fn spec_parse_expression_run(run: Seq<Token>) -> Result<AstV, ErrorV>
    decreases run.len(), 1int,
{
    if run.len() == 1 {
        match run[0]@ {
            TokenV::Constant(text) => Ok(
                AstV {
                    component: SyntaxComponentV::Constant(ConstantV::Number(text)),
                    children: Seq::empty(),
                },
            ),
            TokenV::Identifier(name) => Ok(
                AstV { component: SyntaxComponentV::Identifier(name), children: Seq::empty() },
            ),
            TokenV::True => Ok(
                AstV {
                    component: SyntaxComponentV::Constant(ConstantV::Boolean(true)),
                    children: Seq::empty(),
                },
            ),
            TokenV::False => Ok(
                AstV {
                    component: SyntaxComponentV::Constant(ConstantV::Boolean(false)),
                    children: Seq::empty(),
                },
            ),
            _ => Err(ErrorV::InvalidOperand { got: run[0]@ }),
        }
    } else {
        match spec_find_operator(run, 0) {
            Some(p) => spec_split_expression(run, p),
            None => Err(ErrorV::UnexpectedEndOfExpression),
        }
    }
}

/// What expression parsing yields from position `pos`: the tree for the
/// token run up to the first terminator, and the position of that
/// terminator.
pub open spec fn spec_parse_expression(tokens: Seq<Token>, pos: int) -> Result<
    (AstV, int),
    ErrorV,
> {
    if !(0 <= pos <= tokens.len()) {
        Err(ErrorV::UnexpectedEndOfExpression)
    } else {
        let end = spec_expression_end(tokens, pos);
        match spec_parse_expression_run(tokens.subrange(pos, end)) {
            Ok(ast) => Ok((ast, end)),
            Err(e) => Err(e),
        }
    }
}

/// The position of the first expression terminator at or after `pos`.
fn find_expression_end(tokens: &Vec<Token>, pos: usize) -> (end: usize)
    requires
        pos <= tokens@.len(),
    ensures
        end == spec_expression_end(tokens@, pos as int),
        pos <= end <= tokens@.len(),
{
    let mut i: usize = pos;
    while i < tokens.len() && !token_concludes_expression(&tokens[i])
        invariant
            pos <= i <= tokens@.len(),
            spec_expression_end(tokens@, pos as int) == spec_expression_end(tokens@, i as int),
        decreases tokens@.len() - i,
    {
        i = i + 1;
    }
    i
}

/// The token value in position `k` of the splitting order.
fn operator_for(k: usize) -> (t: Token)
    requires
        k < 15,
    ensures
        t@ == spec_operator_order(k as int),
{
    if k == 0 {
        Token::OperatorAssignment
    } else if k == 1 {
        Token::OperatorAddition
    } else if k == 2 {
        Token::OperatorSubtraction
    } else if k == 3 {
        Token::OperatorMultiplication
    } else if k == 4 {
        Token::OperatorDivision
    } else if k == 5 {
        Token::OperatorDecrement
    } else if k == 6 {
        Token::OperatorIncrement
    } else if k == 7 {
        Token::OperatorGreaterThan
    } else if k == 8 {
        Token::OperatorGreaterThanOrEqual
    } else if k == 9 {
        Token::OperatorLessThan
    } else if k == 10 {
        Token::OperatorLessThanOrEqual
    } else if k == 11 {
        Token::OperatorEqual
    } else if k == 12 {
        Token::OperatorIncreaseBy
    } else if k == 13 {
        Token::OperatorDecreaseBy
    } else {
        Token::Not
    }
}

/// The first position in `tokens[lo..hi]` holding the given token, as an
/// absolute position.
fn find_operator(tokens: &Vec<Token>, lo: usize, hi: usize, t: &Token) -> (r: Option<usize>)
    requires
        lo <= hi <= tokens@.len(),
    ensures
        match r {
            Some(p) => lo <= p < hi && spec_find(tokens@.subrange(lo as int, hi as int), t@, 0)
                == Some((p - lo) as int) && tokens@[p as int]@ == t@,
            None => spec_find(tokens@.subrange(lo as int, hi as int), t@, 0) is None,
        },
{
    let ghost run = tokens@.subrange(lo as int, hi as int);
    let mut i: usize = lo;
    while i < hi
        invariant
            lo <= i <= hi <= tokens@.len(),
            run == tokens@.subrange(lo as int, hi as int),
            spec_find(run, t@, 0) == spec_find(run, t@, i - lo),
        decreases hi - i,
    {
        if token_eq(&tokens[i], t) {
            return Some(i);
        }
        i = i + 1;
    }
    None
}

/// Parses one run of expression tokens, `tokens[lo..hi]`.
fn parse_expression_run(tokens: &Vec<Token>, lo: usize, hi: usize) -> (r: Result<
    Ast,
    CompileError,
>)
    requires
        lo <= hi <= tokens@.len(),
    ensures
        match r {
            Ok(ast) => spec_parse_expression_run(tokens@.subrange(lo as int, hi as int)) == Ok::<
                AstV,
                ErrorV,
            >(ast_view(ast)),
            Err(e) => spec_parse_expression_run(tokens@.subrange(lo as int, hi as int)) == Err::<
                AstV,
                ErrorV,
            >(e@),
        },
        r is Ok ==> lo < hi,
    decreases hi - lo,
{
    let ghost run = tokens@.subrange(lo as int, hi as int);
    if hi - lo == 1 {
        let only_token = &tokens[lo];
        match only_token {
            Token::Constant(_) | Token::Identifier(_) | Token::True | Token::False => {
                match SyntaxComponent::try_from_token(token_clone(only_token)) {
                    Ok(component) => Ok(ast_leaf(component)),
                    Err(e) => Err(e),
                }
            },
            _ => Err(CompileError::InvalidOperand { got: token_clone(only_token) }),
        }
    } else {
        let mut k: usize = 0;
        while k < 15
            invariant
                k <= 15,
                lo <= hi <= tokens@.len(),
                hi - lo != 1,
                run == tokens@.subrange(lo as int, hi as int),
                spec_find_operator(run, 0) == spec_find_operator(run, k as int),
            decreases 15 - k,
        {
            let operator_token = operator_for(k);
            if let Some(position) = find_operator(tokens, lo, hi, &operator_token) {
                let operator = &tokens[position];
                proof {
                    assert(spec_find_operator(run, 0) == Some((position - lo) as int));
                    assert(spec_is_operator_token(operator@)) by {
                        assert(operator@ == spec_operator_order(k as int));
                    }
                }
                let component = match SyntaxComponent::try_from_token(token_clone(operator)) {
                    Ok(component) => component,
                    Err(e) => {
                        return Err(e);
                    },
                };
                if operator.is_binary_operator() {
                    proof {
                        assert(run.subrange(0, position - lo) =~= tokens@.subrange(
                            lo as int,
                            position as int,
                        ));
                        assert(run.subrange(position - lo + 1, run.len() as int) =~= tokens@
                            .subrange(position as int + 1, hi as int));
                    }
                    let first_operand = match parse_expression_run(tokens, lo, position) {
                        Ok(ast) => ast,
                        Err(e) => {
                            return Err(e);
                        },
                    };
                    let second_operand = match parse_expression_run(tokens, position + 1, hi) {
                        Ok(ast) => ast,
                        Err(e) => {
                            return Err(e);
                        },
                    };
                    return Ok(ast_binary(component, first_operand, second_operand));
                } else {
                    // the operator is unary: its operand is the non-empty side
                    let (operand_lo, operand_hi): (usize, usize) = if position == lo {
                        (lo + 1, hi)
                    } else {
                        (lo, position)
                    };
                    proof {
                        if position == lo {
                            assert(run.subrange(1, run.len() as int) =~= tokens@.subrange(
                                lo as int + 1,
                                hi as int,
                            ));
                        } else {
                            assert(run.subrange(0, position - lo) =~= tokens@.subrange(
                                lo as int,
                                position as int,
                            ));
                        }
                    }
                    let operand = match parse_expression_run(tokens, operand_lo, operand_hi) {
                        Ok(ast) => ast,
                        Err(e) => {
                            return Err(e);
                        },
                    };
                    return Ok(ast_unary(component, operand));
                }
            }
            k = k + 1;
        }
        Err(CompileError::UnexpectedEndOfExpression)
    }
}

/// Parses the expression that starts at `pos`: its tokens are collected
/// up to the first `EOF`, `;` or `)`, and the run is split recursively on
/// the operator of lowest precedence.
pub fn parse_expression(tokens: &Vec<Token>, pos: usize) -> (r: Result<
    (Ast, usize),
    CompileError,
>)
    requires
        pos <= tokens@.len(),
    ensures
        match r {
            Ok((ast, p)) => spec_parse_expression(tokens@, pos as int) == Ok::<
                (AstV, int),
                ErrorV,
            >((ast_view(ast), p as int)) && pos < p <= tokens@.len(),
            Err(e) => spec_parse_expression(tokens@, pos as int) == Err::<(AstV, int), ErrorV>(e@),
        },
{
    let end = find_expression_end(tokens, pos);
    match parse_expression_run(tokens, pos, end) {
        Ok(ast) => Ok((ast, end)),
        Err(e) => Err(e),
    }
}

} // verus!
