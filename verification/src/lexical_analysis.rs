//! Lexical analysis: a deterministic state machine over one character of
//! look-behind and an accumulator of the token under construction.

use vstd::prelude::*;

use crate::errors::{CompileError, ErrorV};
use crate::token::{
    char_is_alphanumeric, char_is_alphabetic, char_is_numeric, char_is_whitespace, is_alphabetic,
    is_alphanumeric, is_numeric, is_whitespace, spec_token_of, Token, TokenV,
};

verus! {

/// The lexer's state: what kind of text the accumulator currently holds.
#[derive(Debug, Clone, Copy, PartialEq, Eq, Structural)]
pub enum TokenBuildingStateType {
    /// empty accumulator
    Empty,
    /// only a single `=`
    Equal,
    /// only a single `!`
    Not,
    /// only composable operators
    ComposableOperator,
    /// only letters
    Alphabetic,
    /// only digits
    Numeric,
    /// digits then `.`
    NumericPeriod,
    /// digits, `.`, digits
    NumericFloatingPoint,
    /// a single `/`
    MaybeComment,
    /// `//` seen, waiting for a newline
    LineComment,
    /// `/*` seen, waiting for `*`
    BlockComment,
    /// `/* ... *` seen, waiting for `/`
    BlockCommentMaybeClosing,
}

/// The lexer's working data: state, accumulator, and the tokens built so
/// far.
#[derive(Debug)]
pub struct TokenBuildingState {
    pub state_type: TokenBuildingStateType,
    pub accumulator: Vec<char>,
    pub token_vector: Vec<Token>,
}

/// The mathematical value of the lexer's working data.
#[verifier::ext_equal]
pub ghost struct LexStateV {
    pub state_type: TokenBuildingStateType,
    pub accumulator: Seq<char>,
    pub tokens: Seq<TokenV>,
}

/// The mathematical value of a token sequence, token by token.
pub open spec fn tokens_view(s: Seq<Token>) -> Seq<TokenV>
    decreases s,
{
    if s.len() == 0 {
        Seq::empty()
    } else {
        tokens_view(s.drop_last()).push(s.last()@)
    }
}

impl View for TokenBuildingState {
    type V = LexStateV;

    open spec fn view(&self) -> LexStateV {
        LexStateV {
            state_type: self.state_type,
            accumulator: self.accumulator@,
            tokens: tokens_view(self.token_vector@),
        }
    }
}

/// A character that may combine with `=` (or with itself, for `+` and `-`)
/// into a two-character operator.
pub open spec fn spec_is_composable_operator(c: char) -> bool {
    c == '*' || c == '<' || c == '>' || c == '+' || c == '-'
}

/// A grouping character.
pub open spec fn spec_is_grouping_character(c: char) -> bool {
    c == '{' || c == '}' || c == '(' || c == ')'
}

fn is_composable_operator(c: char) -> (r: bool)
    ensures
        r == spec_is_composable_operator(c),
{
    c == '*' || c == '<' || c == '>' || c == '+' || c == '-'
}

fn is_grouping_character(c: char) -> (r: bool)
    ensures
        r == spec_is_grouping_character(c),
{
    c == '{' || c == '}' || c == '(' || c == ')'
}

/// Clears the accumulator and moves to the given state.
pub open spec fn spec_reset_state(st: LexStateV, state_type: TokenBuildingStateType) -> LexStateV {
    LexStateV { state_type, accumulator: Seq::empty(), tokens: st.tokens }
}

/// Appends a finished token; the lexer returns to the empty state.
pub open spec fn spec_push_token(st: LexStateV, t: TokenV) -> LexStateV {
    LexStateV {
        state_type: TokenBuildingStateType::Empty,
        accumulator: Seq::empty(),
        tokens: st.tokens.push(t),
    }
}

/// Classifies and appends the accumulated text, if there is any.
pub open spec fn spec_commit(st: LexStateV) -> Result<LexStateV, ErrorV> {
    if st.accumulator.len() == 0 {
        Ok(st)
    } else {
        match spec_token_of(st.accumulator) {
            Ok(t) => Ok(spec_push_token(st, t)),
            Err(e) => Err(e),
        }
    }
}

/// Extends the accumulator by one character and moves to the given state.
pub open spec fn spec_accumulate(
    c: char,
    st: LexStateV,
    state_type: TokenBuildingStateType,
) -> LexStateV {
    LexStateV { state_type, accumulator: st.accumulator.push(c), tokens: st.tokens }
}

/// The error for a character that the current state rejects.
pub open spec fn spec_unexpected(c: char, st: LexStateV) -> ErrorV {
    ErrorV::UnexpectedCharacter { character: c, accumulator: st.accumulator, state: st.state_type }
}

/// Extends the accumulator by one character, then commits it.
pub open spec fn spec_accumulate_and_commit(c: char, st: LexStateV) -> Result<LexStateV, ErrorV> {
    spec_commit(spec_accumulate(c, st, TokenBuildingStateType::Empty))
}

/// Commits the accumulator, then appends the character as a token of its
/// own.
pub open spec fn spec_commit_and_single(c: char, st: LexStateV) -> Result<LexStateV, ErrorV> {
    match spec_commit(st) {
        Ok(st1) => match spec_token_of(seq![c]) {
            Ok(t) => Ok(spec_push_token(st1, t)),
            Err(e) => Err(e),
        },
        Err(e) => Err(e),
    }
}

/// Commits the accumulator, then dispatches the character as the start of
/// the next token.
pub open spec fn spec_commit_and_begin(c: char, st: LexStateV) -> Result<LexStateV, ErrorV> {
    match spec_commit(st) {
        Ok(st1) => {
            if c == '=' {
                Ok(spec_accumulate(c, st1, TokenBuildingStateType::Equal))
            } else if c == '/' {
                Ok(spec_accumulate(c, st1, TokenBuildingStateType::MaybeComment))
            } else if c == '!' {
                Ok(spec_accumulate(c, st1, TokenBuildingStateType::Not))
            } else if spec_is_composable_operator(c) {
                Ok(spec_accumulate(c, st1, TokenBuildingStateType::ComposableOperator))
            } else if c == ';' || spec_is_grouping_character(c) {
                match spec_token_of(seq![c]) {
                    Ok(t) => Ok(spec_push_token(st1, t)),
                    Err(e) => Err(e),
                }
            } else if char_is_alphabetic(c) {
                Ok(spec_accumulate(c, st1, TokenBuildingStateType::Alphabetic))
            } else if char_is_numeric(c) {
                Ok(spec_accumulate(c, st1, TokenBuildingStateType::Numeric))
            } else {
                Err(spec_unexpected(c, st1))
            }
        },
        Err(e) => Err(e),
    }
}

/// One transition of the state machine.
pub open spec fn spec_handle(c: char, st: LexStateV) -> Result<LexStateV, ErrorV> {
    match st.state_type {
        TokenBuildingStateType::Empty => {
            if char_is_whitespace(c) {
                Ok(st)
            } else if c == '/' {
                Ok(spec_accumulate(c, st, TokenBuildingStateType::MaybeComment))
            } else if c == '=' {
                Ok(spec_accumulate(c, st, TokenBuildingStateType::Equal))
            } else if c == '!' {
                Ok(spec_accumulate(c, st, TokenBuildingStateType::Not))
            } else if spec_is_composable_operator(c) {
                Ok(spec_accumulate(c, st, TokenBuildingStateType::ComposableOperator))
            } else if c == ';' || spec_is_grouping_character(c) {
                spec_accumulate_and_commit(c, st)
            } else if char_is_alphabetic(c) {
                Ok(spec_accumulate(c, st, TokenBuildingStateType::Alphabetic))
            } else if char_is_numeric(c) {
                Ok(spec_accumulate(c, st, TokenBuildingStateType::Numeric))
            } else {
                Err(spec_unexpected(c, st))
            }
        },
        TokenBuildingStateType::Equal => {
            if c == '=' {
                spec_accumulate_and_commit(c, st)
            } else if char_is_alphanumeric(c) {
                spec_commit_and_single(c, st)
            } else if char_is_whitespace(c) {
                spec_commit(st)
            } else {
                Err(spec_unexpected(c, st))
            }
        },
        TokenBuildingStateType::Not => {
            if c == '=' {
                spec_accumulate_and_commit(c, st)
            } else if char_is_alphanumeric(c) {
                spec_commit_and_single(c, st)
            } else if char_is_whitespace(c) {
                spec_commit(st)
            } else {
                Err(spec_unexpected(c, st))
            }
        },
        TokenBuildingStateType::ComposableOperator => {
            if c == '=' || spec_is_composable_operator(c) {
                spec_accumulate_and_commit(c, st)
            } else if char_is_alphanumeric(c) {
                spec_commit_and_single(c, st)
            } else if char_is_whitespace(c) {
                spec_commit(st)
            } else {
                Err(spec_unexpected(c, st))
            }
        },
        TokenBuildingStateType::Alphabetic => {
            if c == ';' || c == '=' || c == '/' || c == '!' || spec_is_grouping_character(c)
                || spec_is_composable_operator(c) {
                spec_commit_and_begin(c, st)
            } else if char_is_alphanumeric(c) {
                Ok(spec_accumulate(c, st, TokenBuildingStateType::Alphabetic))
            } else if char_is_whitespace(c) {
                spec_commit(st)
            } else {
                Err(spec_unexpected(c, st))
            }
        },
        TokenBuildingStateType::Numeric => {
            if c == '=' || c == '/' || c == '!' || spec_is_composable_operator(c)
                || spec_is_grouping_character(c) {
                spec_commit_and_begin(c, st)
            } else if c == '.' {
                Ok(spec_accumulate(c, st, TokenBuildingStateType::NumericPeriod))
            } else if c == ';' {
                spec_commit_and_single(c, st)
            } else if char_is_numeric(c) {
                Ok(spec_accumulate(c, st, TokenBuildingStateType::Numeric))
            } else if char_is_whitespace(c) {
                spec_commit(st)
            } else {
                Err(spec_unexpected(c, st))
            }
        },
        TokenBuildingStateType::NumericPeriod => {
            if char_is_numeric(c) {
                Ok(spec_accumulate(c, st, TokenBuildingStateType::NumericFloatingPoint))
            } else {
                Err(spec_unexpected(c, st))
            }
        },
        TokenBuildingStateType::NumericFloatingPoint => {
            if c == '=' || c == '/' || c == '!' || spec_is_composable_operator(c)
                || spec_is_grouping_character(c) {
                spec_commit_and_begin(c, st)
            } else if c == ';' {
                spec_commit_and_single(c, st)
            } else if char_is_numeric(c) {
                Ok(spec_accumulate(c, st, TokenBuildingStateType::NumericFloatingPoint))
            } else if char_is_whitespace(c) {
                spec_commit(st)
            } else {
                Err(spec_unexpected(c, st))
            }
        },
        TokenBuildingStateType::MaybeComment => {
            if c == '/' {
                Ok(spec_reset_state(st, TokenBuildingStateType::LineComment))
            } else if c == '*' {
                Ok(spec_reset_state(st, TokenBuildingStateType::BlockComment))
            } else if c == '=' {
                spec_accumulate_and_commit(c, st)
            } else if char_is_whitespace(c) {
                spec_commit(st)
            } else {
                spec_commit_and_begin(c, st)
            }
        },
        TokenBuildingStateType::LineComment => {
            if c == '\n' {
                Ok(spec_reset_state(st, TokenBuildingStateType::Empty))
            } else {
                Ok(st)
            }
        },
        TokenBuildingStateType::BlockComment => {
            if c == '*' {
                Ok(spec_reset_state(st, TokenBuildingStateType::BlockCommentMaybeClosing))
            } else {
                Ok(st)
            }
        },
        TokenBuildingStateType::BlockCommentMaybeClosing => {
            if c == '/' {
                Ok(spec_reset_state(st, TokenBuildingStateType::Empty))
            } else if c == '*' {
                Ok(st)
            } else {
                Ok(spec_reset_state(st, TokenBuildingStateType::BlockComment))
            }
        },
    }
}

/// Runs the machine over the rest of the input, then commits the trailing
/// accumulator and appends the end-of-input token.
pub open spec fn spec_run(input: Seq<char>, i: int, st: LexStateV) -> Result<Seq<TokenV>, ErrorV>
    decreases input.len() - i,
{
    if i < 0 || i >= input.len() {
        match spec_commit(st) {
            Ok(st1) => Ok(spec_push_token(st1, TokenV::EOF).tokens),
            Err(e) => Err(e),
        }
    } else {
        match spec_handle(input[i], st) {
            Ok(st1) => spec_run(input, i + 1, st1),
            Err(e) => Err(e),
        }
    }
}

/// What lexical analysis yields on the given input.
pub open spec fn spec_lex(input: Seq<char>) -> Result<Seq<TokenV>, ErrorV> {
    spec_run(
        input,
        0,
        LexStateV {
            state_type: TokenBuildingStateType::Empty,
            accumulator: Seq::empty(),
            tokens: Seq::empty(),
        },
    )
}

fn reset_state_with_state_type(
    state: TokenBuildingState,
    state_type: TokenBuildingStateType,
) -> (r: TokenBuildingState)
    ensures
        r@ == spec_reset_state(state@, state_type),
{
    TokenBuildingState { state_type, accumulator: Vec::new(), token_vector: state.token_vector }
}

fn push_token(state: TokenBuildingState, token: Token) -> (r: TokenBuildingState)
    ensures
        r@ == spec_push_token(state@, token@),
{
    let mut token_vector = state.token_vector;
    token_vector.push(token);
    proof {
        assert(tokens_view(token_vector@).drop_last() == tokens_view(
            token_vector@.drop_last(),
        )) by {
            assert(token_vector@.drop_last() == state.token_vector@);
        }
        assert(tokens_view(token_vector@) == tokens_view(state.token_vector@).push(
            token_vector@.last()@,
        )) by {
            assert(token_vector@.drop_last() == state.token_vector@);
        }
    }
    TokenBuildingState {
        state_type: TokenBuildingStateType::Empty,
        accumulator: Vec::new(),
        token_vector,
    }
}

fn commit_accumulator(state: TokenBuildingState) -> (r: Result<TokenBuildingState, CompileError>)
    ensures
        match r {
            Ok(st) => spec_commit(state@) == Ok::<LexStateV, ErrorV>(st@),
            Err(e) => spec_commit(state@) == Err::<LexStateV, ErrorV>(e@),
        },
{
    if state.accumulator.len() == 0 {
        Ok(state)
    } else {
        match Token::try_from_text(&state.accumulator) {
            Ok(token) => Ok(push_token(state, token)),
            Err(e) => Err(e),
        }
    }
}

fn accumulate_character(
    character: char,
    state: TokenBuildingState,
    state_type: TokenBuildingStateType,
) -> (r: TokenBuildingState)
    ensures
        r@ == spec_accumulate(character, state@, state_type),
{
    let mut accumulator = state.accumulator;
    accumulator.push(character);
    TokenBuildingState { state_type, accumulator, token_vector: state.token_vector }
}

fn unexpected_character_error(character: char, state: TokenBuildingState) -> (e: CompileError)
    ensures
        e@ == spec_unexpected(character, state@),
{
    CompileError::UnexpectedCharacter {
        character,
        accumulator: crate::token::chars_to_string(&state.accumulator),
        state: state.state_type,
    }
}

fn accumulate_character_and_commit_accumulator(character: char, state: TokenBuildingState) -> (r:
    Result<TokenBuildingState, CompileError>)
    ensures
        match r {
            Ok(st) => spec_accumulate_and_commit(character, state@) == Ok::<LexStateV, ErrorV>(st@),
            Err(e) => spec_accumulate_and_commit(character, state@) == Err::<LexStateV, ErrorV>(e@),
        },
{
    // the state type no longer matters once the accumulator is committed
    commit_accumulator(accumulate_character(character, state, TokenBuildingStateType::Empty))
}

fn commit_accumulator_and_single_character_token(
    character: char,
    state: TokenBuildingState,
) -> (r: Result<TokenBuildingState, CompileError>)
    ensures
        match r {
            Ok(st) => spec_commit_and_single(character, state@) == Ok::<LexStateV, ErrorV>(st@),
            Err(e) => spec_commit_and_single(character, state@) == Err::<LexStateV, ErrorV>(e@),
        },
{
    let state_after_committing_accumulator = match commit_accumulator(state) {
        Ok(st) => st,
        Err(e) => {
            return Err(e);
        },
    };
    let single: Vec<char> = vec![character];
    assert(single@ == seq![character]);
    match Token::try_from_text(&single) {
        Ok(token) => Ok(push_token(state_after_committing_accumulator, token)),
        Err(e) => Err(e),
    }
}

fn commit_accumulator_and_begin_with_character(
    character: char,
    state: TokenBuildingState,
) -> (r: Result<TokenBuildingState, CompileError>)
    ensures
        match r {
            Ok(st) => spec_commit_and_begin(character, state@) == Ok::<LexStateV, ErrorV>(st@),
            Err(e) => spec_commit_and_begin(character, state@) == Err::<LexStateV, ErrorV>(e@),
        },
{
    let state_after_committing_accumulator = match commit_accumulator(state) {
        Ok(st) => st,
        Err(e) => {
            return Err(e);
        },
    };

    if character == '=' {
        Ok(
            accumulate_character(
                character,
                state_after_committing_accumulator,
                TokenBuildingStateType::Equal,
            ),
        )
    } else if character == '/' {
        Ok(
            accumulate_character(
                character,
                state_after_committing_accumulator,
                TokenBuildingStateType::MaybeComment,
            ),
        )
    } else if character == '!' {
        Ok(
            accumulate_character(
                character,
                state_after_committing_accumulator,
                TokenBuildingStateType::Not,
            ),
        )
    } else if is_composable_operator(character) {
        Ok(
            accumulate_character(
                character,
                state_after_committing_accumulator,
                TokenBuildingStateType::ComposableOperator,
            ),
        )
    } else if character == ';' || is_grouping_character(character) {
        // single-character tokens result in an empty state
        let single: Vec<char> = vec![character];
        assert(single@ == seq![character]);
        match Token::try_from_text(&single) {
            Ok(token) => Ok(push_token(state_after_committing_accumulator, token)),
            Err(e) => Err(e),
        }
    } else if is_alphabetic(character) {
        Ok(
            accumulate_character(
                character,
                state_after_committing_accumulator,
                TokenBuildingStateType::Alphabetic,
            ),
        )
    } else if is_numeric(character) {
        Ok(
            accumulate_character(
                character,
                state_after_committing_accumulator,
                TokenBuildingStateType::Numeric,
            ),
        )
    } else {
        Err(unexpected_character_error(character, state_after_committing_accumulator))
    }
}

fn handle_character(character: char, state: TokenBuildingState) -> (r: Result<
    TokenBuildingState,
    CompileError,
>)
    ensures
        match r {
            Ok(st) => spec_handle(character, state@) == Ok::<LexStateV, ErrorV>(st@),
            Err(e) => spec_handle(character, state@) == Err::<LexStateV, ErrorV>(e@),
        },
{
    match state.state_type {
        TokenBuildingStateType::Empty => {
            if is_whitespace(character) {
                Ok(state)
            } else if character == '/' {
                Ok(accumulate_character(character, state, TokenBuildingStateType::MaybeComment))
            } else if character == '=' {
                Ok(accumulate_character(character, state, TokenBuildingStateType::Equal))
            } else if character == '!' {
                Ok(accumulate_character(character, state, TokenBuildingStateType::Not))
            } else if is_composable_operator(character) {
                Ok(
                    accumulate_character(
                        character,
                        state,
                        TokenBuildingStateType::ComposableOperator,
                    ),
                )
            } else if character == ';' || is_grouping_character(character) {
                accumulate_character_and_commit_accumulator(character, state)
            } else if is_alphabetic(character) {
                Ok(accumulate_character(character, state, TokenBuildingStateType::Alphabetic))
            } else if is_numeric(character) {
                Ok(accumulate_character(character, state, TokenBuildingStateType::Numeric))
            } else {
                Err(unexpected_character_error(character, state))
            }
        },
        TokenBuildingStateType::Equal => {
            if character == '=' {
                accumulate_character_and_commit_accumulator(character, state)
            } else if is_alphanumeric(character) {
                commit_accumulator_and_single_character_token(character, state)
            } else if is_whitespace(character) {
                commit_accumulator(state)
            } else {
                Err(unexpected_character_error(character, state))
            }
        },
        TokenBuildingStateType::Not => {
            if character == '=' {
                accumulate_character_and_commit_accumulator(character, state)
            } else if is_alphanumeric(character) {
                commit_accumulator_and_single_character_token(character, state)
            } else if is_whitespace(character) {
                commit_accumulator(state)
            } else {
                Err(unexpected_character_error(character, state))
            }
        },
        TokenBuildingStateType::ComposableOperator => {
            if character == '=' || is_composable_operator(character) {
                accumulate_character_and_commit_accumulator(character, state)
            } else if is_alphanumeric(character) {
                commit_accumulator_and_single_character_token(character, state)
            } else if is_whitespace(character) {
                commit_accumulator(state)
            } else {
                Err(unexpected_character_error(character, state))
            }
        },
        TokenBuildingStateType::Alphabetic => {
            if character == ';' || character == '=' || character == '/' || character == '!'
                || is_grouping_character(character) || is_composable_operator(character) {
                commit_accumulator_and_begin_with_character(character, state)
            } else if is_alphanumeric(character) {
                // identifiers may continue with letters and digits
                Ok(accumulate_character(character, state, TokenBuildingStateType::Alphabetic))
            } else if is_whitespace(character) {
                commit_accumulator(state)
            } else {
                Err(unexpected_character_error(character, state))
            }
        },
        TokenBuildingStateType::Numeric => {
            if character == '=' || character == '/' || character == '!' || is_composable_operator(
                character,
            ) || is_grouping_character(character) {
                commit_accumulator_and_begin_with_character(character, state)
            } else if character == '.' {
                Ok(accumulate_character(character, state, TokenBuildingStateType::NumericPeriod))
            } else if character == ';' {
                commit_accumulator_and_single_character_token(character, state)
            } else if is_numeric(character) {
                Ok(accumulate_character(character, state, TokenBuildingStateType::Numeric))
            } else if is_whitespace(character) {
                commit_accumulator(state)
            } else {
                Err(unexpected_character_error(character, state))
            }
        },
        TokenBuildingStateType::NumericPeriod => {
            if is_numeric(character) {
                Ok(
                    accumulate_character(
                        character,
                        state,
                        TokenBuildingStateType::NumericFloatingPoint,
                    ),
                )
            } else {
                Err(unexpected_character_error(character, state))
            }
        },
        TokenBuildingStateType::NumericFloatingPoint => {
            if character == '=' || character == '/' || character == '!' || is_composable_operator(
                character,
            ) || is_grouping_character(character) {
                commit_accumulator_and_begin_with_character(character, state)
            } else if character == ';' {
                commit_accumulator_and_single_character_token(character, state)
            } else if is_numeric(character) {
                Ok(
                    accumulate_character(
                        character,
                        state,
                        TokenBuildingStateType::NumericFloatingPoint,
                    ),
                )
            } else if is_whitespace(character) {
                commit_accumulator(state)
            } else {
                Err(unexpected_character_error(character, state))
            }
        },
        TokenBuildingStateType::MaybeComment => {
            if character == '/' {
                Ok(reset_state_with_state_type(state, TokenBuildingStateType::LineComment))
            } else if character == '*' {
                Ok(reset_state_with_state_type(state, TokenBuildingStateType::BlockComment))
            } else if character == '=' {
                accumulate_character_and_commit_accumulator(character, state)
            } else if is_whitespace(character) {
                commit_accumulator(state)
            } else {
                commit_accumulator_and_begin_with_character(character, state)
            }
        },
        TokenBuildingStateType::LineComment => {
            // discard everything up to the next newline
            if character == '\n' {
                Ok(reset_state_with_state_type(state, TokenBuildingStateType::Empty))
            } else {
                Ok(state)
            }
        },
        TokenBuildingStateType::BlockComment => {
            if character == '*' {
                Ok(reset_state_with_state_type(state, TokenBuildingStateType::BlockCommentMaybeClosing))
            } else {
                Ok(state)
            }
        },
        TokenBuildingStateType::BlockCommentMaybeClosing => {
            if character == '/' {
                Ok(reset_state_with_state_type(state, TokenBuildingStateType::Empty))
            } else if character == '*' {
                Ok(state)
            } else {
                Ok(reset_state_with_state_type(state, TokenBuildingStateType::BlockComment))
            }
        },
    }
}

fn build_tokens(input: &Vec<char>) -> (r: Result<TokenBuildingState, CompileError>)
    ensures
        match r {
            Ok(st) => spec_lex(input@) == Ok::<Seq<TokenV>, ErrorV>(st@.tokens)
                && st@.state_type is Empty && st@.accumulator.len() == 0,
            Err(e) => spec_lex(input@) == Err::<Seq<TokenV>, ErrorV>(e@),
        },
{
    let mut current = TokenBuildingState {
        state_type: TokenBuildingStateType::Empty,
        accumulator: Vec::new(),
        token_vector: Vec::new(),
    };
    let ghost initial = current@;
    proof {
        assert(initial =~~= (LexStateV {
            state_type: TokenBuildingStateType::Empty,
            accumulator: Seq::empty(),
            tokens: Seq::empty(),
        }));
    }
    let mut i: usize = 0;
    while i < input.len()
        invariant
            i <= input@.len(),
            spec_lex(input@) == spec_run(input@, i as int, current@),
        decreases input@.len() - i,
    {
        let ghost before = current@;
        match handle_character(input[i], current) {
            Ok(next) => {
                proof {
                    assert(spec_run(input@, i as int, before) == spec_run(
                        input@,
                        i + 1,
                        next@,
                    ));
                }
                current = next;
            },
            Err(e) => {
                proof {
                    assert(spec_run(input@, i as int, before) == Err::<Seq<TokenV>, ErrorV>(e@));
                }
                return Err(e);
            },
        }
        i = i + 1;
    }
    match commit_accumulator(current) {
        Ok(st) => Ok(push_token(st, Token::EOF)),
        Err(e) => Err(e),
    }
}

/// Lexical analysis: turns the characters of the source text into the
/// token sequence that `spec_lex` describes, ending with the end-of-input
/// token, or fails with the first lexical error.
pub fn lexical_analysis(input: &Vec<char>) -> (r: Result<Vec<Token>, CompileError>)
    ensures
        match r {
            Ok(tokens) => spec_lex(input@) == Ok::<Seq<TokenV>, ErrorV>(tokens_view(tokens@)),
            Err(e) => spec_lex(input@) == Err::<Seq<TokenV>, ErrorV>(e@),
        },
{
    match build_tokens(input) {
        Ok(st) => Ok(st.token_vector),
        Err(e) => Err(e),
    }
}

} // verus!
