//! Tokens of the source language, and their classification from raw text.

use vstd::prelude::*;

use crate::errors::{CompileError, ErrorV};

verus! {

/// A token produced by lexical analysis. A numeric constant carries the
/// numeral exactly as it was written; its floating-point value is only
/// materialised outside the library, at the printing edge.
#[derive(Debug, Clone, PartialEq)]
pub enum Token {
    If,
    Semicolon,
    For,
    ParenthesisOpening,
    ParenthesisClosing,
    OperatorMultiplication,
    OperatorMultiplyBy,
    OperatorDivision,
    OperatorDivideBy,
    OperatorAddition,
    OperatorSubtraction,
    OperatorIncrement,
    OperatorIncreaseBy,
    OperatorDecrement,
    OperatorDecreaseBy,
    OperatorAssignment,
    OperatorLessThan,
    OperatorLessThanOrEqual,
    OperatorGreaterThan,
    OperatorGreaterThanOrEqual,
    OperatorEqual,
    OperatorNotEqual,
    Constant(String),
    Identifier(String),
    CurlyOpening,
    CurlyClosing,
    True,
    False,
    Not,
    NumType,
    BoolType,
    EOF,
}

/// The mathematical value of a token: payloads are character sequences.
pub ghost enum TokenV {
    If,
    Semicolon,
    For,
    ParenthesisOpening,
    ParenthesisClosing,
    OperatorMultiplication,
    OperatorMultiplyBy,
    OperatorDivision,
    OperatorDivideBy,
    OperatorAddition,
    OperatorSubtraction,
    OperatorIncrement,
    OperatorIncreaseBy,
    OperatorDecrement,
    OperatorDecreaseBy,
    OperatorAssignment,
    OperatorLessThan,
    OperatorLessThanOrEqual,
    OperatorGreaterThan,
    OperatorGreaterThanOrEqual,
    OperatorEqual,
    OperatorNotEqual,
    Constant(Seq<char>),
    Identifier(Seq<char>),
    CurlyOpening,
    CurlyClosing,
    True,
    False,
    Not,
    NumType,
    BoolType,
    EOF,
}

impl View for Token {
    type V = TokenV;

    open spec fn view(&self) -> TokenV {
        match self {
            Token::If => TokenV::If,
            Token::Semicolon => TokenV::Semicolon,
            Token::For => TokenV::For,
            Token::ParenthesisOpening => TokenV::ParenthesisOpening,
            Token::ParenthesisClosing => TokenV::ParenthesisClosing,
            Token::OperatorMultiplication => TokenV::OperatorMultiplication,
            Token::OperatorMultiplyBy => TokenV::OperatorMultiplyBy,
            Token::OperatorDivision => TokenV::OperatorDivision,
            Token::OperatorDivideBy => TokenV::OperatorDivideBy,
            Token::OperatorAddition => TokenV::OperatorAddition,
            Token::OperatorSubtraction => TokenV::OperatorSubtraction,
            Token::OperatorIncrement => TokenV::OperatorIncrement,
            Token::OperatorIncreaseBy => TokenV::OperatorIncreaseBy,
            Token::OperatorDecrement => TokenV::OperatorDecrement,
            Token::OperatorDecreaseBy => TokenV::OperatorDecreaseBy,
            Token::OperatorAssignment => TokenV::OperatorAssignment,
            Token::OperatorLessThan => TokenV::OperatorLessThan,
            Token::OperatorLessThanOrEqual => TokenV::OperatorLessThanOrEqual,
            Token::OperatorGreaterThan => TokenV::OperatorGreaterThan,
            Token::OperatorGreaterThanOrEqual => TokenV::OperatorGreaterThanOrEqual,
            Token::OperatorEqual => TokenV::OperatorEqual,
            Token::OperatorNotEqual => TokenV::OperatorNotEqual,
            Token::Constant(text) => TokenV::Constant(text@),
            Token::Identifier(text) => TokenV::Identifier(text@),
            Token::CurlyOpening => TokenV::CurlyOpening,
            Token::CurlyClosing => TokenV::CurlyClosing,
            Token::True => TokenV::True,
            Token::False => TokenV::False,
            Token::Not => TokenV::Not,
            Token::NumType => TokenV::NumType,
            Token::BoolType => TokenV::BoolType,
            Token::EOF => TokenV::EOF,
        }
    }
}

/// Whether two tokens carry the same kind and the same payload.
pub fn token_eq(a: &Token, b: &Token) -> (r: bool)
    ensures
        r == (a@ == b@),
{
    match a {
        Token::If => match b {
            Token::If => true,
            _ => false,
        },
        Token::Semicolon => match b {
            Token::Semicolon => true,
            _ => false,
        },
        Token::For => match b {
            Token::For => true,
            _ => false,
        },
        Token::ParenthesisOpening => match b {
            Token::ParenthesisOpening => true,
            _ => false,
        },
        Token::ParenthesisClosing => match b {
            Token::ParenthesisClosing => true,
            _ => false,
        },
        Token::OperatorMultiplication => match b {
            Token::OperatorMultiplication => true,
            _ => false,
        },
        Token::OperatorMultiplyBy => match b {
            Token::OperatorMultiplyBy => true,
            _ => false,
        },
        Token::OperatorDivision => match b {
            Token::OperatorDivision => true,
            _ => false,
        },
        Token::OperatorDivideBy => match b {
            Token::OperatorDivideBy => true,
            _ => false,
        },
        Token::OperatorAddition => match b {
            Token::OperatorAddition => true,
            _ => false,
        },
        Token::OperatorSubtraction => match b {
            Token::OperatorSubtraction => true,
            _ => false,
        },
        Token::OperatorIncrement => match b {
            Token::OperatorIncrement => true,
            _ => false,
        },
        Token::OperatorIncreaseBy => match b {
            Token::OperatorIncreaseBy => true,
            _ => false,
        },
        Token::OperatorDecrement => match b {
            Token::OperatorDecrement => true,
            _ => false,
        },
        Token::OperatorDecreaseBy => match b {
            Token::OperatorDecreaseBy => true,
            _ => false,
        },
        Token::OperatorAssignment => match b {
            Token::OperatorAssignment => true,
            _ => false,
        },
        Token::OperatorLessThan => match b {
            Token::OperatorLessThan => true,
            _ => false,
        },
        Token::OperatorLessThanOrEqual => match b {
            Token::OperatorLessThanOrEqual => true,
            _ => false,
        },
        Token::OperatorGreaterThan => match b {
            Token::OperatorGreaterThan => true,
            _ => false,
        },
        Token::OperatorGreaterThanOrEqual => match b {
            Token::OperatorGreaterThanOrEqual => true,
            _ => false,
        },
        Token::OperatorEqual => match b {
            Token::OperatorEqual => true,
            _ => false,
        },
        Token::OperatorNotEqual => match b {
            Token::OperatorNotEqual => true,
            _ => false,
        },
        Token::Constant(x) => match b {
            Token::Constant(y) => *x == *y,
            _ => false,
        },
        Token::Identifier(x) => match b {
            Token::Identifier(y) => *x == *y,
            _ => false,
        },
        Token::CurlyOpening => match b {
            Token::CurlyOpening => true,
            _ => false,
        },
        Token::CurlyClosing => match b {
            Token::CurlyClosing => true,
            _ => false,
        },
        Token::True => match b {
            Token::True => true,
            _ => false,
        },
        Token::False => match b {
            Token::False => true,
            _ => false,
        },
        Token::Not => match b {
            Token::Not => true,
            _ => false,
        },
        Token::NumType => match b {
            Token::NumType => true,
            _ => false,
        },
        Token::BoolType => match b {
            Token::BoolType => true,
            _ => false,
        },
        Token::EOF => match b {
            Token::EOF => true,
            _ => false,
        },
    }
}

/// A structurally equal copy of a token.
pub fn token_clone(t: &Token) -> (r: Token)
    ensures
        r@ == t@,
{
    match t {
            Token::If => Token::If,
            Token::Semicolon => Token::Semicolon,
            Token::For => Token::For,
            Token::ParenthesisOpening => Token::ParenthesisOpening,
            Token::ParenthesisClosing => Token::ParenthesisClosing,
            Token::OperatorMultiplication => Token::OperatorMultiplication,
            Token::OperatorMultiplyBy => Token::OperatorMultiplyBy,
            Token::OperatorDivision => Token::OperatorDivision,
            Token::OperatorDivideBy => Token::OperatorDivideBy,
            Token::OperatorAddition => Token::OperatorAddition,
            Token::OperatorSubtraction => Token::OperatorSubtraction,
            Token::OperatorIncrement => Token::OperatorIncrement,
            Token::OperatorIncreaseBy => Token::OperatorIncreaseBy,
            Token::OperatorDecrement => Token::OperatorDecrement,
            Token::OperatorDecreaseBy => Token::OperatorDecreaseBy,
            Token::OperatorAssignment => Token::OperatorAssignment,
            Token::OperatorLessThan => Token::OperatorLessThan,
            Token::OperatorLessThanOrEqual => Token::OperatorLessThanOrEqual,
            Token::OperatorGreaterThan => Token::OperatorGreaterThan,
            Token::OperatorGreaterThanOrEqual => Token::OperatorGreaterThanOrEqual,
            Token::OperatorEqual => Token::OperatorEqual,
            Token::OperatorNotEqual => Token::OperatorNotEqual,
            Token::Constant(text) => Token::Constant(text.clone()),
            Token::Identifier(text) => Token::Identifier(text.clone()),
            Token::CurlyOpening => Token::CurlyOpening,
            Token::CurlyClosing => Token::CurlyClosing,
            Token::True => Token::True,
            Token::False => Token::False,
            Token::Not => Token::Not,
            Token::NumType => Token::NumType,
            Token::BoolType => Token::BoolType,
            Token::EOF => Token::EOF,
    }
}

/// True of an ASCII decimal digit.
pub open spec fn spec_is_digit(c: char) -> bool {
    48 <= c as int <= 57
}

/// True of an ASCII letter.
pub open spec fn spec_is_letter(c: char) -> bool {
    (65 <= c as int <= 90) || (97 <= c as int <= 122)
}

fn is_digit(c: char) -> (r: bool)
    ensures
        r == spec_is_digit(c),
{
    let u = c as u32;
    48 <= u && u <= 57
}

fn is_letter(c: char) -> (r: bool)
    ensures
        r == spec_is_letter(c),
{
    let u = c as u32;
    (65 <= u && u <= 90) || (97 <= u && u <= 122)
}

/// The text matches `[0-9]+`, between `lo` and `hi`.
pub open spec fn all_digits(s: Seq<char>, lo: int, hi: int) -> bool {
    forall|j: int| lo <= j < hi ==> spec_is_digit(#[trigger] s[j])
}

/// The text matches `[0-9]+(\.[0-9]+)?`: a numeric literal.
pub open spec fn is_numeral_text(s: Seq<char>) -> bool {
    s.len() > 0 && (all_digits(s, 0, s.len() as int) || (exists|d: int|
        1 <= d < s.len() - 1 && s[d] == '.' && all_digits(s, 0, d) && all_digits(
            s,
            d + 1,
            s.len() as int,
        )))
}

/// The text matches `[A-Za-z][A-Za-z0-9]*`: an identifier.
pub open spec fn is_identifier_text(s: Seq<char>) -> bool {
    s.len() > 0 && spec_is_letter(s[0]) && (forall|j: int|
        1 <= j < s.len() ==> spec_is_letter(#[trigger] s[j]) || spec_is_digit(s[j]))
}

fn is_numeral(chars: &Vec<char>) -> (r: bool)
    ensures
        r == is_numeral_text(chars@),
{
    let n = chars.len();
    if n == 0 {
        return false;
    }
    let mut i: usize = 0;
    while i < n && is_digit(chars[i])
        invariant
            i <= n,
            n == chars@.len(),
            all_digits(chars@, 0, i as int),
        decreases n - i,
    {
        i = i + 1;
    }
    if i == 0 {
        // the first character is not a digit, so neither form can match
        assert(!is_numeral_text(chars@)) by {
            if is_numeral_text(chars@) {
                if !all_digits(chars@, 0, chars@.len() as int) {
                    let d = choose|d: int|
                        1 <= d < chars@.len() - 1 && chars@[d] == '.' && all_digits(chars@, 0, d)
                            && all_digits(chars@, d + 1, chars@.len() as int);
                    assert(spec_is_digit(chars@[0]));
                }
            }
        }
        return false;
    }
    if i == n {
        return true;
    }
    if chars[i] != '.' {
        assert(!is_numeral_text(chars@)) by {
            assert(!spec_is_digit(chars@[i as int]));
            if is_numeral_text(chars@) {
                if !all_digits(chars@, 0, chars@.len() as int) {
                    let d = choose|d: int|
                        1 <= d < chars@.len() - 1 && chars@[d] == '.' && all_digits(chars@, 0, d)
                            && all_digits(chars@, d + 1, chars@.len() as int);
                    if d < i {
                        assert(spec_is_digit(chars@[d]));
                    } else if d == i {
                    } else {
                        assert(spec_is_digit(chars@[i as int]));
                    }
                }
            }
        }
        return false;
    }
    let dot: usize = i;
    let mut j: usize = i + 1;
    while j < n && is_digit(chars[j])
        invariant
            dot < j <= n,
            n == chars@.len(),
            all_digits(chars@, dot as int + 1, j as int),
        decreases n - j,
    {
        j = j + 1;
    }
    if j == n && j > dot + 1 {
        assert(is_numeral_text(chars@)) by {
            assert(1 <= dot < chars@.len() - 1 && chars@[dot as int] == '.' && all_digits(
                chars@,
                0,
                dot as int,
            ) && all_digits(chars@, dot as int + 1, chars@.len() as int));
        }
        true
    } else {
        assert(!is_numeral_text(chars@)) by {
            assert(!spec_is_digit(chars@[dot as int]));
            if is_numeral_text(chars@) {
                if !all_digits(chars@, 0, chars@.len() as int) {
                    let d = choose|d: int|
                        1 <= d < chars@.len() - 1 && chars@[d] == '.' && all_digits(chars@, 0, d)
                            && all_digits(chars@, d + 1, chars@.len() as int);
                    if d < dot {
                        assert(spec_is_digit(chars@[d]));
                    } else if d > dot {
                        assert(spec_is_digit(chars@[dot as int]));
                    } else {
                        if j < n {
                            assert(spec_is_digit(chars@[j as int]));
                        }
                    }
                }
            }
        }
        false
    }
}

fn is_identifier(chars: &Vec<char>) -> (r: bool)
    ensures
        r == is_identifier_text(chars@),
{
    let n = chars.len();
    if n == 0 {
        return false;
    }
    if !is_letter(chars[0]) {
        return false;
    }
    let mut j: usize = 1;
    while j < n
        invariant
            1 <= j <= n,
            n == chars@.len(),
            forall|k: int|
                1 <= k < j ==> spec_is_letter(#[trigger] chars@[k]) || spec_is_digit(chars@[k]),
        decreases n - j,
    {
        if !is_letter(chars[j]) && !is_digit(chars[j]) {
            return false;
        }
        j = j + 1;
    }
    true
}

/// The result of `char::is_whitespace` on a character.
pub uninterp spec fn char_is_whitespace(c: char) -> bool;

/// The result of `char::is_alphabetic` on a character.
pub uninterp spec fn char_is_alphabetic(c: char) -> bool;

/// The result of `char::is_numeric` on a character.
pub uninterp spec fn char_is_numeric(c: char) -> bool;

/// Relies on `char::is_whitespace`: whether the character has the Unicode
/// `White_Space` property, a function of the character alone.
#[verifier::external_body]
pub fn is_whitespace(c: char) -> (r: bool)
    ensures
        r == char_is_whitespace(c),
{
    c.is_whitespace()
}

/// Relies on `char::is_alphabetic`: whether the character has the Unicode
/// `Alphabetic` property, a function of the character alone.
#[verifier::external_body]
pub fn is_alphabetic(c: char) -> (r: bool)
    ensures
        r == char_is_alphabetic(c),
{
    c.is_alphabetic()
}

/// Relies on `char::is_numeric`: whether the character lies in a Unicode
/// numeric general category, a function of the character alone.
#[verifier::external_body]
pub fn is_numeric(c: char) -> (r: bool)
    ensures
        r == char_is_numeric(c),
{
    c.is_numeric()
}

/// `char::is_alphanumeric` is documented as the disjunction of the two
/// classifications below.
pub open spec fn char_is_alphanumeric(c: char) -> bool {
    char_is_alphabetic(c) || char_is_numeric(c)
}

pub fn is_alphanumeric(c: char) -> (r: bool)
    ensures
        r == char_is_alphanumeric(c),
{
    is_alphabetic(c) || is_numeric(c)
}

/// Relies on `String::from_iter` over characters: the string holds exactly
/// the characters of the vector, in order.
#[verifier::external_body]
pub fn chars_to_string(chars: &Vec<char>) -> (s: String)
    ensures
        s@ == chars@,
{
    chars.iter().collect()
}

/// How a committed stretch of text is classified, in order: keyword or
/// punctuation by exact match, then numeric literal, then identifier.
pub open spec fn spec_token_of(s: Seq<char>) -> Result<TokenV, ErrorV> {
    if false {
        Err(ErrorV::InvalidToken(s))
    } else if s == "for"@ {
        Ok(TokenV::For)
    } else if s == "if"@ {
        Ok(TokenV::If)
    } else if s == "true"@ {
        Ok(TokenV::True)
    } else if s == "false"@ {
        Ok(TokenV::False)
    } else if s == "num"@ {
        Ok(TokenV::NumType)
    } else if s == "bool"@ {
        Ok(TokenV::BoolType)
    } else if s == ";"@ {
        Ok(TokenV::Semicolon)
    } else if s == "!"@ {
        Ok(TokenV::Not)
    } else if s == "("@ {
        Ok(TokenV::ParenthesisOpening)
    } else if s == ")"@ {
        Ok(TokenV::ParenthesisClosing)
    } else if s == "*"@ {
        Ok(TokenV::OperatorMultiplication)
    } else if s == "*="@ {
        Ok(TokenV::OperatorMultiplyBy)
    } else if s == "/"@ {
        Ok(TokenV::OperatorDivision)
    } else if s == "/="@ {
        Ok(TokenV::OperatorDivideBy)
    } else if s == "-"@ {
        Ok(TokenV::OperatorSubtraction)
    } else if s == "--"@ {
        Ok(TokenV::OperatorDecrement)
    } else if s == "-="@ {
        Ok(TokenV::OperatorDecreaseBy)
    } else if s == "++"@ {
        Ok(TokenV::OperatorIncrement)
    } else if s == "+="@ {
        Ok(TokenV::OperatorIncreaseBy)
    } else if s == "+"@ {
        Ok(TokenV::OperatorAddition)
    } else if s == ">"@ {
        Ok(TokenV::OperatorGreaterThan)
    } else if s == "<"@ {
        Ok(TokenV::OperatorLessThan)
    } else if s == ">="@ {
        Ok(TokenV::OperatorGreaterThanOrEqual)
    } else if s == "<="@ {
        Ok(TokenV::OperatorLessThanOrEqual)
    } else if s == "=="@ {
        Ok(TokenV::OperatorEqual)
    } else if s == "!="@ {
        Ok(TokenV::OperatorNotEqual)
    } else if s == "="@ {
        Ok(TokenV::OperatorAssignment)
    } else if s == "{"@ {
        Ok(TokenV::CurlyOpening)
    } else if s == "}"@ {
        Ok(TokenV::CurlyClosing)
    } else if is_numeral_text(s) {
        Ok(TokenV::Constant(s))
    } else if is_identifier_text(s) {
        Ok(TokenV::Identifier(s))
    } else {
        Err(ErrorV::InvalidToken(s))
    }
}

impl Token {
    /// Classifies accumulated text as a token.
    pub fn try_from_text(chars: &Vec<char>) -> (r: Result<Token, CompileError>)
        ensures
            match r {
                Ok(t) => spec_token_of(chars@) == Ok::<TokenV, ErrorV>(t@),
                Err(e) => spec_token_of(chars@) == Err::<TokenV, ErrorV>(e@),
            },
    {
        let text = chars_to_string(chars);
        if false {
            Err(CompileError::InvalidToken { text })
    } else if text == "for".to_owned() {
        Ok(Token::For)
    } else if text == "if".to_owned() {
        Ok(Token::If)
    } else if text == "true".to_owned() {
        Ok(Token::True)
    } else if text == "false".to_owned() {
        Ok(Token::False)
    } else if text == "num".to_owned() {
        Ok(Token::NumType)
    } else if text == "bool".to_owned() {
        Ok(Token::BoolType)
    } else if text == ";".to_owned() {
        Ok(Token::Semicolon)
    } else if text == "!".to_owned() {
        Ok(Token::Not)
    } else if text == "(".to_owned() {
        Ok(Token::ParenthesisOpening)
    } else if text == ")".to_owned() {
        Ok(Token::ParenthesisClosing)
    } else if text == "*".to_owned() {
        Ok(Token::OperatorMultiplication)
    } else if text == "*=".to_owned() {
        Ok(Token::OperatorMultiplyBy)
    } else if text == "/".to_owned() {
        Ok(Token::OperatorDivision)
    } else if text == "/=".to_owned() {
        Ok(Token::OperatorDivideBy)
    } else if text == "-".to_owned() {
        Ok(Token::OperatorSubtraction)
    } else if text == "--".to_owned() {
        Ok(Token::OperatorDecrement)
    } else if text == "-=".to_owned() {
        Ok(Token::OperatorDecreaseBy)
    } else if text == "++".to_owned() {
        Ok(Token::OperatorIncrement)
    } else if text == "+=".to_owned() {
        Ok(Token::OperatorIncreaseBy)
    } else if text == "+".to_owned() {
        Ok(Token::OperatorAddition)
    } else if text == ">".to_owned() {
        Ok(Token::OperatorGreaterThan)
    } else if text == "<".to_owned() {
        Ok(Token::OperatorLessThan)
    } else if text == ">=".to_owned() {
        Ok(Token::OperatorGreaterThanOrEqual)
    } else if text == "<=".to_owned() {
        Ok(Token::OperatorLessThanOrEqual)
    } else if text == "==".to_owned() {
        Ok(Token::OperatorEqual)
    } else if text == "!=".to_owned() {
        Ok(Token::OperatorNotEqual)
    } else if text == "=".to_owned() {
        Ok(Token::OperatorAssignment)
    } else if text == "{".to_owned() {
        Ok(Token::CurlyOpening)
    } else if text == "}".to_owned() {
        Ok(Token::CurlyClosing)
        } else if is_numeral(chars) {
            Ok(Token::Constant(text))
        } else if is_identifier(chars) {
            Ok(Token::Identifier(text))
        } else {
            Err(CompileError::InvalidToken { text })
        }
    }
}

/// The tokens on which `is_binary_operator` is defined: the expression
/// operators.
pub open spec fn spec_is_operator_token(t: TokenV) -> bool {
    spec_is_binary_operator(t) || t is OperatorIncrement || t is OperatorDecrement || t is Not
}

/// Which expression operators take two operands.
pub open spec fn spec_is_binary_operator(t: TokenV) -> bool {
    t is OperatorMultiplication
        || t is OperatorDivision
        || t is OperatorAddition
        || t is OperatorSubtraction
        || t is OperatorIncreaseBy
        || t is OperatorDecreaseBy
        || t is OperatorAssignment
        || t is OperatorLessThan
        || t is OperatorLessThanOrEqual
        || t is OperatorGreaterThan
        || t is OperatorGreaterThanOrEqual
        || t is OperatorEqual
        || t is OperatorNotEqual
}

impl Token {
    /// Whether this operator token takes two operands.
    pub fn is_binary_operator(self: &Self) -> (r: bool)
        requires
            spec_is_operator_token(self@),
        ensures
            r == spec_is_binary_operator(self@),
    {
        match self {
            Token::OperatorMultiplication => true,
            Token::OperatorDivision => true,
            Token::OperatorAddition => true,
            Token::OperatorSubtraction => true,
            Token::OperatorIncreaseBy => true,
            Token::OperatorDecreaseBy => true,
            Token::OperatorAssignment => true,
            Token::OperatorLessThan => true,
            Token::OperatorLessThanOrEqual => true,
            Token::OperatorGreaterThan => true,
            Token::OperatorGreaterThanOrEqual => true,
            Token::OperatorEqual => true,
            Token::OperatorNotEqual => true,
            Token::OperatorIncrement => false,
            Token::OperatorDecrement => false,
            Token::Not => false,
            _ => false,
        }
    }
}

/// What `expect_token` yields: the following position when the token at
/// `pos` is the expected one, and the matching error otherwise.
pub open spec fn spec_expect_token(tokens: Seq<Token>, pos: int, expected: Token) -> Result<
    int,
    ErrorV,
> {
    if pos >= tokens.len() {
        Err(ErrorV::UnexpectedEndOfStream { expected: expected@ })
    } else if tokens[pos]@ == expected@ {
        Ok(pos + 1)
    } else {
        Err(ErrorV::UnexpectedToken { got: tokens[pos]@, expected: expected@ })
    }
}

/// Demands one fixed token at the given position of the stream.
pub fn expect_token(tokens: &Vec<Token>, pos: usize, expected: &Token) -> (r: Result<
    usize,
    CompileError,
>)
    ensures
        match r {
            Ok(p) => spec_expect_token(tokens@, pos as int, *expected) == Ok::<int, ErrorV>(
                p as int,
            ) && p == pos + 1 <= tokens@.len(),
            Err(e) => spec_expect_token(tokens@, pos as int, *expected) == Err::<int, ErrorV>(e@),
        },
{
    if pos >= tokens.len() {
        Err(CompileError::UnexpectedEndOfStream { expected: token_clone(expected) })
    } else {
        let got = &tokens[pos];
        if token_eq(got, expected) {
            Ok(pos + 1)
        } else {
            Err(CompileError::UnexpectedToken { got: token_clone(got), expected: token_clone(expected) })
        }
    }
}

} // verus!
