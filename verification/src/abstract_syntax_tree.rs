//! The abstract syntax tree: a tag (`SyntaxComponent`) with ordered
//! children, owned by its parent.

use vstd::prelude::*;

use crate::errors::{CompileError, ErrorV};
use crate::token::{Token, TokenV};

verus! {

/// A relational operator.
#[derive(Debug, Clone, Copy, PartialEq, Eq, Structural)]
pub enum Relation {
    GreaterThan,
    GreaterThanOrEqual,
    LessThan,
    LessThanOrEqual,
    EqualTo,
    NotEqualTo,
}

/// An arithmetic or compound-assignment operator.
#[derive(Debug, Clone, Copy, PartialEq, Eq, Structural)]
pub enum BinaryOperation {
    Add,
    IncreaseBy,
    Subtract,
    DecreaseBy,
    Multiply,
    MultiplyBy,
    Divide,
    DivideBy,
}

/// A one-operand operator.
#[derive(Debug, Clone, Copy, PartialEq, Eq, Structural)]
pub enum UnaryOperation {
    Increment,
    Decrement,
    Negation,
}

/// A literal: a numeral kept as written, or a boolean.
#[derive(Debug, Clone, PartialEq)]
pub enum Constant {
    Number(String),
    Boolean(bool),
}

/// The mathematical value of a `Constant`.
pub ghost enum ConstantV {
    Number(Seq<char>),
    Boolean(bool),
}

impl View for Constant {
    type V = ConstantV;

    open spec fn view(&self) -> ConstantV {
        match self {
            Constant::Number(text) => ConstantV::Number(text@),
            Constant::Boolean(b) => ConstantV::Boolean(*b),
        }
    }
}

/// A data type of the source language.
#[derive(Debug, Clone, Copy, PartialEq, Eq, Structural)]
pub enum Type {
    Number,
    Boolean,
}

/// The tag of one AST node.
#[derive(Debug, Clone, PartialEq)]
pub enum SyntaxComponent {
    Null,
    Sequence,
    If,
    For,
    Assignment,
    Declaration,
    Type(Type),
    Relation(Relation),
    BinaryOperation(BinaryOperation),
    UnaryOperation(UnaryOperation),
    Constant(Constant),
    Identifier(String),
}

/// The mathematical value of a `SyntaxComponent`.
pub ghost enum SyntaxComponentV {
    Null,
    Sequence,
    If,
    For,
    Assignment,
    Declaration,
    Type(Type),
    Relation(Relation),
    BinaryOperation(BinaryOperation),
    UnaryOperation(UnaryOperation),
    Constant(ConstantV),
    Identifier(Seq<char>),
}

impl View for SyntaxComponent {
    type V = SyntaxComponentV;

    open spec fn view(&self) -> SyntaxComponentV {
        match self {
            SyntaxComponent::Null => SyntaxComponentV::Null,
            SyntaxComponent::Sequence => SyntaxComponentV::Sequence,
            SyntaxComponent::If => SyntaxComponentV::If,
            SyntaxComponent::For => SyntaxComponentV::For,
            SyntaxComponent::Assignment => SyntaxComponentV::Assignment,
            SyntaxComponent::Declaration => SyntaxComponentV::Declaration,
            SyntaxComponent::Type(t) => SyntaxComponentV::Type(*t),
            SyntaxComponent::Relation(r) => SyntaxComponentV::Relation(*r),
            SyntaxComponent::BinaryOperation(b) => SyntaxComponentV::BinaryOperation(*b),
            SyntaxComponent::UnaryOperation(u) => SyntaxComponentV::UnaryOperation(*u),
            SyntaxComponent::Constant(c) => SyntaxComponentV::Constant(c@),
            SyntaxComponent::Identifier(name) => SyntaxComponentV::Identifier(name@),
        }
    }
}

impl SyntaxComponent {
    /// A structurally equal copy.
    pub fn duplicate(&self) -> (c: SyntaxComponent)
        ensures
            c@ == self@,
    {
        match self {
            SyntaxComponent::Null => SyntaxComponent::Null,
            SyntaxComponent::Sequence => SyntaxComponent::Sequence,
            SyntaxComponent::If => SyntaxComponent::If,
            SyntaxComponent::For => SyntaxComponent::For,
            SyntaxComponent::Assignment => SyntaxComponent::Assignment,
            SyntaxComponent::Declaration => SyntaxComponent::Declaration,
            SyntaxComponent::Type(t) => SyntaxComponent::Type(*t),
            SyntaxComponent::Relation(r) => SyntaxComponent::Relation(*r),
            SyntaxComponent::BinaryOperation(b) => SyntaxComponent::BinaryOperation(*b),
            SyntaxComponent::UnaryOperation(u) => SyntaxComponent::UnaryOperation(*u),
            SyntaxComponent::Constant(Constant::Number(text)) => SyntaxComponent::Constant(
                Constant::Number(text.clone()),
            ),
            SyntaxComponent::Constant(Constant::Boolean(b)) => SyntaxComponent::Constant(
                Constant::Boolean(*b),
            ),
            SyntaxComponent::Identifier(name) => SyntaxComponent::Identifier(name.clone()),
        }
    }

    /// Whether this tag is an identifier.
    pub fn is_identifier(&self) -> (r: bool)
        ensures
            r == (self@ is Identifier),
    {
        if let SyntaxComponent::Identifier(_) = self {
            true
        } else {
            false
        }
    }

    /// The identifier's name, or an error on any other tag.
    pub fn try_get_identifier_name(&self) -> (r: Result<String, CompileError>)
        ensures
            match r {
                Ok(name) => self@ matches SyntaxComponentV::Identifier(n) && name@ == n,
                Err(e) => !(self@ is Identifier) && e@ == ErrorV::NotAnIdentifier,
            },
    {
        if let SyntaxComponent::Identifier(name) = self {
            Ok(name.clone())
        } else {
            Err(CompileError::NotAnIdentifier)
        }
    }

    /// The declared type, or an error on any other tag.
    pub fn try_get_type(&self) -> (r: Result<Type, CompileError>)
        ensures
            match r {
                Ok(t) => self@ == SyntaxComponentV::Type(t),
                Err(e) => !(self@ is Type) && e@ == ErrorV::NotAType,
            },
    {
        if let SyntaxComponent::Type(data_type) = self {
            Ok(*data_type)
        } else {
            Err(CompileError::NotAType)
        }
    }
}

/// The syntax component that stands for a token inside an expression.
pub open spec fn spec_component_of(t: TokenV) -> Result<SyntaxComponentV, ErrorV> {
    match t {
        TokenV::If => Ok(SyntaxComponentV::If),
        TokenV::For => Ok(SyntaxComponentV::For),
        TokenV::OperatorMultiplication => Ok(
            SyntaxComponentV::BinaryOperation(BinaryOperation::Multiply),
        ),
        TokenV::OperatorMultiplyBy => Ok(
            SyntaxComponentV::BinaryOperation(BinaryOperation::MultiplyBy),
        ),
        TokenV::OperatorDivision => Ok(SyntaxComponentV::BinaryOperation(BinaryOperation::Divide)),
        TokenV::OperatorDivideBy => Ok(
            SyntaxComponentV::BinaryOperation(BinaryOperation::DivideBy),
        ),
        TokenV::OperatorAddition => Ok(SyntaxComponentV::BinaryOperation(BinaryOperation::Add)),
        TokenV::OperatorSubtraction => Ok(
            SyntaxComponentV::BinaryOperation(BinaryOperation::Subtract),
        ),
        TokenV::OperatorIncreaseBy => Ok(
            SyntaxComponentV::BinaryOperation(BinaryOperation::IncreaseBy),
        ),
        TokenV::OperatorDecreaseBy => Ok(
            SyntaxComponentV::BinaryOperation(BinaryOperation::DecreaseBy),
        ),
        TokenV::OperatorIncrement => Ok(SyntaxComponentV::UnaryOperation(UnaryOperation::Increment)),
        TokenV::OperatorDecrement => Ok(SyntaxComponentV::UnaryOperation(UnaryOperation::Decrement)),
        TokenV::Not => Ok(SyntaxComponentV::UnaryOperation(UnaryOperation::Negation)),
        TokenV::OperatorAssignment => Ok(SyntaxComponentV::Assignment),
        TokenV::OperatorLessThan => Ok(SyntaxComponentV::Relation(Relation::LessThan)),
        TokenV::OperatorLessThanOrEqual => Ok(
            SyntaxComponentV::Relation(Relation::LessThanOrEqual),
        ),
        TokenV::OperatorGreaterThan => Ok(SyntaxComponentV::Relation(Relation::GreaterThan)),
        TokenV::OperatorGreaterThanOrEqual => Ok(
            SyntaxComponentV::Relation(Relation::GreaterThanOrEqual),
        ),
        TokenV::OperatorEqual => Ok(SyntaxComponentV::Relation(Relation::EqualTo)),
        TokenV::OperatorNotEqual => Ok(SyntaxComponentV::Relation(Relation::NotEqualTo)),
        TokenV::Identifier(name) => Ok(SyntaxComponentV::Identifier(name)),
        TokenV::Constant(text) => Ok(SyntaxComponentV::Constant(ConstantV::Number(text))),
        TokenV::True => Ok(SyntaxComponentV::Constant(ConstantV::Boolean(true))),
        TokenV::False => Ok(SyntaxComponentV::Constant(ConstantV::Boolean(false))),
        _ => Err(ErrorV::NotASyntaxComponent { token: t }),
    }
}

impl SyntaxComponent {
    /// Turns an expression token into the node tag it stands for.
    pub fn try_from_token(token: Token) -> (r: Result<SyntaxComponent, CompileError>)
        ensures
            match r {
                Ok(c) => spec_component_of(token@) == Ok::<SyntaxComponentV, ErrorV>(c@),
                Err(e) => spec_component_of(token@) == Err::<SyntaxComponentV, ErrorV>(e@),
            },
    {
        match token {
            Token::If => Ok(SyntaxComponent::If),
            Token::For => Ok(SyntaxComponent::For),
            Token::OperatorMultiplication => Ok(
                SyntaxComponent::BinaryOperation(BinaryOperation::Multiply),
            ),
            Token::OperatorMultiplyBy => Ok(
                SyntaxComponent::BinaryOperation(BinaryOperation::MultiplyBy),
            ),
            Token::OperatorDivision => Ok(
                SyntaxComponent::BinaryOperation(BinaryOperation::Divide),
            ),
            Token::OperatorDivideBy => Ok(
                SyntaxComponent::BinaryOperation(BinaryOperation::DivideBy),
            ),
            Token::OperatorAddition => Ok(SyntaxComponent::BinaryOperation(BinaryOperation::Add)),
            Token::OperatorSubtraction => Ok(
                SyntaxComponent::BinaryOperation(BinaryOperation::Subtract),
            ),
            Token::OperatorIncreaseBy => Ok(
                SyntaxComponent::BinaryOperation(BinaryOperation::IncreaseBy),
            ),
            Token::OperatorDecreaseBy => Ok(
                SyntaxComponent::BinaryOperation(BinaryOperation::DecreaseBy),
            ),
            Token::OperatorIncrement => Ok(
                SyntaxComponent::UnaryOperation(UnaryOperation::Increment),
            ),
            Token::OperatorDecrement => Ok(
                SyntaxComponent::UnaryOperation(UnaryOperation::Decrement),
            ),
            Token::Not => Ok(SyntaxComponent::UnaryOperation(UnaryOperation::Negation)),
            Token::OperatorAssignment => Ok(SyntaxComponent::Assignment),
            Token::OperatorLessThan => Ok(SyntaxComponent::Relation(Relation::LessThan)),
            Token::OperatorLessThanOrEqual => Ok(
                SyntaxComponent::Relation(Relation::LessThanOrEqual),
            ),
            Token::OperatorGreaterThan => Ok(SyntaxComponent::Relation(Relation::GreaterThan)),
            Token::OperatorGreaterThanOrEqual => Ok(
                SyntaxComponent::Relation(Relation::GreaterThanOrEqual),
            ),
            Token::OperatorEqual => Ok(SyntaxComponent::Relation(Relation::EqualTo)),
            Token::OperatorNotEqual => Ok(SyntaxComponent::Relation(Relation::NotEqualTo)),
            Token::Identifier(name) => Ok(SyntaxComponent::Identifier(name)),
            Token::Constant(text) => Ok(SyntaxComponent::Constant(Constant::Number(text))),
            Token::True => Ok(SyntaxComponent::Constant(Constant::Boolean(true))),
            Token::False => Ok(SyntaxComponent::Constant(Constant::Boolean(false))),
            _ => Err(CompileError::NotASyntaxComponent { token }),
        }
    }
}

/// One node of the tree: a tag and its ordered children.
#[derive(Debug, PartialEq)]
pub struct Ast {
    pub component: SyntaxComponent,
    pub children: Vec<Ast>,
}

/// The mathematical value of an AST node.
#[verifier::ext_equal]
pub ghost struct AstV {
    pub component: SyntaxComponentV,
    pub children: Seq<AstV>,
}

/// The mathematical value of a tree.
pub open spec fn ast_view(a: Ast) -> AstV
    decreases a,
{
    AstV { component: a.component@, children: asts_view(a.children@) }
}

/// The mathematical value of a forest, child by child.
pub open spec fn asts_view(s: Seq<Ast>) -> Seq<AstV>
    decreases s,
{
    if s.len() == 0 {
        Seq::empty()
    } else {
        asts_view(s.drop_last()).push(ast_view(s.last()))
    }
}

/// Appending a tree to a forest appends its view.
pub proof fn lemma_asts_view_push(s: Seq<Ast>, a: Ast)
    ensures
        asts_view(s.push(a)) == asts_view(s).push(ast_view(a)),
{
    assert(s.push(a).drop_last() =~= s);
    assert(s.push(a).last() == a);
}

/// A leaf node.
pub fn ast_leaf(component: SyntaxComponent) -> (a: Ast)
    ensures
        ast_view(a) == (AstV { component: component@, children: Seq::empty() }),
{
    let a = Ast { component, children: Vec::new() };
    proof {
        assert(ast_view(a) =~~= (AstV { component: a.component@, children: Seq::empty() }));
    }
    a
}

/// A node with one child.
pub fn ast_unary(component: SyntaxComponent, child: Ast) -> (a: Ast)
    ensures
        ast_view(a) == (AstV { component: component@, children: seq![ast_view(child)] }),
{
    let ghost child_v = ast_view(child);
    let mut children: Vec<Ast> = Vec::new();
    children.push(child);
    let a = Ast { component, children };
    proof {
        assert(a.children@.len() == 1);
        assert(ast_view(a.children@.last()) == child_v);
        assert(a.children@.drop_last() =~= Seq::<Ast>::empty());
        assert(asts_view(a.children@) == asts_view(a.children@.drop_last()).push(
            ast_view(a.children@.last()),
        ));
        assert(asts_view(a.children@) =~= seq![child_v]);
    }
    a
}

/// A node with two ordered children.
pub fn ast_binary(component: SyntaxComponent, left: Ast, right: Ast) -> (a: Ast)
    ensures
        ast_view(a) == (AstV {
            component: component@,
            children: seq![ast_view(left), ast_view(right)],
        }),
{
    let ghost left_v = ast_view(left);
    let ghost right_v = ast_view(right);
    let mut children: Vec<Ast> = Vec::new();
    children.push(left);
    children.push(right);
    let a = Ast { component, children };
    proof {
        let s = a.children@;
        assert(s.len() == 2);
        assert(ast_view(s.last()) == right_v);
        assert(s.drop_last().len() == 1);
        assert(s.drop_last().last() == s[0]);
        assert(ast_view(s.drop_last().last()) == left_v);
        assert(s.drop_last().drop_last() =~= Seq::<Ast>::empty());
        assert(asts_view(s.drop_last()) == asts_view(s.drop_last().drop_last()).push(
            ast_view(s.drop_last().last()),
        ));
        assert(asts_view(s.drop_last()) =~= seq![left_v]);
        assert(asts_view(s) == asts_view(s.drop_last()).push(ast_view(s.last())));
        assert(asts_view(s) =~= seq![left_v, right_v]);
    }
    a
}

/// The number of nodes in the tree rooted here.
pub open spec fn node_count(a: Ast) -> nat
    decreases a,
{
    1 + node_count_seq(a.children@)
}

/// The number of nodes in a forest.
pub open spec fn node_count_seq(s: Seq<Ast>) -> nat
    decreases s,
{
    if s.len() == 0 {
        0
    } else {
        node_count_seq(s.drop_last()) + node_count(s.last())
    }
}

/// Counts the nodes of the tree, stopping at the counter's ceiling; a
/// caller can so check, before lowering, that the temporary and label
/// counters cannot run out.
pub fn count_nodes_saturating(a: &Ast) -> (n: u32)
    ensures
        node_count(*a) <= u32::MAX ==> n as nat == node_count(*a),
        node_count(*a) > u32::MAX ==> n == u32::MAX,
    decreases *a,
{
    let mut total: u32 = 1;
    let mut i: usize = 0;
    proof {
        assert(a.children@.subrange(0, 0) =~= Seq::<Ast>::empty());
    }
    while i < a.children.len()
        invariant
            i <= a.children@.len(),
            ({
                let seen = node_count_seq(a.children@.subrange(0, i as int));
                (1 + seen <= u32::MAX ==> total as nat == 1 + seen) && (1 + seen > u32::MAX
                    ==> total == u32::MAX)
            }),
        decreases a.children@.len() - i,
    {
        proof {
            assert(decreases_to!(*a => a.children@[i as int]));
        }
        let child_count = count_nodes_saturating(&a.children[i]);
        total = if total > u32::MAX - child_count {
            u32::MAX
        } else {
            total + child_count
        };
        proof {
            assert(a.children@.subrange(0, i + 1).drop_last() =~= a.children@.subrange(
                0,
                i as int,
            ));
            assert(a.children@.subrange(0, i + 1).last() == a.children@[i as int]);
        }
        i = i + 1;
    }
    proof {
        assert(a.children@.subrange(0, a.children@.len() as int) =~= a.children@);
    }
    total
}

/// Dropping the first tree of a forest drops exactly its node count.
pub proof fn lemma_node_count_skip(s: Seq<Ast>, i: int)
    requires
        0 <= i < s.len(),
    ensures
        node_count_seq(s.skip(i)) == node_count(s[i]) + node_count_seq(s.skip(i + 1)),
    decreases s.len(),
{
    if i == s.len() - 1 {
        assert(s.skip(i).len() == 1);
        assert(s.skip(i).drop_last() =~= Seq::<Ast>::empty());
        assert(s.skip(i).last() == s[i]);
        assert(s.skip(i + 1) =~= Seq::<Ast>::empty());
    } else {
        assert(s.skip(i).drop_last() =~= s.drop_last().skip(i));
        assert(s.skip(i).last() == s.last());
        assert(s.skip(i + 1).drop_last() =~= s.drop_last().skip(i + 1));
        assert(s.skip(i + 1).last() == s.last());
        assert(s.drop_last()[i] == s[i]);
        lemma_node_count_skip(s.drop_last(), i);
    }
}

/// The first two trees of a forest count no more nodes than the forest.
pub proof fn lemma_node_count_pair(s: Seq<Ast>)
    requires
        s.len() >= 2,
    ensures
        node_count(s[0]) + node_count(s[1]) <= node_count_seq(s),
        node_count(s[0]) <= node_count_seq(s),
{
    assert(s.skip(0) =~= s);
    lemma_node_count_skip(s, 0);
    lemma_node_count_skip(s, 1);
}

/// The first four trees of a forest count no more nodes than the
/// forest.
pub proof fn lemma_node_count_quad(s: Seq<Ast>)
    requires
        s.len() >= 4,
    ensures
        node_count(s[0]) + node_count(s[1]) + node_count(s[2]) + node_count(s[3])
            <= node_count_seq(s),
{
    assert(s.skip(0) =~= s);
    lemma_node_count_skip(s, 0);
    lemma_node_count_skip(s, 1);
    lemma_node_count_skip(s, 2);
    lemma_node_count_skip(s, 3);
}

/// Every tree in a forest counts no more nodes than the whole forest.
pub proof fn lemma_node_count_seq(s: Seq<Ast>)
    ensures
        forall|i: int| 0 <= i < s.len() ==> node_count(#[trigger] s[i]) <= node_count_seq(s),
        forall|i: int|
            0 <= i <= s.len() ==> node_count_seq(#[trigger] s.subrange(0, i)) + node_count_seq(
                s.skip(i),
            ) == node_count_seq(s),
    decreases s.len(),
{
    if s.len() > 0 {
        lemma_node_count_seq(s.drop_last());
        assert forall|i: int|
            0 <= i <= s.len() implies node_count_seq(#[trigger] s.subrange(0, i)) + node_count_seq(
            s.skip(i),
        ) == node_count_seq(s) by {
            if i == s.len() {
                assert(s.subrange(0, i) == s);
                assert(s.skip(i) =~= Seq::<Ast>::empty());
            } else {
                assert(s.subrange(0, i) =~= s.drop_last().subrange(0, i));
                assert(s.skip(i).drop_last() =~= s.drop_last().skip(i));
                assert(s.skip(i).last() == s.last());
                assert(node_count_seq(s.skip(i)) == node_count_seq(s.drop_last().skip(i))
                    + node_count(s.last()));
            }
        }
        assert forall|i: int| 0 <= i < s.len() implies node_count(#[trigger] s[i])
            <= node_count_seq(s) by {
            if i < s.len() - 1 {
                assert(s.drop_last()[i] == s[i]);
            } else {
                assert(s.last() == s[i]);
            }
        }
    }
}

} // verus!
