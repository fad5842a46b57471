//! Three-address intermediate code: addresses, labels and instructions,
//! and the generator that lowers a checked tree to a flat code sequence.

use vstd::prelude::*;

use crate::abstract_syntax_tree::{
    node_count, node_count_seq, Ast, BinaryOperation, Constant, Relation, SyntaxComponent, Type,
    UnaryOperation,
};
use crate::errors::{CompileError, ErrorV};
use crate::symbol_table::{DataType, Symbol, SymbolTable, SymbolV, TableV};

verus! {

/// An instruction of the three-address code.
#[derive(Debug, Clone, Copy, PartialEq, Eq, Structural)]
pub enum Instruction {
    Addition,
    Subtraction,
    Multiplication,
    Division,
    Negation,
    Copy,
    GreaterThan,
    GreaterThanOrEqual,
    LessThan,
    LessThanOrEqual,
    Equal,
    NotEqual,
}

/// An operand or result position: a literal constant, kept as written,
/// or the n-th temporary.
#[derive(Debug, Clone, PartialEq)]
pub enum Address {
    Constant(String),
    Temp(u32),
}

/// The mathematical value of an `Address`.
pub ghost enum AddressV {
    Constant(Seq<char>),
    Temp(nat),
}

impl View for Address {
    type V = AddressV;

    open spec fn view(&self) -> AddressV {
        match self {
            Address::Constant(text) => AddressV::Constant(text@),
            Address::Temp(n) => AddressV::Temp(*n as nat),
        }
    }
}

/// A structurally equal copy of an address.
pub fn address_clone(a: &Address) -> (r: Address)
    ensures
        r@ == a@,
{
    match a {
        Address::Constant(text) => Address::Constant(text.clone()),
        Address::Temp(n) => Address::Temp(*n),
    }
}

/// Which control structure a label belongs to; the labels of one
/// compilation are numbered from monotonic counters.
#[derive(Debug, Clone, Copy, PartialEq, Eq, PartialOrd, Ord, Structural)]
pub enum LabelKind {
    IfBefore,
    ForBefore,
    ForAfter,
}

/// A jump target: `if_before_N`, `for_before_N` or `for_after_N`.
#[derive(Debug, Clone, Copy, PartialEq, Eq, PartialOrd, Ord, Structural)]
pub struct Label {
    pub kind: LabelKind,
    pub id: u32,
}

/// The mathematical value of a `Label`.
pub ghost struct LabelV {
    pub kind: LabelKind,
    pub id: nat,
}

impl View for Label {
    type V = LabelV;

    open spec fn view(&self) -> LabelV {
        LabelV { kind: self.kind, id: self.id as nat }
    }
}

/// One three-address instruction: `result = op(operand_1, operand_2?)`.
#[derive(Debug, Clone, PartialEq)]
pub struct ThreeAddressCode {
    pub instruction: Instruction,
    pub operand_1: Address,
    pub operand_2: Option<Address>,
    pub result: Address,
}

/// The mathematical value of a `ThreeAddressCode`.
pub ghost struct ThreeAddressCodeV {
    pub instruction: Instruction,
    pub operand_1: AddressV,
    pub operand_2: Option<AddressV>,
    pub result: AddressV,
}

impl View for ThreeAddressCode {
    type V = ThreeAddressCodeV;

    open spec fn view(&self) -> ThreeAddressCodeV {
        ThreeAddressCodeV {
            instruction: self.instruction,
            operand_1: self.operand_1@,
            operand_2: match &self.operand_2 {
                Some(a) => Some(a@),
                None => None,
            },
            result: self.result@,
        }
    }
}

/// One entry of the generated code: an instruction, an inline label, or
/// a jump.
#[derive(Debug, Clone, PartialEq)]
pub enum Code {
    ThreeAddress(ThreeAddressCode),
    Label(Label),
    JumpIfFalse(Address, Label),
    Jump(Label),
}

/// The mathematical value of a `Code` entry.
pub ghost enum CodeV {
    ThreeAddress(ThreeAddressCodeV),
    Label(LabelV),
    JumpIfFalse(AddressV, LabelV),
    Jump(LabelV),
}

impl View for Code {
    type V = CodeV;

    open spec fn view(&self) -> CodeV {
        match self {
            Code::ThreeAddress(t) => CodeV::ThreeAddress(t@),
            Code::Label(l) => CodeV::Label(l@),
            Code::JumpIfFalse(a, l) => CodeV::JumpIfFalse(a@, l@),
            Code::Jump(l) => CodeV::Jump(l@),
        }
    }
}

/// The mathematical value of a code sequence, entry by entry.
pub open spec fn codes_view(s: Seq<Code>) -> Seq<CodeV>
    decreases s,
{
    if s.len() == 0 {
        Seq::empty()
    } else {
        codes_view(s.drop_last()).push(s.last()@)
    }
}

/// The code-sequence view maps the entry view over every entry.
pub proof fn lemma_codes_view(s: Seq<Code>)
    ensures
        codes_view(s).len() == s.len(),
        forall|i: int| 0 <= i < s.len() ==> codes_view(s)[i] == #[trigger] s[i]@,
    decreases s.len(),
{
    if s.len() > 0 {
        lemma_codes_view(s.drop_last());
        assert forall|i: int| 0 <= i < s.len() implies codes_view(s)[i] == #[trigger] s[i]@ by {
            if i < s.len() - 1 {
                assert(s.drop_last()[i] == s[i]);
            } else {
                assert(s.last() == s[i]);
            }
        }
    }
}

/// Appending an entry to a code sequence appends its view.
pub proof fn lemma_codes_view_push(s: Seq<Code>, c: Code)
    ensures
        codes_view(s.push(c)) == codes_view(s).push(c@),
{
    assert(s.push(c).drop_last() =~= s);
    assert(s.push(c).last() == c);
}


/// The instruction of a plain arithmetic operator; compound operators
/// and the relations lower through their own tables.
pub open spec fn spec_plain_instruction(op: BinaryOperation) -> Option<Instruction> {
    match op {
        BinaryOperation::Add => Some(Instruction::Addition),
        BinaryOperation::Subtract => Some(Instruction::Subtraction),
        BinaryOperation::Multiply => Some(Instruction::Multiplication),
        BinaryOperation::Divide => Some(Instruction::Division),
        _ => None,
    }
}

/// The instruction of a compound-assignment operator.
pub open spec fn spec_compound_instruction(op: BinaryOperation) -> Option<Instruction> {
    match op {
        BinaryOperation::IncreaseBy => Some(Instruction::Addition),
        BinaryOperation::DecreaseBy => Some(Instruction::Subtraction),
        BinaryOperation::MultiplyBy => Some(Instruction::Multiplication),
        BinaryOperation::DivideBy => Some(Instruction::Division),
        _ => None,
    }
}

/// The instruction of a relational operator.
pub open spec fn spec_relation_instruction(rel: Relation) -> Instruction {
    match rel {
        Relation::GreaterThan => Instruction::GreaterThan,
        Relation::GreaterThanOrEqual => Instruction::GreaterThanOrEqual,
        Relation::LessThan => Instruction::LessThan,
        Relation::LessThanOrEqual => Instruction::LessThanOrEqual,
        Relation::EqualTo => Instruction::Equal,
        Relation::NotEqualTo => Instruction::NotEqual,
    }
}

/// The table after one more temporary has been drawn.
pub open spec fn spec_bump_temp(t: TableV) -> TableV {
    TableV { temp_count: t.temp_count + 1, ..t }
}

/// The numeral a boolean constant lowers to.
pub open spec fn spec_boolean_numeral(b: bool) -> Seq<char> {
    if b {
        seq!['1']
    } else {
        seq!['0']
    }
}

/// Lowers an expression whose operator takes a fresh temporary: the
/// temporary is drawn first, then both operands are lowered, and the
/// instruction writes the temporary.
pub open spec fn spec_extract_fresh_binary(a: Ast, t: TableV, instr: Instruction) -> (Result<
    AddressV,
    ErrorV,
>, Seq<CodeV>, TableV)
    decreases a, 0int,
{
    if a.children@.len() < 2 {
        (Err(ErrorV::MissingChild { parent: a.component@ }), Seq::empty(), t)
    } else {
        let result_address = AddressV::Temp(t.temp_count + 1);
        let (left_r, left_code, t2) = spec_extract(a.children@[0], spec_bump_temp(t));
        match left_r {
            Err(e) => (Err(e), left_code, t2),
            Ok(left_address) => {
                let (right_r, right_code, t3) = spec_extract(a.children@[1], t2);
                match right_r {
                    Err(e) => (Err(e), left_code + right_code, t3),
                    Ok(right_address) => (
                        Ok(result_address),
                        left_code + right_code + seq![
                            CodeV::ThreeAddress(
                                ThreeAddressCodeV {
                                    instruction: instr,
                                    operand_1: left_address,
                                    operand_2: Some(right_address),
                                    result: result_address,
                                },
                            ),
                        ],
                        t3,
                    ),
                }
            },
        }
    }
}

/// Lowers a compound assignment: the target must be an identifier, and
/// the instruction writes the target's own storage.
pub open spec fn spec_extract_compound(a: Ast, t: TableV, instr: Instruction) -> (Result<
    AddressV,
    ErrorV,
>, Seq<CodeV>, TableV)
    decreases a, 0int,
{
    if a.children@.len() < 2 {
        (Err(ErrorV::MissingChild { parent: a.component@ }), Seq::empty(), t)
    } else if !(a.children@[0].component is Identifier) {
        (Err(ErrorV::MutationTargetNotIdentifier), Seq::empty(), t)
    } else {
        let (target_r, target_code, t2) = spec_extract(a.children@[0], t);
        match target_r {
            Err(e) => (Err(e), target_code, t2),
            Ok(target_address) => {
                let (value_r, value_code, t3) = spec_extract(a.children@[1], t2);
                match value_r {
                    Err(e) => (Err(e), target_code + value_code, t3),
                    Ok(value_address) => (
                        Ok(target_address),
                        target_code + value_code + seq![
                            CodeV::ThreeAddress(
                                ThreeAddressCodeV {
                                    instruction: instr,
                                    operand_1: target_address,
                                    operand_2: Some(value_address),
                                    result: target_address,
                                },
                            ),
                        ],
                        t3,
                    ),
                }
            },
        }
    }
}

/// Lowers `++` or `--`: the operand must be an identifier, and the
/// instruction adds or subtracts one in place.
pub open spec fn spec_extract_mutation(a: Ast, t: TableV, instr: Instruction) -> (Result<
    AddressV,
    ErrorV,
>, Seq<CodeV>, TableV)
    decreases a, 0int,
{
    if a.children@.len() < 1 {
        (Err(ErrorV::MissingChild { parent: a.component@ }), Seq::empty(), t)
    } else if !(a.children@[0].component is Identifier) {
        (Err(ErrorV::MutationTargetNotIdentifier), Seq::empty(), t)
    } else {
        let (target_r, target_code, t2) = spec_extract(a.children@[0], t);
        match target_r {
            Err(e) => (Err(e), target_code, t2),
            Ok(target_address) => (
                Ok(target_address),
                target_code + seq![
                    CodeV::ThreeAddress(
                        ThreeAddressCodeV {
                            instruction: instr,
                            operand_1: target_address,
                            operand_2: Some(AddressV::Constant(seq!['1'])),
                            result: target_address,
                        },
                    ),
                ],
                t2,
            ),
        }
    }
}

/// Lowers `!`: a fresh temporary receives the negation of the operand.
pub open spec fn spec_extract_negation(a: Ast, t: TableV) -> (Result<
    AddressV,
    ErrorV,
>, Seq<CodeV>, TableV)
    decreases a, 0int,
{
    if a.children@.len() < 1 {
        (Err(ErrorV::MissingChild { parent: a.component@ }), Seq::empty(), t)
    } else {
        let result_address = AddressV::Temp(t.temp_count + 1);
        let (operand_r, operand_code, t2) = spec_extract(a.children@[0], spec_bump_temp(t));
        match operand_r {
            Err(e) => (Err(e), operand_code, t2),
            Ok(operand_address) => (
                Ok(result_address),
                operand_code + seq![
                    CodeV::ThreeAddress(
                        ThreeAddressCodeV {
                            instruction: Instruction::Negation,
                            operand_1: operand_address,
                            operand_2: None,
                            result: result_address,
                        },
                    ),
                ],
                t2,
            ),
        }
    }
}

/// What evaluating an expression node emits: the code that computes it,
/// and the address its value lives at.
pub open spec fn spec_extract(a: Ast, t: TableV) -> (Result<AddressV, ErrorV>, Seq<CodeV>, TableV)
    decreases a, 1int,
{
    match a.component {
        SyntaxComponent::Constant(Constant::Number(text)) => (
            Ok(AddressV::Constant(text@)),
            Seq::empty(),
            t,
        ),
        SyntaxComponent::Constant(Constant::Boolean(b)) => (
            Ok(AddressV::Constant(spec_boolean_numeral(b))),
            Seq::empty(),
            t,
        ),
        SyntaxComponent::Identifier(name) => {
            if t.map.contains_key(name@) {
                match t.map[name@].location {
                    Some(address) => (Ok(address), Seq::empty(), t),
                    None => (Err(ErrorV::UnallocatedIdentifier { name: name@ }), Seq::empty(), t),
                }
            } else {
                (Err(ErrorV::UnallocatedIdentifier { name: name@ }), Seq::empty(), t)
            }
        },
        SyntaxComponent::BinaryOperation(op) => {
            match spec_plain_instruction(op) {
                Some(instr) => spec_extract_fresh_binary(a, t, instr),
                None => match spec_compound_instruction(op) {
                    Some(instr) => spec_extract_compound(a, t, instr),
                    None => (
                        Err(ErrorV::AddressOfNonValue { component: a.component@ }),
                        Seq::empty(),
                        t,
                    ),
                },
            }
        },
        SyntaxComponent::Relation(rel) => spec_extract_fresh_binary(
            a,
            t,
            spec_relation_instruction(rel),
        ),
        SyntaxComponent::UnaryOperation(UnaryOperation::Increment) => spec_extract_mutation(
            a,
            t,
            Instruction::Addition,
        ),
        SyntaxComponent::UnaryOperation(UnaryOperation::Decrement) => spec_extract_mutation(
            a,
            t,
            Instruction::Subtraction,
        ),
        SyntaxComponent::UnaryOperation(UnaryOperation::Negation) => spec_extract_negation(a, t),
        _ => (Err(ErrorV::AddressOfNonValue { component: a.component@ }), Seq::empty(), t),
    }
}

/// The result address of the last entry of a condition's code: the
/// address a conditional jump tests.
pub open spec fn spec_condition_address(code: Seq<CodeV>) -> Result<AddressV, ErrorV> {
    if code.len() == 0 {
        Err(ErrorV::EmptyConditionCode)
    } else {
        match code.last() {
            CodeV::ThreeAddress(three_address) => Ok(three_address.result),
            _ => Err(ErrorV::NoResultAddress),
        }
    }
}

/// Lowers the children of a `Sequence` in order against the block's own
/// copy of the table.
pub open spec fn spec_lower_sequence(children: Seq<Ast>, t: TableV, i: int) -> (Result<
    (),
    ErrorV,
>, Seq<CodeV>, TableV)
    decreases children, children.len() - i,
{
    if i < 0 || i >= children.len() {
        (Ok(()), Seq::empty(), t)
    } else {
        let (r, code, t1) = spec_lower(children[i], t);
        match r {
            Err(e) => (Err(e), code, t1),
            Ok(_) => {
                let (rest_r, rest_code, t2) = spec_lower_sequence(children, t1, i + 1);
                match rest_r {
                    Err(e) => (Err(e), code + rest_code, t2),
                    Ok(_) => (Ok(()), code + rest_code, t2),
                }
            },
        }
    }
}

/// Lowers an `if` statement: condition code, a jump past the body when
/// the condition is false, the body, and the label the jump lands on.
pub open spec fn spec_lower_if(a: Ast, t: TableV) -> (Result<(), ErrorV>, Seq<CodeV>, TableV)
    decreases a, 0int,
{
    let label = LabelV { kind: LabelKind::IfBefore, id: t.if_count + 1 };
    let t1 = TableV { if_count: t.if_count + 1, ..t };
    if a.children@.len() < 2 {
        (Err(ErrorV::MissingChild { parent: a.component@ }), Seq::empty(), t1)
    } else {
        let (condition_r, condition_code, t2) = spec_lower(a.children@[0], t1);
        match condition_r {
            Err(e) => (Err(e), condition_code, t2),
            Ok(_) => match spec_condition_address(condition_code) {
                Err(e) => (Err(e), condition_code, t2),
                Ok(condition_address) => {
                    let (body_r, body_code, t3) = spec_lower(a.children@[1], t2);
                    match body_r {
                        Err(e) => (Err(e), condition_code + body_code, t3),
                        Ok(_) => (
                            Ok(()),
                            condition_code + seq![CodeV::JumpIfFalse(condition_address, label)]
                                + body_code + seq![CodeV::Label(label)],
                            t3,
                        ),
                    }
                },
            },
        }
    }
}

/// Lowers a `for` statement: pre-loop code, the `before` label, the
/// condition, a jump to `after` when it is false, the body, the
/// post-loop code, a jump back to `before`, and the `after` label.
pub open spec fn spec_lower_for(a: Ast, t: TableV) -> (Result<(), ErrorV>, Seq<CodeV>, TableV)
    decreases a, 0int,
{
    let before = LabelV { kind: LabelKind::ForBefore, id: t.for_count + 1 };
    let after = LabelV { kind: LabelKind::ForAfter, id: t.for_count + 1 };
    let t1 = TableV { for_count: t.for_count + 1, ..t };
    if a.children@.len() < 4 {
        (Err(ErrorV::MissingChild { parent: a.component@ }), Seq::empty(), t1)
    } else {
        let (pre_r, pre_code, t2) = spec_lower(a.children@[0], t1);
        match pre_r {
            Err(e) => (Err(e), pre_code, t2),
            Ok(_) => {
                let (condition_r, condition_code, t3) = spec_lower(a.children@[1], t2);
                match condition_r {
                    Err(e) => (Err(e), pre_code + condition_code, t3),
                    Ok(_) => {
                        let (post_r, post_code, t4) = spec_lower(a.children@[2], t3);
                        match post_r {
                            Err(e) => (Err(e), pre_code + condition_code + post_code, t4),
                            Ok(_) => match spec_condition_address(condition_code) {
                                Err(e) => (Err(e), pre_code + condition_code + post_code, t4),
                                Ok(condition_address) => {
                                    let (body_r, body_code, t5) = spec_lower(a.children@[3], t4);
                                    match body_r {
                                        Err(e) => (
                                            Err(e),
                                            pre_code + condition_code + post_code + body_code,
                                            t5,
                                        ),
                                        Ok(_) => (
                                            Ok(()),
                                            pre_code + seq![CodeV::Label(before)] + condition_code
                                                + seq![
                                                CodeV::JumpIfFalse(condition_address, after),
                                            ] + body_code + post_code + seq![
                                                CodeV::Jump(before),
                                            ] + seq![CodeV::Label(after)],
                                            t5,
                                        ),
                                    }
                                },
                            },
                        }
                    },
                }
            },
        }
    }
}

/// Lowers a declaration: the initializer is lowered first, then a fresh
/// temporary becomes the identifier's storage, and the initial value is
/// copied into it.
pub open spec fn spec_lower_declaration(a: Ast, t: TableV) -> (Result<
    (),
    ErrorV,
>, Seq<CodeV>, TableV)
    decreases a, 0int,
{
    if a.children@.len() < 1 {
        (Err(ErrorV::MissingChild { parent: a.component@ }), Seq::empty(), t)
    } else {
        match a.children@[0].component {
            SyntaxComponent::Type(declared) => {
                let data_type = match declared {
                    Type::Number => DataType::Number,
                    Type::Boolean => DataType::Boolean,
                };
                if a.children@.len() < 2 {
                    (Err(ErrorV::MissingChild { parent: a.component@ }), Seq::empty(), t)
                } else {
                    match a.children@[1].component {
                        SyntaxComponent::Identifier(name) => {
                            if a.children@.len() < 3 {
                                let storage = AddressV::Temp(t.temp_count + 1);
                                let t1 = TableV {
                                    temp_count: t.temp_count + 1,
                                    map: t.map.insert(
                                        name@,
                                        SymbolV { location: Some(storage), data_type },
                                    ),
                                    ..t
                                };
                                (Ok(()), Seq::empty(), t1)
                            } else {
                                let (value_r, value_code, t1) = spec_extract(a.children@[2], t);
                                match value_r {
                                    Err(e) => (Err(e), value_code, t1),
                                    Ok(value_address) => {
                                        let storage = AddressV::Temp(t1.temp_count + 1);
                                        let t2 = TableV {
                                            temp_count: t1.temp_count + 1,
                                            map: t1.map.insert(
                                                name@,
                                                SymbolV { location: Some(storage), data_type },
                                            ),
                                            ..t1
                                        };
                                        (
                                            Ok(()),
                                            value_code + seq![
                                                CodeV::ThreeAddress(
                                                    ThreeAddressCodeV {
                                                        instruction: Instruction::Copy,
                                                        operand_1: value_address,
                                                        operand_2: None,
                                                        result: storage,
                                                    },
                                                ),
                                            ],
                                            t2,
                                        )
                                    },
                                }
                            }
                        },
                        _ => (Err(ErrorV::NotAnIdentifier), Seq::empty(), t),
                    }
                }
            },
            _ => (Err(ErrorV::NotAType), Seq::empty(), t),
        }
    }
}

/// Lowers an assignment: both sides are lowered, then the value is
/// copied into the target's address.
pub open spec fn spec_lower_assignment(a: Ast, t: TableV) -> (Result<
    (),
    ErrorV,
>, Seq<CodeV>, TableV)
    decreases a, 0int,
{
    if a.children@.len() < 2 {
        (Err(ErrorV::MissingChild { parent: a.component@ }), Seq::empty(), t)
    } else {
        let (target_r, target_code, t1) = spec_extract(a.children@[0], t);
        match target_r {
            Err(e) => (Err(e), target_code, t1),
            Ok(target_address) => {
                let (value_r, value_code, t2) = spec_extract(a.children@[1], t1);
                match value_r {
                    Err(e) => (Err(e), target_code + value_code, t2),
                    Ok(value_address) => (
                        Ok(()),
                        target_code + value_code + seq![
                            CodeV::ThreeAddress(
                                ThreeAddressCodeV {
                                    instruction: Instruction::Copy,
                                    operand_1: value_address,
                                    operand_2: None,
                                    result: target_address,
                                },
                            ),
                        ],
                        t2,
                    ),
                }
            },
        }
    }
}

/// What lowering one statement node emits.
pub open spec fn spec_lower(a: Ast, t: TableV) -> (Result<(), ErrorV>, Seq<CodeV>, TableV)
    decreases a, 2int,
{
    match a.component {
        SyntaxComponent::Sequence => {
            // the block draws names against its own copy of the table;
            // the counters alone are adopted back, so they stay
            // monotonic across the whole compilation
            let (r, code, t_inner) = spec_lower_sequence(a.children@, t, 0);
            match r {
                Err(e) => (Err(e), code, t),
                Ok(_) => (
                    Ok(()),
                    code,
                    TableV {
                        map: t.map,
                        temp_count: t_inner.temp_count,
                        if_count: t_inner.if_count,
                        for_count: t_inner.for_count,
                    },
                ),
            }
        },
        SyntaxComponent::If => spec_lower_if(a, t),
        SyntaxComponent::For => spec_lower_for(a, t),
        SyntaxComponent::Declaration => spec_lower_declaration(a, t),
        SyntaxComponent::Assignment => spec_lower_assignment(a, t),
        SyntaxComponent::Relation(_) | SyntaxComponent::BinaryOperation(_)
            | SyntaxComponent::UnaryOperation(_) | SyntaxComponent::Identifier(_) => {
            let (r, code, t1) = spec_extract(a, t);
            match r {
                Err(e) => (Err(e), code, t1),
                Ok(_) => (Ok(()), code, t1),
            }
        },
        SyntaxComponent::Type(_) | SyntaxComponent::Null | SyntaxComponent::Constant(_) => (
            Err(ErrorV::NotAStatement { component: a.component@ }),
            Seq::empty(),
            t,
        ),
    }
}

impl Code {
    /// The result address of a three-address entry; an error on a label
    /// or a jump.
    pub fn try_get_result_address(&self) -> (r: Result<Address, crate::errors::CompileError>)
        ensures
            match r {
                Ok(a) => self@ matches CodeV::ThreeAddress(t) && a@ == t.result,
                Err(e) => !(self@ is ThreeAddress) && e@
                    == crate::errors::ErrorV::NoResultAddress,
            },
    {
        if let Code::ThreeAddress(three_address_code) = self {
            Ok(address_clone(&three_address_code.result))
        } else {
            Err(crate::errors::CompileError::NoResultAddress)
        }
    }
}


/// Concatenating code sequences concatenates their views.
pub proof fn lemma_codes_view_concat(a: Seq<Code>, b: Seq<Code>)
    ensures
        codes_view(a + b) == codes_view(a) + codes_view(b),
    decreases b.len(),
{
    if b.len() == 0 {
        assert(a + b =~= a);
        assert(codes_view(a) + codes_view(b) =~= codes_view(a));
    } else {
        assert((a + b).drop_last() =~= a + b.drop_last());
        assert((a + b).last() == b.last());
        lemma_codes_view_concat(a, b.drop_last());
        assert(codes_view(a) + codes_view(b) =~= (codes_view(a) + codes_view(
            b.drop_last(),
        )).push(b.last()@));
    }
}

fn plain_instruction(op: BinaryOperation) -> (r: Option<Instruction>)
    ensures
        r == spec_plain_instruction(op),
{
    match op {
        BinaryOperation::Add => Some(Instruction::Addition),
        BinaryOperation::Subtract => Some(Instruction::Subtraction),
        BinaryOperation::Multiply => Some(Instruction::Multiplication),
        BinaryOperation::Divide => Some(Instruction::Division),
        _ => None,
    }
}

fn compound_instruction(op: BinaryOperation) -> (r: Option<Instruction>)
    ensures
        r == spec_compound_instruction(op),
{
    match op {
        BinaryOperation::IncreaseBy => Some(Instruction::Addition),
        BinaryOperation::DecreaseBy => Some(Instruction::Subtraction),
        BinaryOperation::MultiplyBy => Some(Instruction::Multiplication),
        BinaryOperation::DivideBy => Some(Instruction::Division),
        _ => None,
    }
}

fn relation_instruction(rel: Relation) -> (r: Instruction)
    ensures
        r == spec_relation_instruction(rel),
{
    match rel {
        Relation::GreaterThan => Instruction::GreaterThan,
        Relation::GreaterThanOrEqual => Instruction::GreaterThanOrEqual,
        Relation::LessThan => Instruction::LessThan,
        Relation::LessThanOrEqual => Instruction::LessThanOrEqual,
        Relation::EqualTo => Instruction::Equal,
        Relation::NotEqualTo => Instruction::NotEqual,
    }
}

fn extract_fresh_binary(
    value_ast: &Ast,
    instr: Instruction,
    code: &mut Vec<Code>,
    symbol_table: &mut SymbolTable,
) -> (r: Result<Address, CompileError>)
    requires
        old(symbol_table)@.temp_count + node_count(*value_ast) <= u32::MAX,
    ensures
        ({
            let (spec_r, emitted, spec_t) = spec_extract_fresh_binary(
                *value_ast,
                old(symbol_table)@,
                instr,
            );
            final(symbol_table)@ == spec_t && codes_view(final(code)@) == codes_view(old(code)@)
                + emitted && match r {
                Ok(address) => spec_r == Ok::<AddressV, ErrorV>(address@),
                Err(e) => spec_r == Err::<AddressV, ErrorV>(e@),
            }
        }),
        old(symbol_table)@.temp_count <= final(symbol_table)@.temp_count <= old(
            symbol_table,
        )@.temp_count + node_count(*value_ast),
        final(symbol_table)@.if_count == old(symbol_table)@.if_count,
        final(symbol_table)@.for_count == old(symbol_table)@.for_count,
        final(symbol_table)@.map == old(symbol_table)@.map,
    decreases *value_ast, 0int,
{
    if value_ast.children.len() < 2 {
        proof {
            assert(codes_view(old(code)@) + Seq::<CodeV>::empty() =~= codes_view(old(code)@));
        }
        return Err(CompileError::MissingChild { parent: value_ast.component.duplicate() });
    }
    proof {
        crate::abstract_syntax_tree::lemma_node_count_pair(value_ast.children@);
    }
    let result_address = Address::Temp(symbol_table.new_temp());
    proof {
        assert(symbol_table@ =~~= spec_bump_temp(old(symbol_table)@));
    }
    let left_operand_address = match extract_value_address(
        &value_ast.children[0],
        code,
        symbol_table,
    ) {
        Ok(address) => address,
        Err(e) => {
            return Err(e);
        },
    };
    let right_operand_address = match extract_value_address(
        &value_ast.children[1],
        code,
        symbol_table,
    ) {
        Ok(address) => address,
        Err(e) => {
            proof {
                let (r1, c1, t2) = spec_extract(
                    value_ast.children@[0],
                    spec_bump_temp(old(symbol_table)@),
                );
                let (r2, c2, t3) = spec_extract(value_ast.children@[1], t2);
                assert(codes_view(final(code)@) =~= codes_view(old(code)@) + (c1 + c2));
            }
            return Err(e);
        },
    };
    let ghost before_push = code@;
    code.push(
        Code::ThreeAddress(
            ThreeAddressCode {
                instruction: instr,
                operand_1: left_operand_address,
                operand_2: Some(right_operand_address),
                result: address_clone(&result_address),
            },
        ),
    );
    proof {
        lemma_codes_view_push(before_push, code@.last());
        let (r1, c1, t2) = spec_extract(
            value_ast.children@[0],
            spec_bump_temp(old(symbol_table)@),
        );
        let (r2, c2, t3) = spec_extract(value_ast.children@[1], t2);
        assert(codes_view(final(code)@) =~= codes_view(old(code)@) + (c1 + c2 + seq![
            CodeV::ThreeAddress(
                ThreeAddressCodeV {
                    instruction: instr,
                    operand_1: r1->Ok_0,
                    operand_2: Some(r2->Ok_0),
                    result: result_address@,
                },
            ),
        ]));
    }
    Ok(result_address)
}

fn extract_compound(
    value_ast: &Ast,
    instr: Instruction,
    code: &mut Vec<Code>,
    symbol_table: &mut SymbolTable,
) -> (r: Result<Address, CompileError>)
    requires
        old(symbol_table)@.temp_count + node_count(*value_ast) <= u32::MAX,
    ensures
        ({
            let (spec_r, emitted, spec_t) = spec_extract_compound(
                *value_ast,
                old(symbol_table)@,
                instr,
            );
            final(symbol_table)@ == spec_t && codes_view(final(code)@) == codes_view(old(code)@)
                + emitted && match r {
                Ok(address) => spec_r == Ok::<AddressV, ErrorV>(address@),
                Err(e) => spec_r == Err::<AddressV, ErrorV>(e@),
            }
        }),
        old(symbol_table)@.temp_count <= final(symbol_table)@.temp_count <= old(
            symbol_table,
        )@.temp_count + node_count(*value_ast),
        final(symbol_table)@.if_count == old(symbol_table)@.if_count,
        final(symbol_table)@.for_count == old(symbol_table)@.for_count,
        final(symbol_table)@.map == old(symbol_table)@.map,
    decreases *value_ast, 0int,
{
    if value_ast.children.len() < 2 {
        proof {
            assert(codes_view(old(code)@) + Seq::<CodeV>::empty() =~= codes_view(old(code)@));
        }
        return Err(CompileError::MissingChild { parent: value_ast.component.duplicate() });
    }
    if !value_ast.children[0].component.is_identifier() {
        proof {
            assert(codes_view(old(code)@) + Seq::<CodeV>::empty() =~= codes_view(old(code)@));
        }
        return Err(CompileError::MutationTargetNotIdentifier);
    }
    proof {
        crate::abstract_syntax_tree::lemma_node_count_pair(value_ast.children@);
    }
    let target_address = match extract_value_address(&value_ast.children[0], code, symbol_table) {
        Ok(address) => address,
        Err(e) => {
            return Err(e);
        },
    };
    let value_address = match extract_value_address(&value_ast.children[1], code, symbol_table) {
        Ok(address) => address,
        Err(e) => {
            proof {
                let (r1, c1, t2) = spec_extract(value_ast.children@[0], old(symbol_table)@);
                let (r2, c2, t3) = spec_extract(value_ast.children@[1], t2);
                assert(codes_view(final(code)@) =~= codes_view(old(code)@) + (c1 + c2));
            }
            return Err(e);
        },
    };
    let ghost before_push = code@;
    code.push(
        Code::ThreeAddress(
            ThreeAddressCode {
                instruction: instr,
                operand_1: address_clone(&target_address),
                operand_2: Some(value_address),
                result: address_clone(&target_address),
            },
        ),
    );
    proof {
        lemma_codes_view_push(before_push, code@.last());
        let (r1, c1, t2) = spec_extract(value_ast.children@[0], old(symbol_table)@);
        let (r2, c2, t3) = spec_extract(value_ast.children@[1], t2);
        assert(codes_view(final(code)@) =~= codes_view(old(code)@) + (c1 + c2 + seq![
            CodeV::ThreeAddress(
                ThreeAddressCodeV {
                    instruction: instr,
                    operand_1: r1->Ok_0,
                    operand_2: Some(r2->Ok_0),
                    result: r1->Ok_0,
                },
            ),
        ]));
    }
    Ok(target_address)
}

fn extract_mutation(
    value_ast: &Ast,
    instr: Instruction,
    code: &mut Vec<Code>,
    symbol_table: &mut SymbolTable,
) -> (r: Result<Address, CompileError>)
    requires
        old(symbol_table)@.temp_count + node_count(*value_ast) <= u32::MAX,
    ensures
        ({
            let (spec_r, emitted, spec_t) = spec_extract_mutation(
                *value_ast,
                old(symbol_table)@,
                instr,
            );
            final(symbol_table)@ == spec_t && codes_view(final(code)@) == codes_view(old(code)@)
                + emitted && match r {
                Ok(address) => spec_r == Ok::<AddressV, ErrorV>(address@),
                Err(e) => spec_r == Err::<AddressV, ErrorV>(e@),
            }
        }),
        old(symbol_table)@.temp_count <= final(symbol_table)@.temp_count <= old(
            symbol_table,
        )@.temp_count + node_count(*value_ast),
        final(symbol_table)@.if_count == old(symbol_table)@.if_count,
        final(symbol_table)@.for_count == old(symbol_table)@.for_count,
        final(symbol_table)@.map == old(symbol_table)@.map,
    decreases *value_ast, 0int,
{
    if value_ast.children.len() < 1 {
        proof {
            assert(codes_view(old(code)@) + Seq::<CodeV>::empty() =~= codes_view(old(code)@));
        }
        return Err(CompileError::MissingChild { parent: value_ast.component.duplicate() });
    }
    if !value_ast.children[0].component.is_identifier() {
        proof {
            assert(codes_view(old(code)@) + Seq::<CodeV>::empty() =~= codes_view(old(code)@));
        }
        return Err(CompileError::MutationTargetNotIdentifier);
    }
    proof {
        crate::abstract_syntax_tree::lemma_node_count_seq(value_ast.children@);
    }
    let target_address = match extract_value_address(&value_ast.children[0], code, symbol_table) {
        Ok(address) => address,
        Err(e) => {
            return Err(e);
        },
    };
    let one = Address::Constant("1".to_owned());
    proof {
        reveal_strlit("1");
        assert("1"@ =~= seq!['1']);
        assert(one@ == AddressV::Constant(seq!['1']));
    }
    let ghost before_push = code@;
    code.push(
        Code::ThreeAddress(
            ThreeAddressCode {
                instruction: instr,
                operand_1: address_clone(&target_address),
                operand_2: Some(one),
                result: address_clone(&target_address),
            },
        ),
    );
    proof {
        lemma_codes_view_push(before_push, code@.last());
        let (r1, c1, t2) = spec_extract(value_ast.children@[0], old(symbol_table)@);
        assert(codes_view(final(code)@) =~= codes_view(old(code)@) + (c1 + seq![
            CodeV::ThreeAddress(
                ThreeAddressCodeV {
                    instruction: instr,
                    operand_1: r1->Ok_0,
                    operand_2: Some(AddressV::Constant(seq!['1'])),
                    result: r1->Ok_0,
                },
            ),
        ]));
    }
    Ok(target_address)
}

fn extract_negation(value_ast: &Ast, code: &mut Vec<Code>, symbol_table: &mut SymbolTable) -> (r:
    Result<Address, CompileError>)
    requires
        old(symbol_table)@.temp_count + node_count(*value_ast) <= u32::MAX,
    ensures
        ({
            let (spec_r, emitted, spec_t) = spec_extract_negation(*value_ast, old(symbol_table)@);
            final(symbol_table)@ == spec_t && codes_view(final(code)@) == codes_view(old(code)@)
                + emitted && match r {
                Ok(address) => spec_r == Ok::<AddressV, ErrorV>(address@),
                Err(e) => spec_r == Err::<AddressV, ErrorV>(e@),
            }
        }),
        old(symbol_table)@.temp_count <= final(symbol_table)@.temp_count <= old(
            symbol_table,
        )@.temp_count + node_count(*value_ast),
        final(symbol_table)@.if_count == old(symbol_table)@.if_count,
        final(symbol_table)@.for_count == old(symbol_table)@.for_count,
        final(symbol_table)@.map == old(symbol_table)@.map,
    decreases *value_ast, 0int,
{
    if value_ast.children.len() < 1 {
        proof {
            assert(codes_view(old(code)@) + Seq::<CodeV>::empty() =~= codes_view(old(code)@));
        }
        return Err(CompileError::MissingChild { parent: value_ast.component.duplicate() });
    }
    proof {
        crate::abstract_syntax_tree::lemma_node_count_seq(value_ast.children@);
    }
    let result_address = Address::Temp(symbol_table.new_temp());
    proof {
        assert(symbol_table@ =~~= spec_bump_temp(old(symbol_table)@));
    }
    let operand_address = match extract_value_address(&value_ast.children[0], code, symbol_table) {
        Ok(address) => address,
        Err(e) => {
            return Err(e);
        },
    };
    let ghost before_push = code@;
    code.push(
        Code::ThreeAddress(
            ThreeAddressCode {
                instruction: Instruction::Negation,
                operand_1: operand_address,
                operand_2: None,
                result: address_clone(&result_address),
            },
        ),
    );
    proof {
        lemma_codes_view_push(before_push, code@.last());
        let (r1, c1, t2) = spec_extract(
            value_ast.children@[0],
            spec_bump_temp(old(symbol_table)@),
        );
        assert(codes_view(final(code)@) =~= codes_view(old(code)@) + (c1 + seq![
            CodeV::ThreeAddress(
                ThreeAddressCodeV {
                    instruction: Instruction::Negation,
                    operand_1: r1->Ok_0,
                    operand_2: None,
                    result: result_address@,
                },
            ),
        ]));
    }
    Ok(result_address)
}

/// Returns an address naming the value of an expression node, emitting
/// the code that computes it; `spec_extract` pins both down.
fn extract_value_address(value_ast: &Ast, code: &mut Vec<Code>, symbol_table: &mut SymbolTable) -> (r: Result<
    Address,
    CompileError,
>)
    requires
        old(symbol_table)@.temp_count + node_count(*value_ast) <= u32::MAX,
    ensures
        ({
            let (spec_r, emitted, spec_t) = spec_extract(*value_ast, old(symbol_table)@);
            final(symbol_table)@ == spec_t && codes_view(final(code)@) == codes_view(old(code)@)
                + emitted && match r {
                Ok(address) => spec_r == Ok::<AddressV, ErrorV>(address@),
                Err(e) => spec_r == Err::<AddressV, ErrorV>(e@),
            }
        }),
        old(symbol_table)@.temp_count <= final(symbol_table)@.temp_count <= old(
            symbol_table,
        )@.temp_count + node_count(*value_ast),
        final(symbol_table)@.if_count == old(symbol_table)@.if_count,
        final(symbol_table)@.for_count == old(symbol_table)@.for_count,
        final(symbol_table)@.map == old(symbol_table)@.map,
    decreases *value_ast, 1int,
{
    proof {
        assert(codes_view(old(code)@) + Seq::<CodeV>::empty() =~= codes_view(old(code)@));
    }
    match &value_ast.component {
        SyntaxComponent::Constant(Constant::Number(text)) => Ok(Address::Constant(text.clone())),
        SyntaxComponent::Constant(Constant::Boolean(b)) => {
            let numeral: String = if *b {
                "1".to_owned()
            } else {
                "0".to_owned()
            };
            proof {
                reveal_strlit("1");
                reveal_strlit("0");
                assert(numeral@ =~= spec_boolean_numeral(*b));
            }
            Ok(Address::Constant(numeral))
        },
        SyntaxComponent::Identifier(id_name) => match symbol_table.get(id_name) {
            Some(symbol) => match symbol.location {
                Some(address) => Ok(address),
                None => Err(CompileError::UnallocatedIdentifier { name: id_name.clone() }),
            },
            None => Err(CompileError::UnallocatedIdentifier { name: id_name.clone() }),
        },
        SyntaxComponent::BinaryOperation(op) => match plain_instruction(*op) {
            Some(instr) => extract_fresh_binary(value_ast, instr, code, symbol_table),
            None => match compound_instruction(*op) {
                Some(instr) => extract_compound(value_ast, instr, code, symbol_table),
                None => Err(
                    CompileError::AddressOfNonValue {
                        component: value_ast.component.duplicate(),
                    },
                ),
            },
        },
        SyntaxComponent::Relation(rel) => extract_fresh_binary(
            value_ast,
            relation_instruction(*rel),
            code,
            symbol_table,
        ),
        SyntaxComponent::UnaryOperation(UnaryOperation::Increment) => extract_mutation(
            value_ast,
            Instruction::Addition,
            code,
            symbol_table,
        ),
        SyntaxComponent::UnaryOperation(UnaryOperation::Decrement) => extract_mutation(
            value_ast,
            Instruction::Subtraction,
            code,
            symbol_table,
        ),
        SyntaxComponent::UnaryOperation(UnaryOperation::Negation) => extract_negation(
            value_ast,
            code,
            symbol_table,
        ),
        _ => Err(CompileError::AddressOfNonValue { component: value_ast.component.duplicate() }),
    }
}

#[verifier::rlimit(100)]
#[verifier::spinoff_prover]
fn lower_sequence_node(ast: &Ast, symbol_table: &mut SymbolTable) -> (r: Result<
    Vec<Code>,
    CompileError,
>)
    requires
        ast.component is Sequence,
        old(symbol_table)@.temp_count + node_count(*ast) <= u32::MAX,
        old(symbol_table)@.if_count + node_count(*ast) <= u32::MAX,
        old(symbol_table)@.for_count + node_count(*ast) <= u32::MAX,
    ensures
        ({
            let (spec_r, emitted, spec_t) = spec_lower(*ast, old(symbol_table)@);
            final(symbol_table)@ == spec_t && match r {
                Ok(code) => spec_r == Ok::<(), ErrorV>(()) && codes_view(code@) == emitted,
                Err(e) => spec_r == Err::<(), ErrorV>(e@),
            }
        }),
        old(symbol_table)@.temp_count <= final(symbol_table)@.temp_count <= old(
            symbol_table,
        )@.temp_count + node_count(*ast),
        old(symbol_table)@.if_count <= final(symbol_table)@.if_count <= old(
            symbol_table,
        )@.if_count + node_count(*ast),
        old(symbol_table)@.for_count <= final(symbol_table)@.for_count <= old(
            symbol_table,
        )@.for_count + node_count(*ast),
    decreases *ast, 0int,
{
    let mut result: Vec<Code> = Vec::new();
    let mut inherited_symbol_table = symbol_table.duplicate();
    let ghost t0 = old(symbol_table)@;
    proof {
        assert(ast.children@.skip(0) =~= ast.children@);
    }
    let mut i: usize = 0;
    while i < ast.children.len()
        invariant
            i <= ast.children@.len(),
            ast.component is Sequence,
            t0 == old(symbol_table)@,
            symbol_table@ == old(symbol_table)@,
            node_count(*ast) == 1 + node_count_seq(ast.children@),
            ({
                let (r0, c0, tt0) = spec_lower_sequence(ast.children@, t0, 0);
                let (r2, c2, tt2) = spec_lower_sequence(
                    ast.children@,
                    inherited_symbol_table@,
                    i as int,
                );
                r0 == r2 && c0 == codes_view(result@) + c2 && tt0 == tt2
            }),
            t0.temp_count <= inherited_symbol_table@.temp_count,
            t0.if_count <= inherited_symbol_table@.if_count,
            t0.for_count <= inherited_symbol_table@.for_count,
            inherited_symbol_table@.temp_count + node_count_seq(ast.children@.skip(i as int))
                <= t0.temp_count + node_count(*ast),
            inherited_symbol_table@.if_count + node_count_seq(ast.children@.skip(i as int))
                <= t0.if_count + node_count(*ast),
            inherited_symbol_table@.for_count + node_count_seq(ast.children@.skip(i as int))
                <= t0.for_count + node_count(*ast),
            t0.temp_count + node_count(*ast) <= u32::MAX,
            t0.if_count + node_count(*ast) <= u32::MAX,
            t0.for_count + node_count(*ast) <= u32::MAX,
        decreases ast.children@.len() - i,
    {
        proof {
            crate::abstract_syntax_tree::lemma_node_count_skip(ast.children@, i as int);
            assert(decreases_to!(*ast, 0int => ast.children@[i as int], 3int));
        }
        let mut item_code = match intermediate_code_generation(
            &ast.children[i],
            &mut inherited_symbol_table,
        ) {
            Ok(code) => code,
            Err(e) => {
                return Err(e);
            },
        };
        let ghost result_before = result@;
        let ghost item_seq = item_code@;
        let ghost item_view = codes_view(item_code@);
        result.append(&mut item_code);
        proof {
            lemma_codes_view_concat(result_before, item_seq);
            assert(codes_view(result@) == codes_view(result_before) + item_view);
            let (r0, c0, tt0) = spec_lower_sequence(ast.children@, t0, 0);
            let (r2, c2, tt2) = spec_lower_sequence(
                ast.children@,
                inherited_symbol_table@,
                i + 1,
            );
            if r2 is Ok {
                assert(c0 =~= codes_view(result@) + c2);
            }
        }
        i = i + 1;
    }
    proof {
        assert(ast.children@.skip(i as int) =~= Seq::<Ast>::empty());
        let (r0, c0, tt0) = spec_lower_sequence(ast.children@, t0, 0);
        assert(c0 =~= codes_view(result@));
    }
    symbol_table.adopt_counters(&inherited_symbol_table);
    proof {
        let (r0, c0, tt0) = spec_lower_sequence(ast.children@, t0, 0);
        let (spec_r, emitted, spec_t) = spec_lower(*ast, old(symbol_table)@);
        assert(final(symbol_table)@ =~~= spec_t);
    }
    Ok(result)
}

#[verifier::rlimit(100)]
#[verifier::spinoff_prover]
fn lower_if(ast: &Ast, symbol_table: &mut SymbolTable) -> (r: Result<
    Vec<Code>,
    CompileError,
>)
    requires
        ast.component is If,
        old(symbol_table)@.temp_count + node_count(*ast) <= u32::MAX,
        old(symbol_table)@.if_count + node_count(*ast) <= u32::MAX,
        old(symbol_table)@.for_count + node_count(*ast) <= u32::MAX,
    ensures
        ({
            let (spec_r, emitted, spec_t) = spec_lower(*ast, old(symbol_table)@);
            final(symbol_table)@ == spec_t && match r {
                Ok(code) => spec_r == Ok::<(), ErrorV>(()) && codes_view(code@) == emitted,
                Err(e) => spec_r == Err::<(), ErrorV>(e@),
            }
        }),
        old(symbol_table)@.temp_count <= final(symbol_table)@.temp_count <= old(
            symbol_table,
        )@.temp_count + node_count(*ast),
        old(symbol_table)@.if_count <= final(symbol_table)@.if_count <= old(
            symbol_table,
        )@.if_count + node_count(*ast),
        old(symbol_table)@.for_count <= final(symbol_table)@.for_count <= old(
            symbol_table,
        )@.for_count + node_count(*ast),
    decreases *ast, 0int,
{
    proof {
        crate::abstract_syntax_tree::lemma_node_count_seq(ast.children@);
        if ast.children@.len() >= 2 {
            crate::abstract_syntax_tree::lemma_node_count_pair(ast.children@);
        }
    }
    let if_id = symbol_table.new_if();
    let after_label = Label { kind: LabelKind::IfBefore, id: if_id };
    if ast.children.len() < 2 {
        return Err(CompileError::MissingChild { parent: ast.component.duplicate() });
    }
    let mut condition_code = intermediate_code_generation(&ast.children[0], symbol_table)?;
    proof {
        lemma_codes_view(condition_code@);
    }
    if condition_code.len() == 0 {
        return Err(CompileError::EmptyConditionCode);
    }
    let last_index = condition_code.len() - 1;
    let condition_code_address = condition_code[last_index].try_get_result_address()?;
    let mut body_code = intermediate_code_generation(&ast.children[1], symbol_table)?;
    let ghost condition_seq = condition_code@;
    let ghost body_seq = body_code@;
    let ghost condition_view = codes_view(condition_code@);
    let ghost body_view = codes_view(body_code@);
    let mut result: Vec<Code> = Vec::new();
    result.append(&mut condition_code);
    proof {
        assert(result@ =~= condition_seq);
    }
    let ghost r1 = result@;
    result.push(Code::JumpIfFalse(condition_code_address, after_label));
    let ghost r2 = result@;
    result.append(&mut body_code);
    let ghost r3 = result@;
    result.push(Code::Label(after_label));
    proof {
        assert(codes_view(r1) == condition_view);
        lemma_codes_view_push(r1, r2.last());
        assert(r2 == r1.push(r2.last()));
        lemma_codes_view_concat(r2, body_seq);
        assert(r3 == r2 + body_seq);
        lemma_codes_view_push(r3, result@.last());
        assert(result@ == r3.push(result@.last()));
        let (spec_r, emitted, spec_t) = spec_lower(*ast, old(symbol_table)@);
        assert(codes_view(result@) =~= emitted);
    }
    Ok(result)
}

#[verifier::rlimit(100)]
#[verifier::spinoff_prover]
fn lower_for(ast: &Ast, symbol_table: &mut SymbolTable) -> (r: Result<
    Vec<Code>,
    CompileError,
>)
    requires
        ast.component is For,
        old(symbol_table)@.temp_count + node_count(*ast) <= u32::MAX,
        old(symbol_table)@.if_count + node_count(*ast) <= u32::MAX,
        old(symbol_table)@.for_count + node_count(*ast) <= u32::MAX,
    ensures
        ({
            let (spec_r, emitted, spec_t) = spec_lower(*ast, old(symbol_table)@);
            final(symbol_table)@ == spec_t && match r {
                Ok(code) => spec_r == Ok::<(), ErrorV>(()) && codes_view(code@) == emitted,
                Err(e) => spec_r == Err::<(), ErrorV>(e@),
            }
        }),
        old(symbol_table)@.temp_count <= final(symbol_table)@.temp_count <= old(
            symbol_table,
        )@.temp_count + node_count(*ast),
        old(symbol_table)@.if_count <= final(symbol_table)@.if_count <= old(
            symbol_table,
        )@.if_count + node_count(*ast),
        old(symbol_table)@.for_count <= final(symbol_table)@.for_count <= old(
            symbol_table,
        )@.for_count + node_count(*ast),
    decreases *ast, 0int,
{
    proof {
        crate::abstract_syntax_tree::lemma_node_count_seq(ast.children@);
        if ast.children@.len() >= 4 {
            crate::abstract_syntax_tree::lemma_node_count_quad(ast.children@);
        }
    }
    let for_id = symbol_table.new_for();
    let before_label = Label { kind: LabelKind::ForBefore, id: for_id };
    let after_label = Label { kind: LabelKind::ForAfter, id: for_id };
    if ast.children.len() < 4 {
        return Err(CompileError::MissingChild { parent: ast.component.duplicate() });
    }
    let mut pre_loop_code = intermediate_code_generation(&ast.children[0], symbol_table)?;
    let mut condition_code = intermediate_code_generation(&ast.children[1], symbol_table)?;
    let mut post_loop_code = intermediate_code_generation(&ast.children[2], symbol_table)?;
    proof {
        lemma_codes_view(condition_code@);
    }
    if condition_code.len() == 0 {
        return Err(CompileError::EmptyConditionCode);
    }
    let last_index = condition_code.len() - 1;
    let condition_code_address = condition_code[last_index].try_get_result_address()?;
    let mut body_code = intermediate_code_generation(&ast.children[3], symbol_table)?;
    let ghost pre_seq = pre_loop_code@;
    let ghost condition_seq = condition_code@;
    let ghost post_seq = post_loop_code@;
    let ghost body_seq = body_code@;
    let ghost pre_view = codes_view(pre_loop_code@);
    let ghost condition_view = codes_view(condition_code@);
    let ghost post_view = codes_view(post_loop_code@);
    let ghost body_view = codes_view(body_code@);
    let mut result: Vec<Code> = Vec::new();
    result.append(&mut pre_loop_code);
    proof {
        assert(result@ =~= pre_seq);
    }
    let ghost r1 = result@;
    result.push(Code::Label(before_label));
    let ghost r2 = result@;
    result.append(&mut condition_code);
    let ghost r3 = result@;
    result.push(Code::JumpIfFalse(condition_code_address, after_label));
    let ghost r4 = result@;
    result.append(&mut body_code);
    let ghost r5 = result@;
    result.append(&mut post_loop_code);
    let ghost r6 = result@;
    result.push(Code::Jump(before_label));
    let ghost r7 = result@;
    result.push(Code::Label(after_label));
    proof {
        assert(codes_view(r1) == pre_view);
        lemma_codes_view_push(r1, r2.last());
        assert(r2 == r1.push(r2.last()));
        lemma_codes_view_concat(r2, condition_seq);
        assert(r3 == r2 + condition_seq);
        lemma_codes_view_push(r3, r4.last());
        assert(r4 == r3.push(r4.last()));
        lemma_codes_view_concat(r4, body_seq);
        assert(r5 == r4 + body_seq);
        lemma_codes_view_concat(r5, post_seq);
        assert(r6 == r5 + post_seq);
        lemma_codes_view_push(r6, r7.last());
        assert(r7 == r6.push(r7.last()));
        lemma_codes_view_push(r7, result@.last());
        assert(result@ == r7.push(result@.last()));
        let (spec_r, emitted, spec_t) = spec_lower(*ast, old(symbol_table)@);
        assert(codes_view(result@) =~= emitted);
    }
    Ok(result)
}

#[verifier::rlimit(100)]
#[verifier::spinoff_prover]
fn lower_declaration(ast: &Ast, symbol_table: &mut SymbolTable) -> (r: Result<
    Vec<Code>,
    CompileError,
>)
    requires
        ast.component is Declaration,
        old(symbol_table)@.temp_count + node_count(*ast) <= u32::MAX,
        old(symbol_table)@.if_count + node_count(*ast) <= u32::MAX,
        old(symbol_table)@.for_count + node_count(*ast) <= u32::MAX,
    ensures
        ({
            let (spec_r, emitted, spec_t) = spec_lower(*ast, old(symbol_table)@);
            final(symbol_table)@ == spec_t && match r {
                Ok(code) => spec_r == Ok::<(), ErrorV>(()) && codes_view(code@) == emitted,
                Err(e) => spec_r == Err::<(), ErrorV>(e@),
            }
        }),
        old(symbol_table)@.temp_count <= final(symbol_table)@.temp_count <= old(
            symbol_table,
        )@.temp_count + node_count(*ast),
        old(symbol_table)@.if_count <= final(symbol_table)@.if_count <= old(
            symbol_table,
        )@.if_count + node_count(*ast),
        old(symbol_table)@.for_count <= final(symbol_table)@.for_count <= old(
            symbol_table,
        )@.for_count + node_count(*ast),
    decreases *ast, 0int,
{
    proof {
        crate::abstract_syntax_tree::lemma_node_count_seq(ast.children@);
    }
    if ast.children.len() < 1 {
        return Err(CompileError::MissingChild { parent: ast.component.duplicate() });
    }
    let data_type = ast.children[0].component.try_get_type()?;
    if ast.children.len() < 2 {
        return Err(CompileError::MissingChild { parent: ast.component.duplicate() });
    }
    let identifier_name = ast.children[1].component.try_get_identifier_name()?;
    let recorded_type = match data_type {
        Type::Number => DataType::Number,
        Type::Boolean => DataType::Boolean,
    };
    if ast.children.len() < 3 {
        let id_address = Address::Temp(symbol_table.new_temp());
        symbol_table.insert(
            identifier_name,
            Symbol { location: Some(id_address), data_type: recorded_type },
        );
        proof {
            let (spec_r, emitted, spec_t) = spec_lower(*ast, old(symbol_table)@);
            assert(final(symbol_table)@ =~~= spec_t);
            assert(codes_view(Seq::<Code>::empty()) =~= emitted);
        }
        return Ok(Vec::new());
    }
    let mut result: Vec<Code> = Vec::new();
    let value_result_address = match extract_value_address(
        &ast.children[2],
        &mut result,
        symbol_table,
    ) {
        Ok(address) => address,
        Err(e) => {
            return Err(e);
        },
    };
    let id_address = Address::Temp(symbol_table.new_temp());
    symbol_table.insert(
        identifier_name,
        Symbol { location: Some(address_clone(&id_address)), data_type: recorded_type },
    );
    let ghost before_push = result@;
    result.push(
        Code::ThreeAddress(
            ThreeAddressCode {
                instruction: Instruction::Copy,
                operand_1: value_result_address,
                operand_2: None,
                result: id_address,
            },
        ),
    );
    proof {
        lemma_codes_view_push(before_push, result@.last());
        let (spec_r, emitted, spec_t) = spec_lower(*ast, old(symbol_table)@);
        assert(final(symbol_table)@ =~~= spec_t);
        assert(codes_view(result@) =~= emitted);
    }
    Ok(result)
}

#[verifier::rlimit(100)]
#[verifier::spinoff_prover]
fn lower_assignment(ast: &Ast, symbol_table: &mut SymbolTable) -> (r: Result<
    Vec<Code>,
    CompileError,
>)
    requires
        ast.component is Assignment,
        old(symbol_table)@.temp_count + node_count(*ast) <= u32::MAX,
        old(symbol_table)@.if_count + node_count(*ast) <= u32::MAX,
        old(symbol_table)@.for_count + node_count(*ast) <= u32::MAX,
    ensures
        ({
            let (spec_r, emitted, spec_t) = spec_lower(*ast, old(symbol_table)@);
            final(symbol_table)@ == spec_t && match r {
                Ok(code) => spec_r == Ok::<(), ErrorV>(()) && codes_view(code@) == emitted,
                Err(e) => spec_r == Err::<(), ErrorV>(e@),
            }
        }),
        old(symbol_table)@.temp_count <= final(symbol_table)@.temp_count <= old(
            symbol_table,
        )@.temp_count + node_count(*ast),
        old(symbol_table)@.if_count <= final(symbol_table)@.if_count <= old(
            symbol_table,
        )@.if_count + node_count(*ast),
        old(symbol_table)@.for_count <= final(symbol_table)@.for_count <= old(
            symbol_table,
        )@.for_count + node_count(*ast),
    decreases *ast, 0int,
{
    proof {
        crate::abstract_syntax_tree::lemma_node_count_seq(ast.children@);
        if ast.children@.len() >= 2 {
            crate::abstract_syntax_tree::lemma_node_count_pair(ast.children@);
        }
    }
    if ast.children.len() < 2 {
        return Err(CompileError::MissingChild { parent: ast.component.duplicate() });
    }
    let mut result: Vec<Code> = Vec::new();
    let target_address = match extract_value_address(&ast.children[0], &mut result, symbol_table) {
        Ok(address) => address,
        Err(e) => {
            return Err(e);
        },
    };
    let value_address = match extract_value_address(&ast.children[1], &mut result, symbol_table) {
        Ok(address) => address,
        Err(e) => {
            return Err(e);
        },
    };
    let ghost before_push = result@;
    result.push(
        Code::ThreeAddress(
            ThreeAddressCode {
                instruction: Instruction::Copy,
                operand_1: value_address,
                operand_2: None,
                result: target_address,
            },
        ),
    );
    proof {
        lemma_codes_view_push(before_push, result@.last());
        let (spec_r, emitted, spec_t) = spec_lower(*ast, old(symbol_table)@);
        assert(codes_view(result@) =~= emitted);
    }
    Ok(result)
}

/// Intermediate code generation: lowers a checked tree to the flat
/// code sequence that `spec_lower` describes, drawing temporaries and
/// label numbers from the table's monotonic counters.
#[verifier::rlimit(100)]
#[verifier::spinoff_prover]
pub fn intermediate_code_generation(ast: &Ast, symbol_table: &mut SymbolTable) -> (r: Result<
    Vec<Code>,
    CompileError,
>)
    requires
        old(symbol_table)@.temp_count + node_count(*ast) <= u32::MAX,
        old(symbol_table)@.if_count + node_count(*ast) <= u32::MAX,
        old(symbol_table)@.for_count + node_count(*ast) <= u32::MAX,
    ensures
        ({
            let (spec_r, emitted, spec_t) = spec_lower(*ast, old(symbol_table)@);
            final(symbol_table)@ == spec_t && match r {
                Ok(code) => spec_r == Ok::<(), ErrorV>(()) && codes_view(code@) == emitted,
                Err(e) => spec_r == Err::<(), ErrorV>(e@),
            }
        }),
        old(symbol_table)@.temp_count <= final(symbol_table)@.temp_count <= old(
            symbol_table,
        )@.temp_count + node_count(*ast),
        old(symbol_table)@.if_count <= final(symbol_table)@.if_count <= old(
            symbol_table,
        )@.if_count + node_count(*ast),
        old(symbol_table)@.for_count <= final(symbol_table)@.for_count <= old(
            symbol_table,
        )@.for_count + node_count(*ast),
    decreases *ast, 3int,
{
    match &ast.component {
        SyntaxComponent::Sequence => lower_sequence_node(ast, symbol_table),
        SyntaxComponent::If => lower_if(ast, symbol_table),
        SyntaxComponent::For => lower_for(ast, symbol_table),
        SyntaxComponent::Declaration => lower_declaration(ast, symbol_table),
        SyntaxComponent::Assignment => lower_assignment(ast, symbol_table),
        SyntaxComponent::Relation(_) | SyntaxComponent::BinaryOperation(_)
            | SyntaxComponent::UnaryOperation(_) | SyntaxComponent::Identifier(_) => {
            let mut result: Vec<Code> = Vec::new();
            match extract_value_address(ast, &mut result, symbol_table) {
                Ok(_) => {
                    proof {
                        let (spec_r, emitted, spec_t) = spec_extract(*ast, old(symbol_table)@);
                        assert(codes_view(result@) =~= emitted);
                    }
                    Ok(result)
                },
                Err(e) => Err(e),
            }
        },
        SyntaxComponent::Type(_) | SyntaxComponent::Null | SyntaxComponent::Constant(_) => Err(
            CompileError::NotAStatement { component: ast.component.duplicate() },
        ),
    }
}


/// Whether one code entry lays down the label `l`.
pub open spec fn is_label_entry(c: CodeV, l: LabelV) -> nat {
    match c {
        CodeV::Label(m) => if m == l {
            1
        } else {
            0
        },
        _ => 0,
    }
}

/// Whether one code entry jumps to the label `l`.
pub open spec fn is_label_target(c: CodeV, l: LabelV) -> nat {
    match c {
        CodeV::JumpIfFalse(_, m) => if m == l {
            1
        } else {
            0
        },
        CodeV::Jump(m) => if m == l {
            1
        } else {
            0
        },
        _ => 0,
    }
}

/// How many entries of the code lay down the label `l`.
pub open spec fn count_label_entries(code: Seq<CodeV>, l: LabelV) -> nat
    decreases code,
{
    if code.len() == 0 {
        0
    } else {
        count_label_entries(code.drop_last(), l) + is_label_entry(code.last(), l)
    }
}

/// How many entries of the code jump to the label `l`.
pub open spec fn count_label_targets(code: Seq<CodeV>, l: LabelV) -> nat
    decreases code,
{
    if code.len() == 0 {
        0
    } else {
        count_label_targets(code.drop_last(), l) + is_label_target(code.last(), l)
    }
}

/// Label counts add up over concatenation.
proof fn lemma_count_concat(a: Seq<CodeV>, b: Seq<CodeV>)
    ensures
        forall|l: LabelV|
            count_label_entries(a + b, l) == count_label_entries(a, l) + count_label_entries(
                b,
                l,
            ),
        forall|l: LabelV|
            count_label_targets(a + b, l) == count_label_targets(a, l) + count_label_targets(
                b,
                l,
            ),
    decreases b.len(),
{
    if b.len() == 0 {
        assert(a + b =~= a);
        assert forall|l: LabelV|
            count_label_entries(a + b, l) == count_label_entries(a, l) + count_label_entries(
                b,
                l,
            ) by {
            assert(count_label_entries(b, l) == 0);
        }
        assert forall|l: LabelV|
            count_label_targets(a + b, l) == count_label_targets(a, l) + count_label_targets(
                b,
                l,
            ) by {
            assert(count_label_targets(b, l) == 0);
        }
    } else {
        lemma_count_concat(a, b.drop_last());
        assert forall|l: LabelV|
            count_label_entries(a + b, l) == count_label_entries(a, l) + count_label_entries(
                b,
                l,
            ) by {
            assert((a + b).drop_last() =~= a + b.drop_last());
            assert((a + b).last() == b.last());
            assert(count_label_entries(a + b, l) == count_label_entries(a + b.drop_last(), l)
                + is_label_entry(b.last(), l));
        }
        assert forall|l: LabelV|
            count_label_targets(a + b, l) == count_label_targets(a, l) + count_label_targets(
                b,
                l,
            ) by {
            assert((a + b).drop_last() =~= a + b.drop_last());
            assert((a + b).last() == b.last());
            assert(count_label_targets(a + b, l) == count_label_targets(a + b.drop_last(), l)
                + is_label_target(b.last(), l));
        }
    }
}

/// Label counts of a single entry.
proof fn lemma_count_singleton(c: CodeV)
    ensures
        forall|l: LabelV| count_label_entries(seq![c], l) == is_label_entry(c, l),
        forall|l: LabelV| count_label_targets(seq![c], l) == is_label_target(c, l),
{
    assert forall|l: LabelV| count_label_entries(seq![c], l) == is_label_entry(c, l) by {
        assert(seq![c].drop_last() =~= Seq::<CodeV>::empty());
        assert(seq![c].last() == c);
        assert(count_label_entries(seq![c].drop_last(), l) == 0);
    }
    assert forall|l: LabelV| count_label_targets(seq![c], l) == is_label_target(c, l) by {
        assert(seq![c].drop_last() =~= Seq::<CodeV>::empty());
        assert(seq![c].last() == c);
        assert(count_label_targets(seq![c].drop_last(), l) == 0);
    }
}

/// Whether the label's number was drawn between two states of the
/// table: numbers run from the earlier count, exclusive, to the later
/// one, inclusive.
pub open spec fn label_in_range(l: LabelV, t0: TableV, t1: TableV) -> bool {
    match l.kind {
        LabelKind::IfBefore => t0.if_count < l.id <= t1.if_count,
        LabelKind::ForBefore => t0.for_count < l.id <= t1.for_count,
        LabelKind::ForAfter => t0.for_count < l.id <= t1.for_count,
    }
}

/// Evaluating an expression lays down no label, jumps nowhere, and
/// leaves the label counters alone.
proof fn lemma_extract_labels(a: Ast, t: TableV)
    ensures
        ({
            let (r, code, t1) = spec_extract(a, t);
            t1.if_count == t.if_count && t1.for_count == t.for_count && t1.temp_count
                >= t.temp_count && (forall|l: LabelV| #[trigger] count_label_entries(code, l) == 0)
                && (forall|l: LabelV| #[trigger] count_label_targets(code, l) == 0)
        }),
    decreases a, 1int,
{
    let (r, code, t1) = spec_extract(a, t);
    match a.component {
        SyntaxComponent::BinaryOperation(op) => {
            if spec_plain_instruction(op) is Some {
                lemma_extract_fresh_binary_labels(a, t, spec_plain_instruction(op)->0);
            } else if spec_compound_instruction(op) is Some {
                lemma_extract_compound_labels(a, t, spec_compound_instruction(op)->0);
            }
        },
        SyntaxComponent::Relation(rel) => {
            lemma_extract_fresh_binary_labels(a, t, spec_relation_instruction(rel));
        },
        SyntaxComponent::UnaryOperation(UnaryOperation::Increment) => {
            lemma_extract_mutation_labels(a, t, Instruction::Addition);
        },
        SyntaxComponent::UnaryOperation(UnaryOperation::Decrement) => {
            lemma_extract_mutation_labels(a, t, Instruction::Subtraction);
        },
        SyntaxComponent::UnaryOperation(UnaryOperation::Negation) => {
            if a.children@.len() >= 1 {
                lemma_extract_labels(a.children@[0], spec_bump_temp(t));
                let (r1, c1, t2) = spec_extract(a.children@[0], spec_bump_temp(t));
                if r1 is Ok {
                    lemma_count_concat(c1, seq![code.last()]);
                    lemma_count_singleton(code.last());
                    assert(code =~= c1 + seq![code.last()]);
                }
            }
        },
        _ => {},
    }
}

/// The label facts for an operator that draws a fresh temporary.
proof fn lemma_extract_fresh_binary_labels(a: Ast, t: TableV, instr: Instruction)
    ensures
        ({
            let (r, code, t1) = spec_extract_fresh_binary(a, t, instr);
            t1.if_count == t.if_count && t1.for_count == t.for_count && t1.temp_count
                >= t.temp_count && (forall|l: LabelV| #[trigger] count_label_entries(code, l) == 0)
                && (forall|l: LabelV| #[trigger] count_label_targets(code, l) == 0)
        }),
    decreases a, 0int,
{
    if a.children@.len() >= 2 {
        lemma_extract_labels(a.children@[0], spec_bump_temp(t));
        let (r1, c1, t2) = spec_extract(a.children@[0], spec_bump_temp(t));
        if r1 is Ok {
            lemma_extract_labels(a.children@[1], t2);
            let (r2, c2, t3) = spec_extract(a.children@[1], t2);
            lemma_count_concat(c1, c2);
            if r2 is Ok {
                let (r, code, t4) = spec_extract_fresh_binary(a, t, instr);
                lemma_count_concat(c1 + c2, seq![code.last()]);
                lemma_count_singleton(code.last());
                assert(code =~= (c1 + c2) + seq![code.last()]);
            }
        }
    }
}

/// The label facts for a compound assignment.
proof fn lemma_extract_compound_labels(a: Ast, t: TableV, instr: Instruction)
    ensures
        ({
            let (r, code, t1) = spec_extract_compound(a, t, instr);
            t1.if_count == t.if_count && t1.for_count == t.for_count && t1.temp_count
                >= t.temp_count && (forall|l: LabelV| #[trigger] count_label_entries(code, l) == 0)
                && (forall|l: LabelV| #[trigger] count_label_targets(code, l) == 0)
        }),
    decreases a, 0int,
{
    if a.children@.len() >= 2 && a.children@[0].component is Identifier {
        lemma_extract_labels(a.children@[0], t);
        let (r1, c1, t2) = spec_extract(a.children@[0], t);
        if r1 is Ok {
            lemma_extract_labels(a.children@[1], t2);
            let (r2, c2, t3) = spec_extract(a.children@[1], t2);
            lemma_count_concat(c1, c2);
            if r2 is Ok {
                let (r, code, t4) = spec_extract_compound(a, t, instr);
                lemma_count_concat(c1 + c2, seq![code.last()]);
                lemma_count_singleton(code.last());
                assert(code =~= (c1 + c2) + seq![code.last()]);
            }
        }
    }
}

/// The label facts for `++` and `--`.
proof fn lemma_extract_mutation_labels(a: Ast, t: TableV, instr: Instruction)
    ensures
        ({
            let (r, code, t1) = spec_extract_mutation(a, t, instr);
            t1.if_count == t.if_count && t1.for_count == t.for_count && t1.temp_count
                >= t.temp_count && (forall|l: LabelV| #[trigger] count_label_entries(code, l) == 0)
                && (forall|l: LabelV| #[trigger] count_label_targets(code, l) == 0)
        }),
    decreases a, 0int,
{
    if a.children@.len() >= 1 && a.children@[0].component is Identifier {
        lemma_extract_labels(a.children@[0], t);
        let (r1, c1, t2) = spec_extract(a.children@[0], t);
        if r1 is Ok {
            let (r, code, t3) = spec_extract_mutation(a, t, instr);
            lemma_count_concat(c1, seq![code.last()]);
            lemma_count_singleton(code.last());
            assert(code =~= c1 + seq![code.last()]);
        }
    }
}

/// The unique-names law for labels: in the code of one successful
/// lowering, every label whose number was drawn during it is laid down
/// by exactly one `Label` entry and jumped to by exactly one jump, and
/// no other label occurs at all; the counters only ever grow.
pub proof fn lemma_unique_labels(a: Ast, t: TableV)
    ensures
        ({
            let (r, code, t1) = spec_lower(a, t);
            t1.if_count >= t.if_count && t1.for_count >= t.for_count && t1.temp_count
                >= t.temp_count && (r is Ok ==> (forall|l: LabelV| #[trigger] count_label_entries(
                code,
                l,
            ) == (if label_in_range(l, t, t1) {
                1nat
            } else {
                0nat
            })) && (forall|l: LabelV| #[trigger]
                count_label_targets(code, l) == count_label_entries(code, l)))
        }),
    decreases a, 1int,
{
    let (r, code, t1) = spec_lower(a, t);
    match a.component {
        SyntaxComponent::Sequence => {
            lemma_unique_labels_sequence(a.children@, t, 0);
        },
        SyntaxComponent::If => {
            let label = LabelV { kind: LabelKind::IfBefore, id: t.if_count + 1 };
            let tb = TableV { if_count: t.if_count + 1, ..t };
            if a.children@.len() >= 2 {
                lemma_unique_labels(a.children@[0], tb);
                let (condition_r, condition_code, t2) = spec_lower(a.children@[0], tb);
                if condition_r is Ok && spec_condition_address(condition_code) is Ok {
                    lemma_unique_labels(a.children@[1], t2);
                    let (body_r, body_code, t3) = spec_lower(a.children@[1], t2);
                    if body_r is Ok {
                        let jump = CodeV::JumpIfFalse(
                            spec_condition_address(condition_code)->Ok_0,
                            label,
                        );
                        lemma_count_singleton(jump);
                        lemma_count_singleton(CodeV::Label(label));
                        lemma_count_concat(condition_code, seq![jump]);
                        lemma_count_concat(condition_code + seq![jump], body_code);
                        lemma_count_concat(
                            condition_code + seq![jump] + body_code,
                            seq![CodeV::Label(label)],
                        );
                    }
                }
            }
        },
        SyntaxComponent::For => {
            let before = LabelV { kind: LabelKind::ForBefore, id: t.for_count + 1 };
            let after = LabelV { kind: LabelKind::ForAfter, id: t.for_count + 1 };
            let tb = TableV { for_count: t.for_count + 1, ..t };
            if a.children@.len() >= 4 {
                lemma_unique_labels(a.children@[0], tb);
                let (pre_r, pre_code, t2) = spec_lower(a.children@[0], tb);
                if pre_r is Ok {
                    lemma_unique_labels(a.children@[1], t2);
                    let (condition_r, condition_code, t3) = spec_lower(a.children@[1], t2);
                    if condition_r is Ok {
                        lemma_unique_labels(a.children@[2], t3);
                        let (post_r, post_code, t4) = spec_lower(a.children@[2], t3);
                        if post_r is Ok && spec_condition_address(condition_code) is Ok {
                            lemma_unique_labels(a.children@[3], t4);
                            let (body_r, body_code, t5) = spec_lower(a.children@[3], t4);
                            if body_r is Ok {
                                let jump = CodeV::JumpIfFalse(
                                    spec_condition_address(condition_code)->Ok_0,
                                    after,
                                );
                                lemma_count_singleton(CodeV::Label(before));
                                lemma_count_singleton(jump);
                                lemma_count_singleton(CodeV::Jump(before));
                                lemma_count_singleton(CodeV::Label(after));
                                let s1 = pre_code + seq![CodeV::Label(before)];
                                let s2 = s1 + condition_code;
                                let s3 = s2 + seq![jump];
                                let s4 = s3 + body_code;
                                let s5 = s4 + post_code;
                                let s6 = s5 + seq![CodeV::Jump(before)];
                                lemma_count_concat(pre_code, seq![CodeV::Label(before)]);
                                lemma_count_concat(s1, condition_code);
                                lemma_count_concat(s2, seq![jump]);
                                lemma_count_concat(s3, body_code);
                                lemma_count_concat(s4, post_code);
                                lemma_count_concat(s5, seq![CodeV::Jump(before)]);
                                lemma_count_concat(s6, seq![CodeV::Label(after)]);
                            }
                        }
                    }
                }
            }
        },
        SyntaxComponent::Declaration => {
            if a.children@.len() >= 1 && a.children@[0].component is Type && a.children@.len()
                >= 2 && a.children@[1].component is Identifier && a.children@.len() >= 3 {
                lemma_extract_labels(a.children@[2], t);
                let (value_r, value_code, t2) = spec_extract(a.children@[2], t);
                if value_r is Ok {
                    let (rd, code_d, td) = spec_lower_declaration(a, t);
                    lemma_count_concat(value_code, seq![code_d.last()]);
                    lemma_count_singleton(code_d.last());
                    assert(code_d =~= value_code + seq![code_d.last()]);
                }
            }
        },
        SyntaxComponent::Assignment => {
            if a.children@.len() >= 2 {
                lemma_extract_labels(a.children@[0], t);
                let (r1, c1, t2) = spec_extract(a.children@[0], t);
                if r1 is Ok {
                    lemma_extract_labels(a.children@[1], t2);
                    let (r2, c2, t3) = spec_extract(a.children@[1], t2);
                    lemma_count_concat(c1, c2);
                    if r2 is Ok {
                        let (ra, code_a, ta) = spec_lower_assignment(a, t);
                        lemma_count_concat(c1 + c2, seq![code_a.last()]);
                        lemma_count_singleton(code_a.last());
                        assert(code_a =~= (c1 + c2) + seq![code_a.last()]);
                    }
                }
            }
        },
        SyntaxComponent::Relation(_) | SyntaxComponent::BinaryOperation(_)
            | SyntaxComponent::UnaryOperation(_) | SyntaxComponent::Identifier(_) => {
            lemma_extract_labels(a, t);
        },
        _ => {},
    }
}

/// The unique-names law, child by child over a block's statements.
proof fn lemma_unique_labels_sequence(children: Seq<Ast>, t: TableV, i: int)
    ensures
        ({
            let (r, code, t1) = spec_lower_sequence(children, t, i);
            t1.if_count >= t.if_count && t1.for_count >= t.for_count && t1.temp_count
                >= t.temp_count && (r is Ok ==> (forall|l: LabelV| #[trigger] count_label_entries(
                code,
                l,
            ) == (if label_in_range(l, t, t1) {
                1nat
            } else {
                0nat
            })) && (forall|l: LabelV| #[trigger]
                count_label_targets(code, l) == count_label_entries(code, l)))
        }),
    decreases children, children.len() - i,
{
    if 0 <= i < children.len() {
        lemma_unique_labels(children[i], t);
        let (r, code, t1) = spec_lower(children[i], t);
        if r is Ok {
            lemma_unique_labels_sequence(children, t1, i + 1);
            let (rest_r, rest_code, t2) = spec_lower_sequence(children, t1, i + 1);
            lemma_count_concat(code, rest_code);
        }
    }
}


/// Whether a code entry writes only a temporary that has been drawn:
/// an instruction's result is `Temp(n)` with `0 < n <= bound`.
pub open spec fn entry_result_bounded(c: CodeV, bound: nat) -> bool {
    match c {
        CodeV::ThreeAddress(three_address) => match three_address.result {
            AddressV::Temp(n) => 0 < n <= bound,
            AddressV::Constant(_) => false,
        },
        _ => true,
    }
}

/// Whether every instruction of the code writes a drawn temporary.
pub open spec fn results_bounded(code: Seq<CodeV>, bound: nat) -> bool {
    forall|i: int| 0 <= i < code.len() ==> entry_result_bounded(#[trigger] code[i], bound)
}

/// Whether every storage address the table records is a drawn
/// temporary.
pub open spec fn table_locations_bounded(t: TableV) -> bool {
    forall|name: Seq<char>|
        t.map.contains_key(name) ==> match (#[trigger] t.map[name]).location {
            Some(AddressV::Temp(n)) => 0 < n <= t.temp_count,
            Some(AddressV::Constant(_)) => false,
            None => true,
        }
}

/// A bound on results survives growing the bound.
proof fn lemma_results_bounded_grows(code: Seq<CodeV>, bound: nat, wider: nat)
    requires
        results_bounded(code, bound),
        bound <= wider,
    ensures
        results_bounded(code, wider),
{
    assert forall|i: int| 0 <= i < code.len() implies entry_result_bounded(
        #[trigger] code[i],
        wider,
    ) by {
        assert(entry_result_bounded(code[i], bound));
    }
}

/// Bounded results concatenate to bounded results.
proof fn lemma_results_bounded_concat(a: Seq<CodeV>, b: Seq<CodeV>, bound: nat)
    requires
        results_bounded(a, bound),
        results_bounded(b, bound),
    ensures
        results_bounded(a + b, bound),
{
    assert forall|i: int| 0 <= i < (a + b).len() implies entry_result_bounded(
        #[trigger] (a + b)[i],
        bound,
    ) by {
        if i < a.len() {
            assert(entry_result_bounded(a[i], bound));
        } else {
            assert(entry_result_bounded(b[i - a.len()], bound));
        }
    }
}

/// An address an expression evaluates to: a literal, or a drawn
/// temporary.
pub open spec fn address_bounded(a: AddressV, bound: nat) -> bool {
    match a {
        AddressV::Temp(n) => 0 < n <= bound,
        AddressV::Constant(_) => true,
    }
}

/// Evaluating an expression against a table whose storage addresses
/// are drawn temporaries writes only drawn temporaries, and yields one
/// (or a literal).
proof fn lemma_extract_temps(a: Ast, t: TableV)
    requires
        table_locations_bounded(t),
    ensures
        ({
            let (r, code, t1) = spec_extract(a, t);
            t1.temp_count >= t.temp_count && t1.map == t.map && (r matches Ok(address) ==> (
            results_bounded(code, t1.temp_count) && address_bounded(address, t1.temp_count)))
        }),
    decreases a, 1int,
{
    let (r, code, t1) = spec_extract(a, t);
    match a.component {
        SyntaxComponent::BinaryOperation(op) => {
            if spec_plain_instruction(op) is Some {
                lemma_extract_fresh_binary_temps(a, t, spec_plain_instruction(op)->0);
            } else if spec_compound_instruction(op) is Some {
                lemma_extract_compound_temps(a, t, spec_compound_instruction(op)->0);
            }
        },
        SyntaxComponent::Relation(rel) => {
            lemma_extract_fresh_binary_temps(a, t, spec_relation_instruction(rel));
        },
        SyntaxComponent::UnaryOperation(UnaryOperation::Increment) => {
            lemma_extract_mutation_temps(a, t, Instruction::Addition);
        },
        SyntaxComponent::UnaryOperation(UnaryOperation::Decrement) => {
            lemma_extract_mutation_temps(a, t, Instruction::Subtraction);
        },
        SyntaxComponent::UnaryOperation(UnaryOperation::Negation) => {
            if a.children@.len() >= 1 {
                lemma_extract_temps(a.children@[0], spec_bump_temp(t));
                let (r1, c1, t2) = spec_extract(a.children@[0], spec_bump_temp(t));
                if r1 is Ok {
                    lemma_results_bounded_concat(c1, seq![code.last()], t2.temp_count);
                    assert(code =~= c1 + seq![code.last()]);
                }
            }
        },
        _ => {},
    }
}

/// The temporaries written by an operator that draws a fresh one.
proof fn lemma_extract_fresh_binary_temps(a: Ast, t: TableV, instr: Instruction)
    requires
        table_locations_bounded(t),
    ensures
        ({
            let (r, code, t1) = spec_extract_fresh_binary(a, t, instr);
            t1.temp_count >= t.temp_count && t1.map == t.map && (r matches Ok(address) ==> (
            results_bounded(code, t1.temp_count) && address_bounded(address, t1.temp_count)))
        }),
    decreases a, 0int,
{
    if a.children@.len() >= 2 {
        lemma_extract_temps(a.children@[0], spec_bump_temp(t));
        let (r1, c1, t2) = spec_extract(a.children@[0], spec_bump_temp(t));
        if r1 is Ok {
            lemma_extract_temps(a.children@[1], t2);
            let (r2, c2, t3) = spec_extract(a.children@[1], t2);
            if r2 is Ok {
                let (r, code, t4) = spec_extract_fresh_binary(a, t, instr);
                lemma_results_bounded_grows(c1, t2.temp_count, t3.temp_count);
                lemma_results_bounded_concat(c1, c2, t3.temp_count);
                assert(entry_result_bounded(code.last(), t3.temp_count));
                lemma_results_bounded_concat(c1 + c2, seq![code.last()], t3.temp_count);
                assert(code =~= (c1 + c2) + seq![code.last()]);
            }
        }
    }
}

/// The temporaries written by a compound assignment.
proof fn lemma_extract_compound_temps(a: Ast, t: TableV, instr: Instruction)
    requires
        table_locations_bounded(t),
    ensures
        ({
            let (r, code, t1) = spec_extract_compound(a, t, instr);
            t1.temp_count >= t.temp_count && t1.map == t.map && (r matches Ok(address) ==> (
            results_bounded(code, t1.temp_count) && address_bounded(address, t1.temp_count)))
        }),
    decreases a, 0int,
{
    if a.children@.len() >= 2 && a.children@[0].component is Identifier {
        lemma_extract_temps(a.children@[0], t);
        let (r1, c1, t2) = spec_extract(a.children@[0], t);
        if r1 is Ok {
            lemma_extract_temps(a.children@[1], t2);
            let (r2, c2, t3) = spec_extract(a.children@[1], t2);
            if r2 is Ok {
                let (r, code, t4) = spec_extract_compound(a, t, instr);
                lemma_results_bounded_grows(c1, t2.temp_count, t3.temp_count);
                lemma_results_bounded_concat(c1, c2, t3.temp_count);
                assert(entry_result_bounded(code.last(), t3.temp_count));
                lemma_results_bounded_concat(c1 + c2, seq![code.last()], t3.temp_count);
                assert(code =~= (c1 + c2) + seq![code.last()]);
            }
        }
    }
}

/// The temporaries written by `++` and `--`.
proof fn lemma_extract_mutation_temps(a: Ast, t: TableV, instr: Instruction)
    requires
        table_locations_bounded(t),
    ensures
        ({
            let (r, code, t1) = spec_extract_mutation(a, t, instr);
            t1.temp_count >= t.temp_count && t1.map == t.map && (r matches Ok(address) ==> (
            results_bounded(code, t1.temp_count) && address_bounded(address, t1.temp_count)))
        }),
    decreases a, 0int,
{
    if a.children@.len() >= 1 && a.children@[0].component is Identifier {
        lemma_extract_temps(a.children@[0], t);
        let (r1, c1, t2) = spec_extract(a.children@[0], t);
        if r1 is Ok {
            let (r, code, t3) = spec_extract_mutation(a, t, instr);
            assert(entry_result_bounded(code.last(), t2.temp_count));
            lemma_results_bounded_concat(c1, seq![code.last()], t2.temp_count);
            assert(code =~= c1 + seq![code.last()]);
        }
    }
}


/// Whether every assignment in the tree writes to an identifier; the
/// type checker enforces exactly this before lowering. The generator
/// checks it itself for compound assignments and mutations, but not
/// for plain assignments, so the temporaries law asks for it.
pub open spec fn assignment_targets_are_identifiers(a: Ast) -> bool
    decreases a,
{
    (a.component is Assignment ==> (a.children@.len() < 1 || a.children@[0].component
        is Identifier)) && assignment_targets_are_identifiers_seq(a.children@)
}

/// The same, over a forest.
pub open spec fn assignment_targets_are_identifiers_seq(s: Seq<Ast>) -> bool
    decreases s,
{
    if s.len() == 0 {
        true
    } else {
        assignment_targets_are_identifiers_seq(s.drop_last())
            && assignment_targets_are_identifiers(s.last())
    }
}

/// A well-formed forest is well-formed tree by tree.
proof fn lemma_assignment_targets_seq(s: Seq<Ast>)
    requires
        assignment_targets_are_identifiers_seq(s),
    ensures
        forall|i: int| 0 <= i < s.len() ==> assignment_targets_are_identifiers(#[trigger] s[i]),
    decreases s.len(),
{
    if s.len() > 0 {
        lemma_assignment_targets_seq(s.drop_last());
        assert forall|i: int| 0 <= i < s.len() implies assignment_targets_are_identifiers(
            #[trigger] s[i],
        ) by {
            if i < s.len() - 1 {
                assert(s.drop_last()[i] == s[i]);
            } else {
                assert(s.last() == s[i]);
            }
        }
    }
}

/// The unique-names law for temporaries, in the form that holds of the
/// generator: starting from a table whose storage addresses are drawn
/// temporaries, a successful lowering writes every instruction result
/// to a temporary the counter has handed out, never to a literal, and
/// the table keeps that shape. Two distinct draws are distinct
/// temporaries, since the counter only grows.
pub proof fn lemma_results_are_temporaries(a: Ast, t: TableV)
    requires
        table_locations_bounded(t),
        assignment_targets_are_identifiers(a),
    ensures
        ({
            let (r, code, t1) = spec_lower(a, t);
            t1.temp_count >= t.temp_count && (r is Ok ==> (results_bounded(code, t1.temp_count)
                && table_locations_bounded(t1)))
        }),
    decreases a, 1int,
{
    let (r, code, t1) = spec_lower(a, t);
    lemma_assignment_targets_seq(a.children@);
    match a.component {
        SyntaxComponent::Sequence => {
            lemma_results_are_temporaries_sequence(a.children@, t, 0);
            let (rs, cs, ts) = spec_lower_sequence(a.children@, t, 0);
            if rs is Ok {
                assert forall|name: Seq<char>| t1.map.contains_key(name) implies match (
                #[trigger] t1.map[name]).location {
                    Some(AddressV::Temp(n)) => 0 < n <= t1.temp_count,
                    Some(AddressV::Constant(_)) => false,
                    None => true,
                } by {
                    assert(t.map.contains_key(name));
                }
            }
        },
        SyntaxComponent::If => {
            let tb = TableV { if_count: t.if_count + 1, ..t };
            if a.children@.len() >= 2 {
                lemma_results_are_temporaries(a.children@[0], tb);
                let (condition_r, condition_code, t2) = spec_lower(a.children@[0], tb);
                if condition_r is Ok && spec_condition_address(condition_code) is Ok {
                    lemma_results_are_temporaries(a.children@[1], t2);
                    let (body_r, body_code, t3) = spec_lower(a.children@[1], t2);
                    if body_r is Ok {
                        let label = LabelV { kind: LabelKind::IfBefore, id: t.if_count + 1 };
                        let jump = CodeV::JumpIfFalse(
                            spec_condition_address(condition_code)->Ok_0,
                            label,
                        );
                        lemma_results_bounded_grows(
                            condition_code,
                            t2.temp_count,
                            t3.temp_count,
                        );
                        lemma_results_bounded_concat(condition_code, seq![jump], t3.temp_count);
                        lemma_results_bounded_concat(
                            condition_code + seq![jump],
                            body_code,
                            t3.temp_count,
                        );
                        lemma_results_bounded_concat(
                            condition_code + seq![jump] + body_code,
                            seq![CodeV::Label(label)],
                            t3.temp_count,
                        );
                    }
                }
            }
        },
        SyntaxComponent::For => {
            let tb = TableV { for_count: t.for_count + 1, ..t };
            if a.children@.len() >= 4 {
                lemma_results_are_temporaries(a.children@[0], tb);
                let (pre_r, pre_code, t2) = spec_lower(a.children@[0], tb);
                if pre_r is Ok {
                    lemma_results_are_temporaries(a.children@[1], t2);
                    let (condition_r, condition_code, t3) = spec_lower(a.children@[1], t2);
                    if condition_r is Ok {
                        lemma_results_are_temporaries(a.children@[2], t3);
                        let (post_r, post_code, t4) = spec_lower(a.children@[2], t3);
                        if post_r is Ok && spec_condition_address(condition_code) is Ok {
                            lemma_results_are_temporaries(a.children@[3], t4);
                            let (body_r, body_code, t5) = spec_lower(a.children@[3], t4);
                            if body_r is Ok {
                                let before = LabelV {
                                    kind: LabelKind::ForBefore,
                                    id: t.for_count + 1,
                                };
                                let after = LabelV {
                                    kind: LabelKind::ForAfter,
                                    id: t.for_count + 1,
                                };
                                let jump = CodeV::JumpIfFalse(
                                    spec_condition_address(condition_code)->Ok_0,
                                    after,
                                );
                                let bound = t5.temp_count;
                                lemma_results_bounded_grows(pre_code, t2.temp_count, bound);
                                lemma_results_bounded_grows(condition_code, t3.temp_count, bound);
                                lemma_results_bounded_grows(post_code, t4.temp_count, bound);
                                let s1 = pre_code + seq![CodeV::Label(before)];
                                let s2 = s1 + condition_code;
                                let s3 = s2 + seq![jump];
                                let s4 = s3 + body_code;
                                let s5 = s4 + post_code;
                                let s6 = s5 + seq![CodeV::Jump(before)];
                                lemma_results_bounded_concat(
                                    pre_code,
                                    seq![CodeV::Label(before)],
                                    bound,
                                );
                                lemma_results_bounded_concat(s1, condition_code, bound);
                                lemma_results_bounded_concat(s2, seq![jump], bound);
                                lemma_results_bounded_concat(s3, body_code, bound);
                                lemma_results_bounded_concat(s4, post_code, bound);
                                lemma_results_bounded_concat(s5, seq![CodeV::Jump(before)], bound);
                                lemma_results_bounded_concat(
                                    s6,
                                    seq![CodeV::Label(after)],
                                    bound,
                                );
                            }
                        }
                    }
                }
            }
        },
        SyntaxComponent::Declaration => {
            if a.children@.len() >= 1 && a.children@[0].component is Type && a.children@.len()
                >= 2 && a.children@[1].component is Identifier && a.children@.len() >= 3 {
                lemma_extract_temps(a.children@[2], t);
                let (value_r, value_code, t2) = spec_extract(a.children@[2], t);
                if value_r is Ok {
                    let (rd, code_d, td) = spec_lower_declaration(a, t);
                    lemma_results_bounded_grows(value_code, t2.temp_count, td.temp_count);
                    assert(entry_result_bounded(code_d.last(), td.temp_count));
                    lemma_results_bounded_concat(value_code, seq![code_d.last()], td.temp_count);
                    assert(code_d =~= value_code + seq![code_d.last()]);
                    assert forall|name: Seq<char>| td.map.contains_key(name) implies match (
                    #[trigger] td.map[name]).location {
                        Some(AddressV::Temp(n)) => 0 < n <= td.temp_count,
                        Some(AddressV::Constant(_)) => false,
                        None => true,
                    } by {
                        if name != a.children@[1].component->Identifier_0@ {
                            assert(t.map.contains_key(name));
                            assert(td.map[name] == t.map[name]);
                        }
                    }
                }
            } else if a.children@.len() >= 1 && a.children@[0].component is Type
                && a.children@.len() == 2 && a.children@[1].component is Identifier {
                let (rd, code_d, td) = spec_lower_declaration(a, t);
                assert forall|name: Seq<char>| td.map.contains_key(name) implies match (
                #[trigger] td.map[name]).location {
                    Some(AddressV::Temp(n)) => 0 < n <= td.temp_count,
                    Some(AddressV::Constant(_)) => false,
                    None => true,
                } by {
                    if name != a.children@[1].component->Identifier_0@ {
                        assert(t.map.contains_key(name));
                        assert(td.map[name] == t.map[name]);
                    }
                }
            }
        },
        SyntaxComponent::Assignment => {
            if a.children@.len() >= 2 {
                lemma_extract_temps(a.children@[0], t);
                let (r1, c1, t2) = spec_extract(a.children@[0], t);
                if r1 is Ok {
                    lemma_extract_temps(a.children@[1], t2);
                    let (r2, c2, t3) = spec_extract(a.children@[1], t2);
                    if r2 is Ok {
                        let (ra, code_a, ta) = spec_lower_assignment(a, t);
                        lemma_results_bounded_grows(c1, t2.temp_count, t3.temp_count);
                        lemma_results_bounded_concat(c1, c2, t3.temp_count);
                        assert(a.children@[0].component is Identifier);
                        assert(entry_result_bounded(code_a.last(), t3.temp_count)) by {
                            let name = a.children@[0].component->Identifier_0;
                            assert(r1->Ok_0 == t.map[name@].location->0);
                        }
                        lemma_results_bounded_concat(c1 + c2, seq![code_a.last()], t3.temp_count);
                        assert(code_a =~= (c1 + c2) + seq![code_a.last()]);
                    }
                }
            }
        },
        SyntaxComponent::Relation(_) | SyntaxComponent::BinaryOperation(_)
            | SyntaxComponent::UnaryOperation(_) | SyntaxComponent::Identifier(_) => {
            lemma_extract_temps(a, t);
        },
        _ => {},
    }
}

/// The temporaries law, child by child over a block's statements.
proof fn lemma_results_are_temporaries_sequence(children: Seq<Ast>, t: TableV, i: int)
    requires
        table_locations_bounded(t),
        assignment_targets_are_identifiers_seq(children),
    ensures
        ({
            let (r, code, t1) = spec_lower_sequence(children, t, i);
            t1.temp_count >= t.temp_count && (r is Ok ==> (results_bounded(code, t1.temp_count)
                && table_locations_bounded(t1)))
        }),
    decreases children, children.len() - i,
{
    if 0 <= i < children.len() {
        lemma_assignment_targets_seq(children);
        lemma_results_are_temporaries(children[i], t);
        let (r, code, t1) = spec_lower(children[i], t);
        if r is Ok {
            lemma_results_are_temporaries_sequence(children, t1, i + 1);
            let (rest_r, rest_code, t2) = spec_lower_sequence(children, t1, i + 1);
            if rest_r is Ok {
                lemma_results_bounded_grows(code, t1.temp_count, t2.temp_count);
                lemma_results_bounded_concat(code, rest_code, t2.temp_count);
            }
        }
    }
}

} // verus!
