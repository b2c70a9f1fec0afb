//! The flat three-address intermediate representation and the builder
//! that lowers the C syntax tree into it.

use vstd::prelude::*;
use vstd::string::*;

use crate::decimal::spec_digits;
use crate::decimal::u64_to_string;
use crate::parse::c;
use crate::parse::Identifier;

verus! {

#[derive(Debug, PartialEq, Clone, Copy)]
pub enum UnaryOperator {
    BitwiseComplement,
    Negation,
}

#[derive(Debug, PartialEq, Clone, Copy)]
pub enum BinaryOperator {
    Add,
    Subtract,
    Multiply,
    Divide,
    Modulo,
}

#[derive(Debug, PartialEq, Clone)]
pub enum Value {
    Constant(u8),
    Var(Identifier),
}

#[derive(Debug, PartialEq)]
pub enum Instruction {
    Return(Value),
    Unary { op: UnaryOperator, src: Value, dst: Value },
    Binary { op: BinaryOperator, left: Value, right: Value, dst: Value },
}

#[derive(Debug, PartialEq)]
pub enum FunctionDefinition {
    Function { identifier: String, body: Vec<Instruction> },
}

#[derive(Debug, PartialEq)]
pub enum ProgramDefinition {
    Program(FunctionDefinition),
}

/// Mathematical image of a value: identifiers as character sequences.
pub enum ValueModel {
    Constant(u8),
    Var(Seq<char>),
}

pub enum InstructionModel {
    Return(ValueModel),
    Unary { op: UnaryOperator, src: ValueModel, dst: ValueModel },
    Binary { op: BinaryOperator, left: ValueModel, right: ValueModel, dst: ValueModel },
}

pub open spec fn value_model(v: Value) -> ValueModel {
    match v {
        Value::Constant(c) => ValueModel::Constant(c),
        Value::Var(id) => ValueModel::Var(id@),
    }
}

pub open spec fn instruction_model(i: Instruction) -> InstructionModel {
    match i {
        Instruction::Return(v) => InstructionModel::Return(value_model(v)),
        Instruction::Unary { op, src, dst } => InstructionModel::Unary {
            op,
            src: value_model(src),
            dst: value_model(dst),
        },
        Instruction::Binary { op, left, right, dst } => InstructionModel::Binary {
            op,
            left: value_model(left),
            right: value_model(right),
            dst: value_model(dst),
        },
    }
}

pub open spec fn spec_unary_operator(node: c::UnaryOperator) -> UnaryOperator {
    match node {
        c::UnaryOperator::BitwiseComplement => UnaryOperator::BitwiseComplement,
        c::UnaryOperator::Negation => UnaryOperator::Negation,
    }
}

pub open spec fn spec_binary_operator(node: c::BinaryOperator) -> BinaryOperator {
    match node {
        c::BinaryOperator::Add => BinaryOperator::Add,
        c::BinaryOperator::Subtract => BinaryOperator::Subtract,
        c::BinaryOperator::Multiply => BinaryOperator::Multiply,
        c::BinaryOperator::Divide => BinaryOperator::Divide,
        c::BinaryOperator::Modulo => BinaryOperator::Modulo,
    }
}

/// The name of the temporary with counter value `n`: `tmp<n>`.
pub open spec fn temp_name(n: nat) -> Seq<char> {
    "tmp"@ + spec_digits(n)
}

/// How many temporaries the builder allocates for an expression: one per
/// operator node.
pub open spec fn temp_count(e: c::Expression) -> nat
    decreases e,
{
    match e {
        c::Expression::NumericConstant(_) => 0,
        c::Expression::Unary(_, inner) => 1 + temp_count(*inner),
        c::Expression::Binary { op, left, right } => 1 + temp_count(*left) + temp_count(*right),
    }
}

/// The instructions, result value and next counter value that the builder
/// produces for an expression, walking depth first and, for a binary node,
/// the left operand before the right one.
pub open spec fn build_expression(e: c::Expression, id: nat) -> (Seq<InstructionModel>, ValueModel, nat)
    decreases e,
{
    match e {
        c::Expression::NumericConstant(v) => (seq![], ValueModel::Constant(v), id),
        c::Expression::Unary(op, inner) => {
            let (ins, src, id1) = build_expression(*inner, id);
            let dst = ValueModel::Var(temp_name(id1));
            (
                ins + seq![
                    InstructionModel::Unary { op: spec_unary_operator(op), src, dst },
                ],
                dst,
                id1 + 1,
            )
        },
        c::Expression::Binary { op, left, right } => {
            let (left_ins, lv, id1) = build_expression(*left, id);
            let (right_ins, rv, id2) = build_expression(*right, id1);
            let dst = ValueModel::Var(temp_name(id2));
            (
                left_ins + right_ins + seq![
                    InstructionModel::Binary {
                        op: spec_binary_operator(op),
                        left: lv,
                        right: rv,
                        dst,
                    },
                ],
                dst,
                id2 + 1,
            )
        },
    }
}

/// What the builder produces for a `return` statement: the expression's
/// instructions followed by one `Return` of its result value.
pub open spec fn build_statement(s: c::Statement) -> Seq<InstructionModel> {
    match s {
        c::Statement::Return(e) => {
            let (ins, v, _id) = build_expression(e, 0);
            ins + seq![InstructionModel::Return(v)]
        },
    }
}

/// The builder's final counter value: the starting value plus one per
/// operator node.
pub proof fn lemma_build_id(e: c::Expression, id: nat)
    ensures
        build_expression(e, id).2 == id + temp_count(e),
    decreases e,
{
    match e {
        c::Expression::NumericConstant(_) => {},
        c::Expression::Unary(op, inner) => {
            lemma_build_id(*inner, id);
        },
        c::Expression::Binary { op, left, right } => {
            lemma_build_id(*left, id);
            lemma_build_id(*right, build_expression(*left, id).2);
        },
    }
}

/// Evaluation order: for a binary node the builder emits every instruction
/// of the left operand before every instruction of the right operand,
/// which in turn precede the node's own instruction.
pub proof fn lemma_evaluation_order(op: c::BinaryOperator, left: c::Expression, right: c::Expression, id: nat)
    ensures
        ({
            let e = c::Expression::Binary { op, left: Box::new(left), right: Box::new(right) };
            let (ins, v, id2) = build_expression(e, id);
            let (left_ins, lv, idl) = build_expression(left, id);
            let (right_ins, rv, idr) = build_expression(right, idl);
            &&& ins == left_ins + right_ins + seq![
                InstructionModel::Binary { op: spec_binary_operator(op), left: lv, right: rv, dst: v },
            ]
            &&& v == ValueModel::Var(temp_name(idr))
            &&& id2 == idr + 1
        }),
{
}

/// Mapping models distributes over appending one instruction.
proof fn lemma_model_push(a: Seq<Instruction>, x: Instruction)
    ensures
        a.push(x).map_values(|j: Instruction| instruction_model(j)) =~= a.map_values(
            |j: Instruction| instruction_model(j),
        ).push(instruction_model(x)),
{
}

/// Maps a unary operator of the C tree to its IR counterpart.
pub fn parse_unary_operator(node: c::UnaryOperator) -> (r: UnaryOperator)
    ensures
        r == spec_unary_operator(node),
{
    match node {
        c::UnaryOperator::BitwiseComplement => UnaryOperator::BitwiseComplement,
        c::UnaryOperator::Negation => UnaryOperator::Negation,
    }
}

/// Maps a binary operator of the C tree to its IR counterpart.
pub fn parse_binary_operator(node: c::BinaryOperator) -> (r: BinaryOperator)
    ensures
        r == spec_binary_operator(node),
{
    match node {
        c::BinaryOperator::Add => BinaryOperator::Add,
        c::BinaryOperator::Subtract => BinaryOperator::Subtract,
        c::BinaryOperator::Multiply => BinaryOperator::Multiply,
        c::BinaryOperator::Divide => BinaryOperator::Divide,
        c::BinaryOperator::Modulo => BinaryOperator::Modulo,
    }
}

/// A constant expression becomes a constant value.
pub fn parse_value(node: c::Expression) -> (r: Value)
    requires
        node is NumericConstant,
    ensures
        r == Value::Constant(node->NumericConstant_0),
{
    match node {
        c::Expression::NumericConstant(val) => Value::Constant(val),
        _ => unreached(),
    }
}

/// Generate an AST node representing a uniquely named temporary variable.
fn make_temporary(id: &usize) -> (r: Value)
    ensures
        value_model(r) == ValueModel::Var(temp_name(*id as nat)),
{
    let digits = u64_to_string(*id as u64);
    let name = String::from_str("tmp").concat(digits.as_str());
    proof {
        assert(name@ =~= temp_name(*id as nat));
    }
    Value::Var(name)
}

/// Lowers one expression: emits its instructions after the ones already in
/// `instructions`, advances the temporary counter, and returns the value
/// holding the expression's result.
pub fn recurse_expression(exp: c::Expression, instructions: &mut Vec<Instruction>, id: &mut usize) -> (r:
    Value)
    requires
        *old(id) + temp_count(exp) <= usize::MAX,
    ensures
        ({
            let (ins, v, id2) = build_expression(exp, *old(id) as nat);
            &&& final(instructions)@.map_values(|j: Instruction| instruction_model(j)) == old(
                instructions,
            )@.map_values(|j: Instruction| instruction_model(j)) + ins
            &&& value_model(r) == v
            &&& *final(id) as nat == id2
        }),
    decreases exp,
{
    match exp {
        c::Expression::NumericConstant(val) => {
            let r = Value::Constant(val);
            proof {
                assert(instructions@.map_values(|j: Instruction| instruction_model(j))
                    =~= instructions@.map_values(|j: Instruction| instruction_model(j))
                    + build_expression(c::Expression::NumericConstant(val), *old(id) as nat).0);
            }
            r
        },
        c::Expression::Unary(unop, boxed_inner_exp) => {
            let ghost exp0 = c::Expression::Unary(unop, boxed_inner_exp);
            proof {
                lemma_build_id(*boxed_inner_exp, *id as nat);
            }
            let src = recurse_expression(*boxed_inner_exp, instructions, id);
            let dst = make_temporary(id);
            *id += 1;
            let unop_ast_node = parse_unary_operator(unop);
            let dst2 = clone_value(&dst);
            let unop_instruction_ast_node = Instruction::Unary {
                op: unop_ast_node,
                src,
                dst: dst2,
            };
            let ghost mid = instructions@;
            let ghost instr0 = unop_instruction_ast_node;
            instructions.push(unop_instruction_ast_node);
            proof {
                lemma_model_push(mid, instr0);
                assert(instructions@.map_values(|j: Instruction| instruction_model(j))
                    =~= old(instructions)@.map_values(|j: Instruction| instruction_model(j))
                    + build_expression(exp0, *old(id) as nat).0);
            }
            dst
        },
        c::Expression::Binary { op, left, right } => {
            let ghost exp0 = c::Expression::Binary { op, left, right };
            proof {
                lemma_build_id(*left, *id as nat);
                lemma_build_id(*right, build_expression(*left, *id as nat).2);
            }
            let left_v = recurse_expression(*left, instructions, id);
            let right_v = recurse_expression(*right, instructions, id);
            let dst = make_temporary(id);
            *id += 1;
            let binop_ast_node = parse_binary_operator(op);
            let dst2 = clone_value(&dst);
            let binop_instruction_ast_node = Instruction::Binary {
                op: binop_ast_node,
                left: left_v,
                right: right_v,
                dst: dst2,
            };
            let ghost mid = instructions@;
            let ghost instr0 = binop_instruction_ast_node;
            instructions.push(binop_instruction_ast_node);
            proof {
                lemma_model_push(mid, instr0);
                assert(instructions@.map_values(|j: Instruction| instruction_model(j))
                    =~= old(instructions)@.map_values(|j: Instruction| instruction_model(j))
                    + build_expression(exp0, *old(id) as nat).0);
            }
            dst
        },
    }
}

/// A copy of a value that is equal to it, usable from verified code.
pub fn clone_value(v: &Value) -> (r: Value)
    ensures
        r == *v,
{
    match v {
        Value::Constant(c) => Value::Constant(*c),
        Value::Var(id) => Value::Var(id.clone()),
    }
}

/// A copy of an instruction that is equal to it, usable from verified
/// code.
pub fn clone_instruction(i: &Instruction) -> (r: Instruction)
    ensures
        r == *i,
{
    match i {
        Instruction::Return(v) => Instruction::Return(clone_value(v)),
        Instruction::Unary { op, src, dst } => Instruction::Unary {
            op: *op,
            src: clone_value(src),
            dst: clone_value(dst),
        },
        Instruction::Binary { op, left, right, dst } => Instruction::Binary {
            op: *op,
            left: clone_value(left),
            right: clone_value(right),
            dst: clone_value(dst),
        },
    }
}

/// Lowers a `return` statement to the expression's instructions followed
/// by a `Return` instruction.
pub fn parse_instruction(node: c::Statement) -> (r: Vec<Instruction>)
    requires
        match node {
            c::Statement::Return(e) => temp_count(e) <= usize::MAX,
        },
    ensures
        r@.map_values(|j: Instruction| instruction_model(j)) == build_statement(node),
{
    let mut instructions: Vec<Instruction> = Vec::new();
    let mut identifier_count: usize = 0;

    match node {
        c::Statement::Return(exp) => {
            let ghost node0 = c::Statement::Return(exp);
            let dst = recurse_expression(exp, &mut instructions, &mut identifier_count);
            let ghost mid = instructions@;
            let ghost dst0 = dst;
            instructions.push(Instruction::Return(dst));
            proof {
                lemma_model_push(mid, Instruction::Return(dst0));
                assert(instructions@.map_values(|j: Instruction| instruction_model(j))
                    =~= build_statement(node0));
            }
        },
    }

    instructions
}

/// Lowers a function definition, keeping its name.
pub fn parse_function_definition(node: c::FunctionDefinition) -> (r: FunctionDefinition)
    requires
        match node {
            c::FunctionDefinition::Function { name, body } => match body {
                c::Statement::Return(e) => temp_count(e) <= usize::MAX,
            },
        },
    ensures
        match (node, r) {
            (
                c::FunctionDefinition::Function { name, body },
                FunctionDefinition::Function { identifier, body: rbody },
            ) => identifier == name && rbody@.map_values(|j: Instruction| instruction_model(j))
                == build_statement(body),
        },
{
    match node {
        c::FunctionDefinition::Function { name, body } => FunctionDefinition::Function {
            identifier: name,
            body: parse_instruction(body),
        },
    }
}

/// Lowers a whole program: its single function definition.
pub fn parse_program_definition(node: c::ProgramDefinition) -> (r: ProgramDefinition)
    requires
        match node {
            c::ProgramDefinition::Program(c::FunctionDefinition::Function { name, body }) => match body {
                c::Statement::Return(e) => temp_count(e) <= usize::MAX,
            },
        },
    ensures
        match (node, r) {
            (
                c::ProgramDefinition::Program(c::FunctionDefinition::Function { name, body }),
                ProgramDefinition::Program(FunctionDefinition::Function { identifier, body: rbody }),
            ) => identifier == name && rbody@.map_values(|j: Instruction| instruction_model(j))
                == build_statement(body),
        },
{
    match node {
        c::ProgramDefinition::Program(func_defn) => ProgramDefinition::Program(
            parse_function_definition(func_defn),
        ),
    }
}

} // verus!
