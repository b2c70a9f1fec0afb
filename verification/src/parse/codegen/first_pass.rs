//! Instruction selection: maps each IR instruction, independently, to a
//! sequence of target instructions over symbolic (pseudo-register)
//! operands.

use vstd::prelude::*;

use crate::parse::codegen::clone_operand;
use crate::parse::codegen::{
    BinaryOperator, FunctionDefinition, Instruction, Operand, ProgramDefinition, Reg, UnaryOperator,
};
use crate::parse::ir;

verus! {

pub open spec fn spec_unary_operator(node: ir::UnaryOperator) -> UnaryOperator {
    match node {
        ir::UnaryOperator::BitwiseComplement => UnaryOperator::Not,
        ir::UnaryOperator::Negation => UnaryOperator::Neg,
    }
}

pub open spec fn spec_binary_operator(node: ir::BinaryOperator) -> BinaryOperator
    recommends
        !(node is Divide) && !(node is Modulo),
{
    match node {
        ir::BinaryOperator::Add => BinaryOperator::Add,
        ir::BinaryOperator::Subtract => BinaryOperator::Subtract,
        ir::BinaryOperator::Multiply => BinaryOperator::Multiply,
        _ => arbitrary(),
    }
}

pub open spec fn spec_operand(node: ir::Value) -> Operand {
    match node {
        ir::Value::Constant(val) => Operand::Imm(val),
        ir::Value::Var(identifier) => Operand::PseudoRegister(identifier),
    }
}

/// Whether the selector handles this IR instruction: the `Modulo` lowering
/// (its remainder-register move) is not implemented.
pub open spec fn selectable(node: ir::Instruction) -> bool {
    match node {
        ir::Instruction::Binary { op, .. } => !(op is Modulo),
        _ => true,
    }
}

pub open spec fn all_selectable(body: Seq<ir::Instruction>) -> bool {
    forall|k: int| 0 <= k < body.len() ==> selectable(#[trigger] body[k])
}

/// The selection table: the target instructions for one IR instruction.
pub open spec fn select_instruction(node: ir::Instruction) -> Seq<Instruction>
    recommends
        selectable(node),
{
    match node {
        ir::Instruction::Return(val) => seq![
            Instruction::Mov { src: spec_operand(val), dst: Operand::Register(Reg::AX) },
            Instruction::Ret,
        ],
        ir::Instruction::Unary { op, src, dst } => seq![
            Instruction::Mov { src: spec_operand(src), dst: spec_operand(dst) },
            Instruction::Unary { op: spec_unary_operator(op), dst: spec_operand(dst) },
        ],
        ir::Instruction::Binary { op, left, right, dst } => {
            if op is Divide {
                seq![
                    Instruction::Mov { src: spec_operand(left), dst: Operand::Register(Reg::AX) },
                    Instruction::Cdq,
                    Instruction::Idiv(spec_operand(right)),
                    Instruction::Mov { src: Operand::Register(Reg::AX), dst: spec_operand(dst) },
                ]
            } else {
                seq![
                    Instruction::Mov { src: spec_operand(left), dst: spec_operand(dst) },
                    Instruction::Binary {
                        op: spec_binary_operator(op),
                        src: spec_operand(right),
                        dst: spec_operand(dst),
                    },
                ]
            }
        },
    }
}

/// Whole-function selection: the per-instruction sequences concatenated in
/// IR order.
pub open spec fn select_instructions(body: Seq<ir::Instruction>) -> Seq<Instruction>
    decreases body.len(),
{
    if body.len() == 0 {
        seq![]
    } else {
        select_instruction(body[0]) + select_instructions(body.drop_first())
    }
}

/// Appending one instruction appends its selection.
proof fn lemma_select_push(body: Seq<ir::Instruction>, x: ir::Instruction)
    ensures
        select_instructions(body.push(x)) == select_instructions(body) + select_instruction(x),
    decreases body.len(),
{
    reveal_with_fuel(select_instructions, 3);
    if body.len() == 0 {
        assert(body.push(x).drop_first() =~= Seq::<ir::Instruction>::empty());
        assert(select_instructions(body.push(x)) =~= select_instruction(x));
        assert(select_instructions(body) + select_instruction(x) =~= select_instruction(x));
    } else {
        assert(body.push(x).drop_first() =~= body.drop_first().push(x));
        lemma_select_push(body.drop_first(), x);
        assert(select_instructions(body.push(x)) =~= select_instructions(body)
            + select_instruction(x));
    }
}

/// Selection never emits a stack-frame allocation instruction.
pub proof fn lemma_select_no_allocate_stack(body: Seq<ir::Instruction>)
    ensures
        forall|k: int|
            0 <= k < select_instructions(body).len() ==> !(#[trigger] select_instructions(
                body,
            )[k] is AllocateStack),
    decreases body.len(),
{
    if body.len() > 0 {
        lemma_select_no_allocate_stack(body.drop_first());
    }
}

/// Maps an IR unary operator to its target mnemonic.
pub fn parse_unary_operator(node: ir::UnaryOperator) -> (r: UnaryOperator)
    ensures
        r == spec_unary_operator(node),
{
    match node {
        ir::UnaryOperator::BitwiseComplement => UnaryOperator::Not,
        ir::UnaryOperator::Negation => UnaryOperator::Neg,
    }
}

/// Maps an IR binary operator to its target mnemonic; division and modulo
/// have no two-operand form and are selected separately.
pub fn parse_binary_operator(node: ir::BinaryOperator) -> (r: BinaryOperator)
    requires
        !(node is Divide) && !(node is Modulo),
    ensures
        r == spec_binary_operator(node),
{
    match node {
        ir::BinaryOperator::Add => BinaryOperator::Add,
        ir::BinaryOperator::Subtract => BinaryOperator::Subtract,
        ir::BinaryOperator::Multiply => BinaryOperator::Multiply,
        _ => unreached(),
    }
}

/// A constant becomes an immediate; a variable a pseudo-register.
pub fn parse_operand(node: ir::Value) -> (r: Operand)
    ensures
        r == spec_operand(node),
{
    match node {
        ir::Value::Constant(val) => Operand::Imm(val),
        ir::Value::Var(identifier) => Operand::PseudoRegister(identifier),
    }
}

/// Selects the target instructions for one IR instruction.
pub fn parse_instructions(node: ir::Instruction) -> (r: Vec<Instruction>)
    requires
        selectable(node),
    ensures
        r@ == select_instruction(node),
{
    match node {
        ir::Instruction::Return(val) => {
            let ghost node0 = ir::Instruction::Return(val);
            let src = parse_operand(val);
            let dst = Operand::Register(Reg::AX);
            let r = vec![Instruction::Mov { src, dst }, Instruction::Ret];
            proof {
                assert(r@ =~= select_instruction(node0));
            }
            r
        },
        ir::Instruction::Unary { op, src, dst } => {
            let ghost node0 = ir::Instruction::Unary { op, src, dst };
            let op = parse_unary_operator(op);
            let src = parse_operand(src);
            let dst = parse_operand(dst);
            let dst_copy = clone_operand(&dst);
            let r = vec![
                Instruction::Mov { src, dst: dst_copy },
                Instruction::Unary { op, dst },
            ];
            proof {
                assert(r@ =~= select_instruction(node0));
            }
            r
        },
        ir::Instruction::Binary { op, left, right, dst } => {
            let ghost node0 = ir::Instruction::Binary { op, left, right, dst };
            let left = parse_operand(left);
            let right = parse_operand(right);
            let dst = parse_operand(dst);
            match op {
                ir::BinaryOperator::Add | ir::BinaryOperator::Subtract
                    | ir::BinaryOperator::Multiply => {
                    let op = parse_binary_operator(op);
                    let dst_copy = clone_operand(&dst);
                    let r = vec![
                        Instruction::Mov { src: left, dst: dst_copy },
                        Instruction::Binary { op, src: right, dst },
                    ];
                    proof {
                        assert(r@ =~= select_instruction(node0));
                    }
                    r
                },
                ir::BinaryOperator::Divide => {
                    let r = vec![
                        Instruction::Mov { src: left, dst: Operand::Register(Reg::AX) },
                        Instruction::Cdq,
                        Instruction::Idiv(right),
                        Instruction::Mov { src: Operand::Register(Reg::AX), dst },
                    ];
                    proof {
                        assert(r@ =~= select_instruction(node0));
                    }
                    r
                },
                ir::BinaryOperator::Modulo => unreached(),
            }
        },
    }
}

/// Selects a whole function: per-instruction sequences concatenated in IR
/// order, the name kept.
pub fn parse_function_definition(node: ir::FunctionDefinition) -> (r: FunctionDefinition)
    requires
        match node {
            ir::FunctionDefinition::Function { identifier, body } => all_selectable(body@),
        },
    ensures
        match (node, r) {
            (
                ir::FunctionDefinition::Function { identifier, body },
                FunctionDefinition::Function { name, instructions },
            ) => name == identifier && instructions@ == select_instructions(body@),
        },
{
    match node {
        ir::FunctionDefinition::Function { identifier, body } => {
            let mut all_asm_instructions: Vec<Instruction> = Vec::new();

            let mut i: usize = 0;
            while i < body.len()
                invariant
                    i <= body.len(),
                    all_selectable(body@),
                    all_asm_instructions@ == select_instructions(body@.take(i as int)),
                decreases body.len() - i,
            {
                let ir_instruction = crate::parse::ir::clone_instruction(&body[i]);
                let mut asm_instructions = parse_instructions(ir_instruction);
                all_asm_instructions.append(&mut asm_instructions);
                proof {
                    assert(body@.take(i + 1) =~= body@.take(i as int).push(body@[i as int]));
                    lemma_select_push(body@.take(i as int), body@[i as int]);
                }
                i = i + 1;
            }
            proof {
                assert(body@.take(body@.len() as int) =~= body@);
            }
            FunctionDefinition::Function { name: identifier, instructions: all_asm_instructions }
        },
    }
}

/// Selects a whole program: its single function definition.
pub fn parse_program_definition(node: ir::ProgramDefinition) -> (r: ProgramDefinition)
    requires
        match node {
            ir::ProgramDefinition::Program(ir::FunctionDefinition::Function { identifier, body }) =>
                all_selectable(body@),
        },
    ensures
        match (node, r) {
            (
                ir::ProgramDefinition::Program(ir::FunctionDefinition::Function { identifier, body }),
                ProgramDefinition::Program(FunctionDefinition::Function { name, instructions }),
            ) => name == identifier && instructions@ == select_instructions(body@),
        },
{
    match node {
        ir::ProgramDefinition::Program(ir_func_defn) => {
            let asm_function_definition = parse_function_definition(ir_func_defn);
            ProgramDefinition::Program(asm_function_definition)
        },
    }
}

} // verus!
