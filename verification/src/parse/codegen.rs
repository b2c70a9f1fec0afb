//! The target assembly model, and the three-pass lowering from the
//! intermediate representation: instruction selection, stack-slot
//! allocation, and instruction legalization.

use vstd::prelude::*;

use crate::parse::ir;

pub mod first_pass;
pub mod second_pass;
pub mod third_pass;

verus! {

/// All temporary variables put onto the stack are assumed to be 4-byte
/// integers.
pub const TMP_VAR_BYTE_LEN: usize = 4;

#[derive(Debug, PartialEq, Clone, Copy)]
pub enum Reg {
    AX,
    DX,
    R10D,
    R11D,
}

#[derive(Debug, PartialEq, Clone, Copy)]
pub enum UnaryOperator {
    Not,
    Neg,
}

#[derive(Debug, PartialEq, Clone, Copy)]
pub enum BinaryOperator {
    Add,
    Subtract,
    Multiply,
}

#[derive(Debug, PartialEq, Clone)]
pub enum Operand {
    Imm(u8),
    Register(Reg),
    PseudoRegister(crate::parse::Identifier),
    Stack(i8),
}

#[derive(Debug, PartialEq, Clone)]
pub enum Instruction {
    Mov { src: Operand, dst: Operand },
    Ret,
    Unary { op: UnaryOperator, dst: Operand },
    Binary { op: BinaryOperator, src: Operand, dst: Operand },
    Cdq,
    Idiv(Operand),
    AllocateStack(u8),
}

#[derive(Debug, PartialEq)]
pub enum FunctionDefinition {
    Function { name: crate::parse::Identifier, instructions: Vec<Instruction> },
}

#[derive(Debug, PartialEq)]
pub enum ProgramDefinition {
    Program(FunctionDefinition),
}

/// Every operand reaching the printer must have concrete storage: a
/// pseudo-register past the storage allocator is a defect of the pass
/// pipeline.
pub open spec fn printable_operand(o: Operand) -> bool {
    !(o is PseudoRegister)
}

pub open spec fn printable_instruction(i: Instruction) -> bool {
    match i {
        Instruction::Mov { src, dst } => printable_operand(src) && printable_operand(dst),
        Instruction::Unary { op, dst } => printable_operand(dst),
        Instruction::Binary { op, src, dst } => printable_operand(src) && printable_operand(dst),
        Instruction::Idiv(operand) => printable_operand(operand),
        _ => true,
    }
}

pub open spec fn all_printable(s: Seq<Instruction>) -> bool {
    forall|k: int| 0 <= k < s.len() ==> printable_instruction(#[trigger] s[k])
}

/// A copy of an operand that is equal to it, usable from verified code.
pub fn clone_operand(o: &Operand) -> (r: Operand)
    ensures
        r == *o,
{
    match o {
        Operand::Imm(v) => Operand::Imm(*v),
        Operand::Register(reg) => Operand::Register(*reg),
        Operand::PseudoRegister(id) => Operand::PseudoRegister(id.clone()),
        Operand::Stack(off) => Operand::Stack(*off),
    }
}

/// A copy of an instruction that is equal to it, usable from verified
/// code.
pub fn clone_instruction(i: &Instruction) -> (r: Instruction)
    ensures
        r == *i,
{
    match i {
        Instruction::Mov { src, dst } => Instruction::Mov {
            src: clone_operand(src),
            dst: clone_operand(dst),
        },
        Instruction::Ret => Instruction::Ret,
        Instruction::Unary { op, dst } => Instruction::Unary { op: *op, dst: clone_operand(dst) },
        Instruction::Binary { op, src, dst } => Instruction::Binary {
            op: *op,
            src: clone_operand(src),
            dst: clone_operand(dst),
        },
        Instruction::Cdq => Instruction::Cdq,
        Instruction::Idiv(o) => Instruction::Idiv(clone_operand(o)),
        Instruction::AllocateStack(n) => Instruction::AllocateStack(*n),
    }
}

/// Runs the three passes in order: instruction selection, stack-slot
/// allocation, and legalization with the frame-allocation prefix.
pub fn parse_program_definition(ir_ast: ir::ProgramDefinition) -> (r: ProgramDefinition)
    requires
        match ir_ast {
            ir::ProgramDefinition::Program(ir::FunctionDefinition::Function { identifier, body }) => {
                &&& first_pass::all_selectable(body@)
                &&& second_pass::alloc_instructions(
                    first_pass::select_instructions(body@),
                    Seq::empty(),
                    0,
                ).2 >= i8::MIN
            },
        },
    ensures
        match (ir_ast, r) {
            (
                ir::ProgramDefinition::Program(ir::FunctionDefinition::Function { identifier, body }),
                ProgramDefinition::Program(FunctionDefinition::Function { name, instructions }),
            ) => {
                let selected = first_pass::select_instructions(body@);
                let (alloced, m, off) = second_pass::alloc_instructions(selected, Seq::empty(), 0);
                &&& name == identifier
                &&& instructions@ == third_pass::legalize_instructions(
                    seq![Instruction::AllocateStack(third_pass::spec_frame_bytes(off as i8))]
                        + alloced,
                )
                &&& (forall|k: int|
                    0 <= k < instructions@.len() ==> third_pass::legal(
                        #[trigger] instructions@[k],
                    ))
                &&& all_printable(instructions@)
            },
        },
{
    proof {
        let ghost g = ir_ast;
        match g {
            ir::ProgramDefinition::Program(ir::FunctionDefinition::Function { identifier, body }) => {
                let selected = first_pass::select_instructions(body@);
                first_pass::lemma_select_no_allocate_stack(body@);
                second_pass::lemma_alloc_monotonic(selected, Seq::empty(), 0);
                second_pass::lemma_alloc_printable(selected, Seq::empty(), 0);
                let (alloced, m, off) = second_pass::alloc_instructions(selected, Seq::empty(), 0);
                let framed = seq![
                    Instruction::AllocateStack(third_pass::spec_frame_bytes(off as i8)),
                ] + alloced;
                assert forall|k: int|
                    0 <= k < framed.len() implies printable_instruction(#[trigger] framed[k]) by {
                    if k > 0 {
                        assert(framed[k] == alloced[k - 1]);
                    }
                }
                third_pass::lemma_legalize_printable(framed);
            },
        }
    }
    let selected = first_pass::parse_program_definition(ir_ast);
    let (alloced, stack_offset) = second_pass::parse_program_definition(selected);
    third_pass::parse_program_definition(alloced, stack_offset)
}

} // verus!
