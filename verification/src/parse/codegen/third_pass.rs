//! Instruction legalization: rewrites instructions that violate the
//! target's addressing-mode rules, and prepends the stack-frame
//! allocation instruction.

use vstd::prelude::*;

use crate::parse::codegen::clone_instruction;
use crate::parse::codegen::{
    all_printable, printable_instruction, BinaryOperator, FunctionDefinition, Instruction, Operand,
    ProgramDefinition, Reg,
};

verus! {

/// The addressing-mode constraints of the target: no memory-to-memory
/// move, no immediate divisor, no multiply into a stack slot.
pub open spec fn legal(i: Instruction) -> bool {
    &&& !(i matches Instruction::Mov { src: Operand::Stack(_), dst: Operand::Stack(_) })
    &&& !(i matches Instruction::Idiv(Operand::Imm(_)))
    &&& !(i matches Instruction::Binary { op: BinaryOperator::Multiply, src: _, dst: Operand::Stack(_) })
}

/// The rewrite table: each illegal pattern becomes an equivalent sequence
/// through a scratch register; anything else passes through verbatim.
pub open spec fn legalize_instruction(node: Instruction) -> Seq<Instruction> {
    match node {
        Instruction::Mov { src: Operand::Stack(src_offset), dst: Operand::Stack(dst_offset) } => seq![
            Instruction::Mov { src: Operand::Stack(src_offset), dst: Operand::Register(Reg::R10D) },
            Instruction::Mov { src: Operand::Register(Reg::R10D), dst: Operand::Stack(dst_offset) },
        ],
        Instruction::Idiv(Operand::Imm(v)) => seq![
            Instruction::Mov { src: Operand::Imm(v), dst: Operand::Register(Reg::R10D) },
            Instruction::Idiv(Operand::Register(Reg::R10D)),
        ],
        Instruction::Binary {
            op: BinaryOperator::Add,
            src: Operand::Stack(src_offset),
            dst: Operand::Stack(dst_offset),
        } => seq![
            Instruction::Mov { src: Operand::Stack(src_offset), dst: Operand::Register(Reg::R10D) },
            Instruction::Binary {
                op: BinaryOperator::Add,
                src: Operand::Register(Reg::R10D),
                dst: Operand::Stack(dst_offset),
            },
        ],
        Instruction::Binary {
            op: BinaryOperator::Subtract,
            src: Operand::Stack(src_offset),
            dst: Operand::Stack(dst_offset),
        } => seq![
            Instruction::Mov { src: Operand::Stack(src_offset), dst: Operand::Register(Reg::R10D) },
            Instruction::Binary {
                op: BinaryOperator::Subtract,
                src: Operand::Register(Reg::R10D),
                dst: Operand::Stack(dst_offset),
            },
        ],
        Instruction::Binary { op: BinaryOperator::Multiply, src, dst: Operand::Stack(dst_offset) } => seq![
            Instruction::Mov { src: Operand::Stack(dst_offset), dst: Operand::Register(Reg::R11D) },
            Instruction::Binary {
                op: BinaryOperator::Multiply,
                src,
                dst: Operand::Register(Reg::R11D),
            },
            Instruction::Mov { src: Operand::Register(Reg::R11D), dst: Operand::Stack(dst_offset) },
        ],
        _ => seq![node],
    }
}

/// The legalization pass over an instruction sequence.
pub open spec fn legalize_instructions(s: Seq<Instruction>) -> Seq<Instruction>
    decreases s.len(),
{
    if s.len() == 0 {
        seq![]
    } else {
        legalize_instruction(s[0]) + legalize_instructions(s.drop_first())
    }
}

/// Legality invariant: every instruction the per-instruction rewrite
/// emits satisfies the addressing-mode constraints.
pub proof fn lemma_legalize_instruction_legal(node: Instruction)
    ensures
        forall|k: int|
            0 <= k < legalize_instruction(node).len() ==> legal(
                #[trigger] legalize_instruction(node)[k],
            ),
{
}

/// Legality invariant for the whole pass: every instruction of the output
/// satisfies the addressing-mode constraints.
pub proof fn lemma_legalize_legal(s: Seq<Instruction>)
    ensures
        forall|k: int|
            0 <= k < legalize_instructions(s).len() ==> legal(
                #[trigger] legalize_instructions(s)[k],
            ),
    decreases s.len(),
{
    if s.len() > 0 {
        lemma_legalize_instruction_legal(s[0]);
        lemma_legalize_legal(s.drop_first());
        let head = legalize_instruction(s[0]);
        let tail = legalize_instructions(s.drop_first());
        assert forall|k: int|
            0 <= k < legalize_instructions(s).len() implies legal(
            #[trigger] legalize_instructions(s)[k],
        ) by {
            if k < head.len() {
                assert(legalize_instructions(s)[k] == head[k]);
            } else {
                assert(legalize_instructions(s)[k] == tail[k - head.len()]);
            }
        }
    }
}

/// The rewrite of an instruction with concrete storage again has concrete
/// storage everywhere.
pub proof fn lemma_legalize_instruction_printable(node: Instruction)
    requires
        printable_instruction(node),
    ensures
        forall|k: int|
            0 <= k < legalize_instruction(node).len() ==> printable_instruction(
                #[trigger] legalize_instruction(node)[k],
            ),
{
}

/// Legalizing a printable sequence yields a printable sequence.
pub proof fn lemma_legalize_printable(s: Seq<Instruction>)
    requires
        all_printable(s),
    ensures
        all_printable(legalize_instructions(s)),
    decreases s.len(),
{
    if s.len() > 0 {
        lemma_legalize_instruction_printable(s[0]);
        assert(forall|k: int|
            0 <= k < s.drop_first().len() ==> printable_instruction(
                #[trigger] s.drop_first()[k],
            ));
        lemma_legalize_printable(s.drop_first());
        let head = legalize_instruction(s[0]);
        let tail = legalize_instructions(s.drop_first());
        assert forall|k: int|
            0 <= k < legalize_instructions(s).len() implies printable_instruction(
            #[trigger] legalize_instructions(s)[k],
        ) by {
            if k < head.len() {
                assert(legalize_instructions(s)[k] == head[k]);
            } else {
                assert(legalize_instructions(s)[k] == tail[k - head.len()]);
            }
        }
    }
}

/// Appending one instruction appends its rewrite.
proof fn lemma_legalize_push(s: Seq<Instruction>, x: Instruction)
    ensures
        legalize_instructions(s.push(x)) == legalize_instructions(s) + legalize_instruction(x),
    decreases s.len(),
{
    reveal_with_fuel(legalize_instructions, 3);
    if s.len() == 0 {
        assert(s.push(x).drop_first() =~= Seq::<Instruction>::empty());
        assert(legalize_instructions(s.push(x)) =~= legalize_instruction(x));
        assert(legalize_instructions(s) + legalize_instruction(x) =~= legalize_instruction(x));
    } else {
        assert(s.push(x).drop_first() =~= s.drop_first().push(x));
        lemma_legalize_push(s.drop_first(), x);
        assert(legalize_instructions(s.push(x)) =~= legalize_instructions(s)
            + legalize_instruction(x));
    }
}

/// Rewrites every illegal instruction in the sequence, in order.
pub fn parse_instructions(nodes: Vec<Instruction>) -> (r: Vec<Instruction>)
    ensures
        r@ == legalize_instructions(nodes@),
        forall|k: int| 0 <= k < r@.len() ==> legal(#[trigger] r@[k]),
{
    let mut transformed_instructions: Vec<Instruction> = Vec::new();

    let n = nodes.len();
    let mut i: usize = 0;
    while i < n
        invariant
            n == nodes.len(),
            i <= n,
            transformed_instructions@ == legalize_instructions(nodes@.take(i as int)),
        decreases n - i,
    {
        let node = clone_instruction(&nodes[i]);
        let ghost node0 = nodes@[i as int];
        match node {
            Instruction::Mov { src: Operand::Stack(src_offset), dst: Operand::Stack(dst_offset) } => {
                transformed_instructions.push(
                    Instruction::Mov {
                        src: Operand::Stack(src_offset),
                        dst: Operand::Register(Reg::R10D),
                    },
                );
                transformed_instructions.push(
                    Instruction::Mov {
                        src: Operand::Register(Reg::R10D),
                        dst: Operand::Stack(dst_offset),
                    },
                );
            },
            Instruction::Idiv(Operand::Imm(v)) => {
                transformed_instructions.push(
                    Instruction::Mov { src: Operand::Imm(v), dst: Operand::Register(Reg::R10D) },
                );
                transformed_instructions.push(Instruction::Idiv(Operand::Register(Reg::R10D)));
            },
            Instruction::Binary {
                op: BinaryOperator::Add,
                src: Operand::Stack(src_offset),
                dst: Operand::Stack(dst_offset),
            } => {
                transformed_instructions.push(
                    Instruction::Mov {
                        src: Operand::Stack(src_offset),
                        dst: Operand::Register(Reg::R10D),
                    },
                );
                transformed_instructions.push(
                    Instruction::Binary {
                        op: BinaryOperator::Add,
                        src: Operand::Register(Reg::R10D),
                        dst: Operand::Stack(dst_offset),
                    },
                );
            },
            Instruction::Binary {
                op: BinaryOperator::Subtract,
                src: Operand::Stack(src_offset),
                dst: Operand::Stack(dst_offset),
            } => {
                transformed_instructions.push(
                    Instruction::Mov {
                        src: Operand::Stack(src_offset),
                        dst: Operand::Register(Reg::R10D),
                    },
                );
                transformed_instructions.push(
                    Instruction::Binary {
                        op: BinaryOperator::Subtract,
                        src: Operand::Register(Reg::R10D),
                        dst: Operand::Stack(dst_offset),
                    },
                );
            },
            Instruction::Binary { op: BinaryOperator::Multiply, src, dst: Operand::Stack(dst_offset) } => {
                transformed_instructions.push(
                    Instruction::Mov {
                        src: Operand::Stack(dst_offset),
                        dst: Operand::Register(Reg::R11D),
                    },
                );
                transformed_instructions.push(
                    Instruction::Binary {
                        op: BinaryOperator::Multiply,
                        src,
                        dst: Operand::Register(Reg::R11D),
                    },
                );
                transformed_instructions.push(
                    Instruction::Mov {
                        src: Operand::Register(Reg::R11D),
                        dst: Operand::Stack(dst_offset),
                    },
                );
            },
            other => {
                transformed_instructions.push(other);
            },
        }
        proof {
            assert(nodes@.take(i + 1) =~= nodes@.take(i as int).push(node0));
            lemma_legalize_push(nodes@.take(i as int), node0);
            assert(transformed_instructions@ =~= legalize_instructions(nodes@.take(i + 1)));
        }
        i = i + 1;
    }
    proof {
        assert(nodes@.take(n as int) =~= nodes@);
        lemma_legalize_legal(nodes@);
    }
    transformed_instructions
}

/// The frame size in bytes for a final stack offset: its magnitude.
pub open spec fn spec_frame_bytes(stack_offset: i8) -> u8
    recommends
        stack_offset <= 0,
{
    (-(stack_offset as int)) as u8
}

/// Prepends the stack-frame allocation sized to the allocator's result,
/// then legalizes every instruction.
pub fn parse_function_definition(node: FunctionDefinition, stack_offset: i8) -> (r:
    FunctionDefinition)
    requires
        stack_offset <= 0,
    ensures
        match (node, r) {
            (
                FunctionDefinition::Function { name, instructions },
                FunctionDefinition::Function { name: rname, instructions: rinstrs },
            ) => rname == name && rinstrs@ == legalize_instructions(
                seq![Instruction::AllocateStack(spec_frame_bytes(stack_offset))] + instructions@,
            ) && (forall|k: int| 0 <= k < rinstrs@.len() ==> legal(#[trigger] rinstrs@[k])),
        },
{
    match node {
        FunctionDefinition::Function { name, mut instructions } => {
            let ghost before = instructions@;
            let bytes: u8 = (-(stack_offset as i16)) as u8;
            instructions.insert(0, Instruction::AllocateStack(bytes));
            proof {
                assert(instructions@ =~= seq![
                    Instruction::AllocateStack(spec_frame_bytes(stack_offset)),
                ] + before);
            }
            FunctionDefinition::Function { name, instructions: parse_instructions(instructions) }
        },
    }
}

/// Legalizes a whole program, prefixing its function with the frame
/// allocation.
pub fn parse_program_definition(node: ProgramDefinition, stack_offset: i8) -> (r: ProgramDefinition)
    requires
        stack_offset <= 0,
    ensures
        match (node, r) {
            (
                ProgramDefinition::Program(FunctionDefinition::Function { name, instructions }),
                ProgramDefinition::Program(FunctionDefinition::Function { name: rname, instructions: rinstrs }),
            ) => rname == name && rinstrs@ == legalize_instructions(
                seq![Instruction::AllocateStack(spec_frame_bytes(stack_offset))] + instructions@,
            ) && (forall|k: int| 0 <= k < rinstrs@.len() ==> legal(#[trigger] rinstrs@[k])),
        },
{
    match node {
        ProgramDefinition::Program(func_defn) => ProgramDefinition::Program(
            parse_function_definition(func_defn, stack_offset),
        ),
    }
}

} // verus!
