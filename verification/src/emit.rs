//! Code emission: renders a legalized assembly program as text lines,
//! one instruction per line, with the function prologue and epilogue.

use vstd::prelude::*;
use vstd::string::*;

use crate::decimal::i64_to_string;
use crate::decimal::spec_digits;
use crate::decimal::spec_signed;
use crate::decimal::u64_to_string;
use crate::parse::codegen::{
    all_printable, printable_instruction, printable_operand, BinaryOperator, FunctionDefinition,
    Instruction, Operand, ProgramDefinition, Reg, UnaryOperator,
};

verus! {

pub open spec fn spec_emit_operand(o: Operand) -> Seq<char>
    recommends
        printable_operand(o),
{
    match o {
        Operand::Imm(v) => "$"@ + spec_digits(v as nat),
        Operand::Register(Reg::AX) => "%eax"@,
        Operand::Register(Reg::DX) => "%edx"@,
        Operand::Register(Reg::R10D) => "%r10d"@,
        Operand::Register(Reg::R11D) => "%r11d"@,
        Operand::Stack(off) => spec_signed(off as int) + "(%rbp)"@,
        Operand::PseudoRegister(_) => arbitrary(),
    }
}

pub open spec fn spec_emit_unary_operator(op: UnaryOperator) -> Seq<char> {
    match op {
        UnaryOperator::Neg => "negl"@,
        UnaryOperator::Not => "notl"@,
    }
}

pub open spec fn spec_emit_binary_operator(op: BinaryOperator) -> Seq<char> {
    match op {
        BinaryOperator::Add => "addl"@,
        BinaryOperator::Subtract => "subl"@,
        BinaryOperator::Multiply => "imull"@,
    }
}

/// The text lines for one instruction: operand order is `src, dst`,
/// mnemonics carry the operand-size suffix, and `Ret` restores the frame
/// pointer before returning.
pub open spec fn spec_emit_instruction(i: Instruction) -> Seq<Seq<char>>
    recommends
        printable_instruction(i),
{
    match i {
        Instruction::Mov { src, dst } => seq![
            "    movl "@ + spec_emit_operand(src) + ", "@ + spec_emit_operand(dst),
        ],
        Instruction::Ret => seq!["    movq %rbp, %rsp"@, "    popq %rbp"@, "    ret"@],
        Instruction::AllocateStack(offset) => seq![
            "    subq $"@ + spec_digits(offset as nat) + ", %rsp"@,
        ],
        Instruction::Unary { op, dst } => seq![
            "    "@ + spec_emit_unary_operator(op) + " "@ + spec_emit_operand(dst),
        ],
        Instruction::Cdq => seq!["    cdq"@],
        Instruction::Idiv(operand) => seq!["    idivl "@ + spec_emit_operand(operand)],
        Instruction::Binary { op, src, dst } => seq![
            "    "@ + spec_emit_binary_operator(op) + " "@ + spec_emit_operand(src) + ", "@
                + spec_emit_operand(dst),
        ],
    }
}

/// The text lines for an instruction sequence, in order.
pub open spec fn spec_emit_instructions(s: Seq<Instruction>) -> Seq<Seq<char>>
    decreases s.len(),
{
    if s.len() == 0 {
        seq![]
    } else {
        spec_emit_instruction(s[0]) + spec_emit_instructions(s.drop_first())
    }
}

/// The text lines for a whole function: directive, label, prologue, body.
pub open spec fn spec_emit_function(f: FunctionDefinition) -> Seq<Seq<char>> {
    match f {
        FunctionDefinition::Function { name, instructions } => seq![
            "    .globl "@ + name@,
            name@ + ":"@,
            "    pushq %rbp"@,
            "    movq %rsp, %rbp"@,
        ] + spec_emit_instructions(instructions@),
    }
}

/// Mapping views distributes over concatenation of line vectors.
proof fn lemma_map_lines_add(a: Seq<String>, b: Seq<String>)
    ensures
        (a + b).map_values(|s: String| s@) =~= a.map_values(|s: String| s@) + b.map_values(
            |s: String| s@,
        ),
{
}

/// The assembly text for a sequence of lines: the lines joined with one
/// newline between each pair, and no trailing newline.
pub open spec fn spec_joined(lines: Seq<Seq<char>>) -> Seq<char>
    decreases lines.len(),
{
    if lines.len() == 0 {
        seq![]
    } else if lines.len() == 1 {
        lines[0]
    } else {
        spec_joined(lines.drop_last()) + seq!['\n'] + lines.last()
    }
}

/// Joins the emitted lines into the assembly text that is written out.
pub fn join_lines(lines: &Vec<String>) -> (r: String)
    ensures
        r@ == spec_joined(lines@.map_values(|s: String| s@)),
{
    let ghost views = lines@.map_values(|s: String| s@);
    let mut r = String::new();
    let n = lines.len();
    let mut i: usize = 0;
    proof {
        assert(views.take(0) =~= Seq::<Seq<char>>::empty());
    }
    while i < n
        invariant
            n == lines.len(),
            i <= n,
            views == lines@.map_values(|s: String| s@),
            r@ == spec_joined(views.take(i as int)),
        decreases n - i,
    {
        if i > 0 {
            r.append("\n");
            proof {
                reveal_strlit("\n");
            }
        }
        r.append(lines[i].as_str());
        proof {
            assert(views.take(i + 1).drop_last() =~= views.take(i as int));
            assert(views.take(i + 1).last() == views[i as int]);
        }
        i = i + 1;
    }
    proof {
        assert(views.take(n as int) =~= views);
    }
    r
}

/// Appending one instruction appends its lines.
proof fn lemma_emit_push(s: Seq<Instruction>, x: Instruction)
    ensures
        spec_emit_instructions(s.push(x)) == spec_emit_instructions(s) + spec_emit_instruction(x),
    decreases s.len(),
{
    reveal_with_fuel(spec_emit_instructions, 3);
    if s.len() == 0 {
        assert(s.push(x).drop_first() =~= Seq::<Instruction>::empty());
        assert(spec_emit_instructions(s.push(x)) =~= spec_emit_instruction(x));
        assert(spec_emit_instructions(s) + spec_emit_instruction(x) =~= spec_emit_instruction(x));
    } else {
        assert(s.push(x).drop_first() =~= s.drop_first().push(x));
        lemma_emit_push(s.drop_first(), x);
        assert(spec_emit_instructions(s.push(x)) =~= spec_emit_instructions(s)
            + spec_emit_instruction(x));
    }
}

/// Renders one operand.
pub fn emit_operand(node: Operand) -> (r: String)
    requires
        printable_operand(node),
    ensures
        r@ == spec_emit_operand(node),
{
    match node {
        Operand::Imm(val) => {
            let r = String::from_str("$").concat(u64_to_string(val as u64).as_str());
            proof {
                assert(r@ =~= spec_emit_operand(Operand::Imm(val)));
            }
            r
        },
        Operand::Register(Reg::AX) => String::from_str("%eax"),
        Operand::Register(Reg::DX) => String::from_str("%edx"),
        Operand::Register(Reg::R10D) => String::from_str("%r10d"),
        Operand::Register(Reg::R11D) => String::from_str("%r11d"),
        Operand::Stack(offset) => {
            let r = i64_to_string(offset as i64).concat("(%rbp)");
            proof {
                assert(r@ =~= spec_emit_operand(Operand::Stack(offset)));
            }
            r
        },
        Operand::PseudoRegister(_) => unreached(),
    }
}

/// Renders one unary-operator mnemonic.
pub fn emit_unary_operator(node: UnaryOperator) -> (r: String)
    ensures
        r@ == spec_emit_unary_operator(node),
{
    match node {
        UnaryOperator::Neg => String::from_str("negl"),
        UnaryOperator::Not => String::from_str("notl"),
    }
}

/// Renders one binary-operator mnemonic.
pub fn emit_binary_operator(node: BinaryOperator) -> (r: String)
    ensures
        r@ == spec_emit_binary_operator(node),
{
    match node {
        BinaryOperator::Add => String::from_str("addl"),
        BinaryOperator::Subtract => String::from_str("subl"),
        BinaryOperator::Multiply => String::from_str("imull"),
    }
}

/// Renders one instruction as its text lines.
pub fn emit_instruction(node: Instruction) -> (r: Vec<String>)
    requires
        printable_instruction(node),
    ensures
        r@.map_values(|s: String| s@) == spec_emit_instruction(node),
{
    let mut lines: Vec<String> = Vec::new();

    match node {
        Instruction::Mov { src, dst } => {
            let ghost node0 = Instruction::Mov { src, dst };
            let src_string = emit_operand(src);
            let dst_string = emit_operand(dst);
            let line = String::from_str("    movl ").concat(src_string.as_str()).concat(
                ", ",
            ).concat(dst_string.as_str());
            lines.push(line);
            proof {
                assert(lines@.map_values(|s: String| s@) =~= spec_emit_instruction(node0));
            }
        },
        Instruction::Ret => {
            lines.push(String::from_str("    movq %rbp, %rsp"));
            lines.push(String::from_str("    popq %rbp"));
            lines.push(String::from_str("    ret"));
            proof {
                assert(lines@.map_values(|s: String| s@) =~= spec_emit_instruction(
                    Instruction::Ret,
                ));
            }
        },
        Instruction::AllocateStack(offset) => {
            let line = String::from_str("    subq $").concat(
                u64_to_string(offset as u64).as_str(),
            ).concat(", %rsp");
            lines.push(line);
            proof {
                assert(lines@.map_values(|s: String| s@) =~= spec_emit_instruction(
                    Instruction::AllocateStack(offset),
                ));
            }
        },
        Instruction::Unary { op, dst } => {
            let ghost node0 = Instruction::Unary { op, dst };
            let op_string = emit_unary_operator(op);
            let dst_string = emit_operand(dst);
            let line = String::from_str("    ").concat(op_string.as_str()).concat(" ").concat(
                dst_string.as_str(),
            );
            lines.push(line);
            proof {
                assert(lines@.map_values(|s: String| s@) =~= spec_emit_instruction(node0));
            }
        },
        Instruction::Cdq => {
            lines.push(String::from_str("    cdq"));
            proof {
                assert(lines@.map_values(|s: String| s@) =~= spec_emit_instruction(
                    Instruction::Cdq,
                ));
            }
        },
        Instruction::Idiv(operand) => {
            let ghost node0 = Instruction::Idiv(operand);
            let operand = emit_operand(operand);
            let line = String::from_str("    idivl ").concat(operand.as_str());
            lines.push(line);
            proof {
                assert(lines@.map_values(|s: String| s@) =~= spec_emit_instruction(node0));
            }
        },
        Instruction::Binary { op, src, dst } => {
            let ghost node0 = Instruction::Binary { op, src, dst };
            let op = emit_binary_operator(op);
            let src = emit_operand(src);
            let dst = emit_operand(dst);
            let line = String::from_str("    ").concat(op.as_str()).concat(" ").concat(
                src.as_str(),
            ).concat(", ").concat(dst.as_str());
            lines.push(line);
            proof {
                assert(lines@.map_values(|s: String| s@) =~= spec_emit_instruction(node0));
            }
        },
    }

    lines
}

/// Renders a whole function: directive, label, prologue, then the body's
/// lines in order.
pub fn emit_function_definition(node: FunctionDefinition) -> (r: Vec<String>)
    requires
        match node {
            FunctionDefinition::Function { name, instructions } => all_printable(instructions@),
        },
    ensures
        r@.map_values(|s: String| s@) == spec_emit_function(node),
{
    match node {
        FunctionDefinition::Function { name, instructions } => {
            let ghost node0 = FunctionDefinition::Function { name, instructions };
            let ghost gname = name@;
            let mut lines: Vec<String> = Vec::new();
            lines.push(String::from_str("    .globl ").concat(name.as_str()));
            lines.push(name.concat(":"));
            lines.push(String::from_str("    pushq %rbp"));
            lines.push(String::from_str("    movq %rsp, %rbp"));
            let ghost header = lines@.map_values(|s: String| s@);
            proof {
                assert(header =~= seq![
                    "    .globl "@ + gname,
                    gname + ":"@,
                    "    pushq %rbp"@,
                    "    movq %rsp, %rbp"@,
                ]);
            }

            let n = instructions.len();
            let mut i: usize = 0;
            while i < n
                invariant
                    n == instructions.len(),
                    i <= n,
                    all_printable(instructions@),
                    lines@.map_values(|s: String| s@) == header + spec_emit_instructions(
                        instructions@.take(i as int),
                    ),
                decreases n - i,
            {
                let instruction = crate::parse::codegen::clone_instruction(&instructions[i]);
                let mut instruction_strings = emit_instruction(instruction);
                let ghost lines0 = lines@;
                let ghost part0 = instruction_strings@;
                lines.append(&mut instruction_strings);
                proof {
                    lemma_map_lines_add(lines0, part0);
                    assert(instructions@.take(i + 1) =~= instructions@.take(i as int).push(
                        instructions@[i as int],
                    ));
                    lemma_emit_push(instructions@.take(i as int), instructions@[i as int]);
                    assert(lines@.map_values(|s: String| s@) =~= header + spec_emit_instructions(
                        instructions@.take(i + 1),
                    ));
                }
                i = i + 1;
            }
            proof {
                assert(instructions@.take(n as int) =~= instructions@);
                assert(header + spec_emit_instructions(instructions@) =~= spec_emit_function(
                    node0,
                ));
            }
            lines
        },
    }
}

/// Renders a whole program: its single function.
pub fn emit_program_definition(node: ProgramDefinition) -> (r: Vec<String>)
    requires
        match node {
            ProgramDefinition::Program(FunctionDefinition::Function { name, instructions }) =>
                all_printable(instructions@),
        },
    ensures
        match node {
            ProgramDefinition::Program(f) => r@.map_values(|s: String| s@) == spec_emit_function(f),
        },
{
    match node {
        ProgramDefinition::Program(func_defn) => emit_function_definition(func_defn),
    }
}

} // verus!
