use std::collections::VecDeque;

use c_compiler::emit::emit_program_definition;
use c_compiler::lex::lex;
use c_compiler::parse::c;
use c_compiler::parse::codegen;
use c_compiler::parse::codegen::Instruction;
use c_compiler::parse::codegen::Operand;
use c_compiler::parse::codegen::Reg;
use c_compiler::parse::ir;

fn compile_lines(source: &str) -> Vec<String> {
    let tokens = lex(source).unwrap();
    let mut queue = VecDeque::from(tokens);
    let c_ast = c::parse_program_definition(&mut queue).unwrap();
    let ir_ast = ir::parse_program_definition(c_ast);
    let asm_ast = codegen::parse_program_definition(ir_ast);
    emit_program_definition(asm_ast)
}

#[test]
fn unary_chain_compiles_to_split_stack_moves() {
    // Source `-(~2)`: two temporaries, and the move between their stack
    // slots is split through the scratch register.
    let lines = compile_lines("int main() {return -(~2);}");
    let expected = vec![
        "    .globl main",
        "main:",
        "    pushq %rbp",
        "    movq %rsp, %rbp",
        "    subq $8, %rsp",
        "    movl $2, -4(%rbp)",
        "    notl -4(%rbp)",
        "    movl -4(%rbp), %r10d",
        "    movl %r10d, -8(%rbp)",
        "    negl -8(%rbp)",
        "    movl -8(%rbp), %eax",
        "    movq %rbp, %rsp",
        "    popq %rbp",
        "    ret",
    ];
    assert_eq!(lines, expected);
}

#[test]
fn addition_needs_no_rewrite() {
    // Source `1+2`: the selected instructions stay legal after
    // allocation, so the legalizer only prepends the frame allocation.
    let lines = compile_lines("int main() {return 1+2;}");
    let expected = vec![
        "    .globl main",
        "main:",
        "    pushq %rbp",
        "    movq %rsp, %rbp",
        "    subq $4, %rsp",
        "    movl $1, -4(%rbp)",
        "    addl $2, -4(%rbp)",
        "    movl -4(%rbp), %eax",
        "    movq %rbp, %rsp",
        "    popq %rbp",
        "    ret",
    ];
    assert_eq!(lines, expected);
}

#[test]
fn division_legalizes_the_immediate_divisor() {
    // Source `9/2`: `idivl` cannot take an immediate, so the divisor
    // moves through the scratch register first.
    let lines = compile_lines("int main() {return 9/2;}");
    let expected = vec![
        "    .globl main",
        "main:",
        "    pushq %rbp",
        "    movq %rsp, %rbp",
        "    subq $4, %rsp",
        "    movl $9, %eax",
        "    cdq",
        "    movl $2, %r10d",
        "    idivl %r10d",
        "    movl %eax, -4(%rbp)",
        "    movl -4(%rbp), %eax",
        "    movq %rbp, %rsp",
        "    popq %rbp",
        "    ret",
    ];
    assert_eq!(lines, expected);
}

#[test]
fn stack_to_stack_move_is_split_through_a_register() {
    // Two sequential unary operations on different temporaries force a
    // stack-to-stack move at allocation time.
    let ir_ast = ir::ProgramDefinition::Program(ir::FunctionDefinition::Function {
        identifier: "main".to_string(),
        body: vec![
            ir::Instruction::Unary {
                op: ir::UnaryOperator::BitwiseComplement,
                src: ir::Value::Constant(2),
                dst: ir::Value::Var("tmp0".to_string()),
            },
            ir::Instruction::Unary {
                op: ir::UnaryOperator::Negation,
                src: ir::Value::Var("tmp0".to_string()),
                dst: ir::Value::Var("tmp1".to_string()),
            },
            ir::Instruction::Return(ir::Value::Var("tmp1".to_string())),
        ],
    });
    let asm_ast = codegen::parse_program_definition(ir_ast);
    let codegen::ProgramDefinition::Program(codegen::FunctionDefinition::Function {
        name: _,
        instructions,
    }) = asm_ast;
    assert_eq!(
        instructions[3],
        Instruction::Mov {
            src: Operand::Stack(-4),
            dst: Operand::Register(Reg::R10D),
        }
    );
    assert_eq!(
        instructions[4],
        Instruction::Mov {
            src: Operand::Register(Reg::R10D),
            dst: Operand::Stack(-8),
        }
    );
}

#[test]
fn no_pseudo_register_survives_the_allocator() {
    let lines_input = "int main() {return (1+2)*(3-4)/2;}";
    let tokens = lex(lines_input).unwrap();
    let mut queue = VecDeque::from(tokens);
    let c_ast = c::parse_program_definition(&mut queue).unwrap();
    let ir_ast = ir::parse_program_definition(c_ast);
    let asm_ast = codegen::parse_program_definition(ir_ast);
    let codegen::ProgramDefinition::Program(codegen::FunctionDefinition::Function {
        name: _,
        instructions,
    }) = asm_ast;
    for instruction in &instructions {
        let operands: Vec<&Operand> = match instruction {
            Instruction::Mov { src, dst } => vec![src, dst],
            Instruction::Unary { dst, .. } => vec![dst],
            Instruction::Binary { src, dst, .. } => vec![src, dst],
            Instruction::Idiv(o) => vec![o],
            _ => vec![],
        };
        for o in operands {
            assert!(!matches!(o, Operand::PseudoRegister(_)));
        }
    }
}

#[test]
fn frame_allocation_counts_one_slot_per_distinct_temporary() {
    // `(1+2)*(3-4)` uses three temporaries: twelve bytes of frame.
    let lines = compile_lines("int main() {return (1+2)*(3-4);}");
    assert_eq!(lines[4], "    subq $12, %rsp");
}

#[test]
fn legalized_output_has_no_illegal_addressing_modes() {
    let tokens = lex("int main() {return (1+2)*(3-4)/2+200;}").unwrap();
    let mut queue = VecDeque::from(tokens);
    let c_ast = c::parse_program_definition(&mut queue).unwrap();
    let ir_ast = ir::parse_program_definition(c_ast);
    let asm_ast = codegen::parse_program_definition(ir_ast);
    let codegen::ProgramDefinition::Program(codegen::FunctionDefinition::Function {
        name: _,
        instructions,
    }) = asm_ast;
    for instruction in &instructions {
        match instruction {
            Instruction::Mov {
                src: Operand::Stack(_),
                dst: Operand::Stack(_),
            } => panic!("memory-to-memory move"),
            Instruction::Idiv(Operand::Imm(_)) => panic!("immediate divisor"),
            Instruction::Binary {
                op: codegen::BinaryOperator::Multiply,
                dst: Operand::Stack(_),
                ..
            } => panic!("multiply into a stack slot"),
            _ => {}
        }
    }
}

#[test]
fn assembly_text_is_lines_joined_with_newlines() {
    let lines = compile_lines("int main() {return 2;}");
    let text = c_compiler::emit::join_lines(&lines);
    assert_eq!(
        text,
        "    .globl main\nmain:\n    pushq %rbp\n    movq %rsp, %rbp\n    subq $0, %rsp\n    movl $2, %eax\n    movq %rbp, %rsp\n    popq %rbp\n    ret"
    );
}
