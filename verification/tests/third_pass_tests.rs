use c_compiler::parse::codegen::third_pass::parse_function_definition;
use c_compiler::parse::codegen::third_pass::parse_instructions;
use c_compiler::parse::codegen::third_pass::parse_program_definition;
use c_compiler::parse::codegen::BinaryOperator;
use c_compiler::parse::codegen::FunctionDefinition;
use c_compiler::parse::codegen::Instruction;
use c_compiler::parse::codegen::Operand;
use c_compiler::parse::codegen::ProgramDefinition;
use c_compiler::parse::codegen::Reg;
use c_compiler::parse::codegen::UnaryOperator;
use c_compiler::parse::codegen::TMP_VAR_BYTE_LEN;

#[test]
fn insert_stack_frame_allocate_instruction_at_start_of_function_defn_instructions() {
    let value = 2;
    let function_name_identifier = "main";
    let stack_offset = -(TMP_VAR_BYTE_LEN as i8);

    let asm_instructions_same_stack_addr_dst = Operand::Stack(stack_offset);
    let asm_instruction_ast_nodes = vec![
        Instruction::Mov {
            src: Operand::Imm(value),
            dst: asm_instructions_same_stack_addr_dst.clone(),
        },
        Instruction::Unary {
            op: UnaryOperator::Neg,
            dst: asm_instructions_same_stack_addr_dst,
        },
    ];
    let input_asm_function_defn_ast_node = FunctionDefinition::Function {
        name: function_name_identifier.to_string(),
        instructions: asm_instruction_ast_nodes,
    };

    let expected_asm_instructions_same_stack_addr_dst = Operand::Stack(stack_offset);
    let expected_asm_instruction_ast_nodes = vec![
        Instruction::AllocateStack(-(stack_offset) as u8),
        Instruction::Mov {
            src: Operand::Imm(value),
            dst: expected_asm_instructions_same_stack_addr_dst.clone(),
        },
        Instruction::Unary {
            op: UnaryOperator::Neg,
            dst: expected_asm_instructions_same_stack_addr_dst,
        },
    ];
    let expected_output_asm_function_defn_ast_node = FunctionDefinition::Function {
        name: function_name_identifier.to_string(),
        instructions: expected_asm_instruction_ast_nodes,
    };
    let output_asm_function_defn_ast_nodes =
        parse_function_definition(input_asm_function_defn_ast_node, stack_offset);

    assert_eq!(
        expected_output_asm_function_defn_ast_node,
        output_asm_function_defn_ast_nodes
    );
}

#[test]
fn convert_mov_instructions_with_src_dst_stack_addrs_to_two_mov_instructions() {
    let value = 2;
    let input_asm_instruction_ast_nodes = vec![
        Instruction::Mov {
            src: Operand::Imm(value),
            dst: Operand::Stack(-4),
        },
        Instruction::Unary {
            op: UnaryOperator::Not,
            dst: Operand::Stack(-4),
        },
        Instruction::Mov {
            src: Operand::Stack(-4),
            dst: Operand::Stack(-8),
        },
        Instruction::Unary {
            op: UnaryOperator::Neg,
            dst: Operand::Stack(-8),
        },
        Instruction::Mov {
            src: Operand::Stack(-8),
            dst: Operand::Register(Reg::AX),
        },
        Instruction::Ret,
    ];

    let expected_asm_instruction_ast_nodes = vec![
        Instruction::Mov {
            src: Operand::Imm(value),
            dst: Operand::Stack(-4),
        },
        Instruction::Unary {
            op: UnaryOperator::Not,
            dst: Operand::Stack(-4),
        },
        Instruction::Mov {
            src: Operand::Stack(-4),
            dst: Operand::Register(Reg::R10D),
        },
        Instruction::Mov {
            src: Operand::Register(Reg::R10D),
            dst: Operand::Stack(-8),
        },
        Instruction::Unary {
            op: UnaryOperator::Neg,
            dst: Operand::Stack(-8),
        },
        Instruction::Mov {
            src: Operand::Stack(-8),
            dst: Operand::Register(Reg::AX),
        },
        Instruction::Ret,
    ];

    let output_asm_ast_instruction_ast_nodes = parse_instructions(input_asm_instruction_ast_nodes);
    assert_eq!(
        expected_asm_instruction_ast_nodes,
        output_asm_ast_instruction_ast_nodes
    );
}

#[test]
fn rewrite_division_instruction_with_immediate_operand_to_move_to_scratch_register() {
    let divisor = 2;
    let input_asm_instruction_ast_nodes = vec![Instruction::Idiv(Operand::Imm(divisor))];
    let expected_asm_instruction_ast_nodes = vec![
        Instruction::Mov {
            src: Operand::Imm(divisor),
            dst: Operand::Register(Reg::R10D),
        },
        Instruction::Idiv(Operand::Register(Reg::R10D)),
    ];
    let output_asm_ast_instruction_ast_nodes = parse_instructions(input_asm_instruction_ast_nodes);
    assert_eq!(
        expected_asm_instruction_ast_nodes,
        output_asm_ast_instruction_ast_nodes
    );
}

#[test]
fn rewrite_addition_instruction_with_both_operands_memory_addresses_to_move_to_scratch_register() {
    let first_operand_offset = -4;
    let second_operand_offset = -8;
    let input_asm_instruction_ast_nodes = vec![Instruction::Binary {
        op: BinaryOperator::Add,
        src: Operand::Stack(first_operand_offset),
        dst: Operand::Stack(second_operand_offset),
    }];
    let expected_asm_instruction_ast_nodes = vec![
        Instruction::Mov {
            src: Operand::Stack(first_operand_offset),
            dst: Operand::Register(Reg::R10D),
        },
        Instruction::Binary {
            op: BinaryOperator::Add,
            src: Operand::Register(Reg::R10D),
            dst: Operand::Stack(second_operand_offset),
        },
    ];
    let output_asm_ast_instruction_ast_nodes = parse_instructions(input_asm_instruction_ast_nodes);
    assert_eq!(
        expected_asm_instruction_ast_nodes,
        output_asm_ast_instruction_ast_nodes
    );
}

#[test]
fn rewrite_subtraction_instruction_with_both_operands_memory_addresses_to_move_to_scratch_register()
{
    let first_operand_offset = -4;
    let second_operand_offset = -8;
    let input_asm_instruction_ast_nodes = vec![Instruction::Binary {
        op: BinaryOperator::Subtract,
        src: Operand::Stack(first_operand_offset),
        dst: Operand::Stack(second_operand_offset),
    }];
    let expected_asm_instruction_ast_nodes = vec![
        Instruction::Mov {
            src: Operand::Stack(first_operand_offset),
            dst: Operand::Register(Reg::R10D),
        },
        Instruction::Binary {
            op: BinaryOperator::Subtract,
            src: Operand::Register(Reg::R10D),
            dst: Operand::Stack(second_operand_offset),
        },
    ];
    let output_asm_ast_instruction_ast_nodes = parse_instructions(input_asm_instruction_ast_nodes);
    assert_eq!(
        expected_asm_instruction_ast_nodes,
        output_asm_ast_instruction_ast_nodes
    );
}

#[test]
fn rewrite_multiplication_instruction_with_dst_memory_address_to_move_to_scratch_register() {
    let first_operand = 3;
    let dst_memory_addr_offset = -4;
    let input_asm_instruction_ast_nodes = vec![Instruction::Binary {
        op: BinaryOperator::Multiply,
        src: Operand::Imm(first_operand),
        dst: Operand::Stack(dst_memory_addr_offset),
    }];
    let expected_asm_instruction_ast_nodes = vec![
        Instruction::Mov {
            src: Operand::Stack(dst_memory_addr_offset),
            dst: Operand::Register(Reg::R11D),
        },
        Instruction::Binary {
            op: BinaryOperator::Multiply,
            src: Operand::Imm(first_operand),
            dst: Operand::Register(Reg::R11D),
        },
        Instruction::Mov {
            src: Operand::Register(Reg::R11D),
            dst: Operand::Stack(dst_memory_addr_offset),
        },
    ];
    let output_asm_ast_instruction_ast_nodes = parse_instructions(input_asm_instruction_ast_nodes);
    assert_eq!(
        expected_asm_instruction_ast_nodes,
        output_asm_ast_instruction_ast_nodes
    );
}

#[test]
fn legal_instructions_pass_through_verbatim() {
    let input = vec![
        Instruction::Mov {
            src: Operand::Imm(1),
            dst: Operand::Stack(-4),
        },
        Instruction::Binary {
            op: BinaryOperator::Add,
            src: Operand::Imm(2),
            dst: Operand::Stack(-4),
        },
        Instruction::Idiv(Operand::Stack(-4)),
        Instruction::Cdq,
        Instruction::Ret,
    ];
    let output = parse_instructions(input.clone());
    assert_eq!(input, output);
}

#[test]
fn program_defn_gets_frame_allocation_for_whole_frame() {
    let node = ProgramDefinition::Program(FunctionDefinition::Function {
        name: "main".to_string(),
        instructions: vec![Instruction::Ret],
    });
    let out = parse_program_definition(node, -8);
    let expected = ProgramDefinition::Program(FunctionDefinition::Function {
        name: "main".to_string(),
        instructions: vec![Instruction::AllocateStack(8), Instruction::Ret],
    });
    assert_eq!(out, expected);
}
