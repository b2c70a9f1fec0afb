use c_compiler::parse::codegen::second_pass::parse_function_definition;
use c_compiler::parse::codegen::second_pass::parse_instructions;
use c_compiler::parse::codegen::second_pass::parse_operand;
use c_compiler::parse::codegen::second_pass::parse_program_definition;
use c_compiler::parse::codegen::second_pass::AllocationMap;
use c_compiler::parse::codegen::BinaryOperator;
use c_compiler::parse::codegen::FunctionDefinition;
use c_compiler::parse::codegen::Instruction;
use c_compiler::parse::codegen::Operand;
use c_compiler::parse::codegen::ProgramDefinition;
use c_compiler::parse::codegen::UnaryOperator;
use c_compiler::parse::codegen::TMP_VAR_BYTE_LEN;

#[test]
fn convert_pseudo_register_to_stack_address_and_update_hash_table_and_offset() {
    let mut offset = 0;
    let mut map = AllocationMap::new();
    let identifier = "tmp0";
    let input_asm_ast_node = Operand::PseudoRegister(identifier.to_string());
    let expected_output_asm_ast_node = Operand::Stack(-(TMP_VAR_BYTE_LEN as i8));
    let transformed_asm_ast_node = parse_operand(input_asm_ast_node, &mut map, &mut offset);
    assert_eq!(-(TMP_VAR_BYTE_LEN as i8), offset);
    assert_eq!(
        true,
        map.get(&identifier.to_string())
            .is_some_and(|val| val == -(TMP_VAR_BYTE_LEN as i8))
    );
    assert_eq!(expected_output_asm_ast_node, transformed_asm_ast_node);
}

#[test]
fn non_pseudo_register_operand_is_left_unchanged() {
    let mut offset = 0;
    let mut map = AllocationMap::new();
    let value = 2;
    let input_asm_ast_node = Operand::Imm(value);
    let output_asm_ast_node = parse_operand(input_asm_ast_node.clone(), &mut map, &mut offset);
    assert_eq!(0, offset);
    assert_eq!(0, map.len());
    assert_eq!(input_asm_ast_node, output_asm_ast_node);
}

#[test]
fn pseudo_registers_with_same_identifier_get_same_stack_address() {
    let value = 2;
    let tmp_var_identifier = "tmp0";
    let asm_instructions_same_dst = Operand::PseudoRegister(tmp_var_identifier.to_string());
    let input_asm_instruction_ast_nodes = vec![
        Instruction::Mov {
            src: Operand::Imm(value),
            dst: asm_instructions_same_dst.clone(),
        },
        Instruction::Unary {
            op: UnaryOperator::Neg,
            dst: asm_instructions_same_dst,
        },
    ];
    let expected_asm_instructions_same_stack_addr_dst = Operand::Stack(-(TMP_VAR_BYTE_LEN as i8));
    let expected_asm_instruction_ast_nodes = vec![
        Instruction::Mov {
            src: Operand::Imm(value),
            dst: expected_asm_instructions_same_stack_addr_dst.clone(),
        },
        Instruction::Unary {
            op: UnaryOperator::Neg,
            dst: expected_asm_instructions_same_stack_addr_dst,
        },
    ];
    let mut stack_offset = 0;
    let output_asm_instruction_ast_nodes =
        parse_instructions(input_asm_instruction_ast_nodes, &mut stack_offset);
    assert_eq!(
        expected_asm_instruction_ast_nodes,
        output_asm_instruction_ast_nodes
    );
}

#[test]
fn pseudo_register_in_addition_binary_operator_instruction_transformed_to_stack_address() {
    // The move instruction isn't strictly needed for the purpose of this test. However, the
    // move instruction is the only part that refers to the left operand of the binary
    // operator. Omitting the move instruction would imply that the left operand is omitted as
    // well, but it looks confusing to have a test involving a binary operator application that
    // omits the left operand. So, the move instruction has been left in for the moment.
    let left = 1;
    let right = 2;
    let tmp_var_identifier = "tmp0";
    let input_asm_instruction_ast_nodes = vec![
        Instruction::Mov {
            src: Operand::Imm(left),
            dst: Operand::PseudoRegister(tmp_var_identifier.to_string()),
        },
        Instruction::Binary {
            op: BinaryOperator::Add,
            src: Operand::Imm(right),
            dst: Operand::PseudoRegister(tmp_var_identifier.to_string()),
        },
    ];
    let expected_asm_instructions_same_stack_addr_dst = Operand::Stack(-(TMP_VAR_BYTE_LEN as i8));
    let expected_asm_instruction_ast_nodes = vec![
        Instruction::Mov {
            src: Operand::Imm(left),
            dst: expected_asm_instructions_same_stack_addr_dst.clone(),
        },
        Instruction::Binary {
            op: BinaryOperator::Add,
            src: Operand::Imm(right),
            dst: expected_asm_instructions_same_stack_addr_dst,
        },
    ];
    let mut stack_offset = 0;
    let output_asm_instruction_ast_nodes =
        parse_instructions(input_asm_instruction_ast_nodes, &mut stack_offset);
    assert_eq!(
        expected_asm_instruction_ast_nodes,
        output_asm_instruction_ast_nodes
    );
}

#[test]
fn pseudo_register_in_division_instruction_transformed_to_stack_address() {
    let input_asm_instruction_ast_nodes =
        vec![Instruction::Idiv(Operand::PseudoRegister("tmp0".to_string()))];
    let expected_asm_instruction_ast_nodes =
        vec![Instruction::Idiv(Operand::Stack(-(TMP_VAR_BYTE_LEN as i8)))];
    let mut stack_offset = 0;
    let output_asm_instruction_ast_nodes =
        parse_instructions(input_asm_instruction_ast_nodes, &mut stack_offset);
    assert_eq!(
        expected_asm_instruction_ast_nodes,
        output_asm_instruction_ast_nodes
    );
}

#[test]
fn dont_transform_return_instruction() {
    let mut stack_offset = -4;
    let input_asm_instruction_ast_nodes = vec![Instruction::Ret];
    let output_asm_instruction_ast_nodes =
        parse_instructions(input_asm_instruction_ast_nodes, &mut stack_offset);
    assert_eq!(vec![Instruction::Ret], output_asm_instruction_ast_nodes);
}

#[test]
fn dont_transform_sign_extension_instruction() {
    let mut stack_offset = -4;
    let input_asm_instruction_ast_nodes = vec![Instruction::Cdq];
    let output_asm_instruction_ast_nodes =
        parse_instructions(input_asm_instruction_ast_nodes, &mut stack_offset);
    assert_eq!(vec![Instruction::Cdq], output_asm_instruction_ast_nodes);
}

#[test]
fn function_defn_name_left_unchanged() {
    let value = 2;
    let tmp_var_identifier = "tmp0";
    let function_name_identifier = "main";

    let asm_instructions_same_dst = Operand::PseudoRegister(tmp_var_identifier.to_string());
    let asm_instruction_ast_nodes = vec![
        Instruction::Mov {
            src: Operand::Imm(value),
            dst: asm_instructions_same_dst.clone(),
        },
        Instruction::Unary {
            op: UnaryOperator::Neg,
            dst: asm_instructions_same_dst,
        },
    ];
    let input_function_defn_asm_ast_node = FunctionDefinition::Function {
        name: function_name_identifier.to_string(),
        instructions: asm_instruction_ast_nodes,
    };

    let expected_asm_instructions_same_stack_addr_dst = Operand::Stack(-(TMP_VAR_BYTE_LEN as i8));
    let expected_asm_instruction_ast_nodes = vec![
        Instruction::Mov {
            src: Operand::Imm(value),
            dst: expected_asm_instructions_same_stack_addr_dst.clone(),
        },
        Instruction::Unary {
            op: UnaryOperator::Neg,
            dst: expected_asm_instructions_same_stack_addr_dst,
        },
    ];
    let expected_output_function_defn_asm_ast_node = FunctionDefinition::Function {
        name: function_name_identifier.to_string(),
        instructions: expected_asm_instruction_ast_nodes,
    };

    let mut stack_offset = 0;
    let output_function_defn_asm_ast_node =
        parse_function_definition(input_function_defn_asm_ast_node, &mut stack_offset);
    assert_eq!(
        expected_output_function_defn_asm_ast_node,
        output_function_defn_asm_ast_node
    );
}

#[test]
fn program_parsing_returns_final_stack_offset_and_correct_program_defn() {
    let value = 2;
    let tmp_var_identifier = "tmp0";
    let function_name_identifier = "main";

    let asm_instructions_same_dst = Operand::PseudoRegister(tmp_var_identifier.to_string());
    let asm_instruction_ast_nodes = vec![
        Instruction::Mov {
            src: Operand::Imm(value),
            dst: asm_instructions_same_dst.clone(),
        },
        Instruction::Unary {
            op: UnaryOperator::Neg,
            dst: asm_instructions_same_dst,
        },
    ];
    let function_defn_asm_ast_node = FunctionDefinition::Function {
        name: function_name_identifier.to_string(),
        instructions: asm_instruction_ast_nodes,
    };
    let input_program_defn_ast_node = ProgramDefinition::Program(function_defn_asm_ast_node);

    let expected_asm_instructions_same_stack_addr_dst = Operand::Stack(-(TMP_VAR_BYTE_LEN as i8));
    let expected_asm_instruction_ast_nodes = vec![
        Instruction::Mov {
            src: Operand::Imm(value),
            dst: expected_asm_instructions_same_stack_addr_dst.clone(),
        },
        Instruction::Unary {
            op: UnaryOperator::Neg,
            dst: expected_asm_instructions_same_stack_addr_dst,
        },
    ];
    let output_function_defn_asm_ast_node = FunctionDefinition::Function {
        name: function_name_identifier.to_string(),
        instructions: expected_asm_instruction_ast_nodes,
    };
    let expected_program_defn_asm_ast_node =
        ProgramDefinition::Program(output_function_defn_asm_ast_node);
    let expected_stack_offset = -(TMP_VAR_BYTE_LEN as i8);

    let (output_program_defn_ast_node, output_stack_offset) =
        parse_program_definition(input_program_defn_ast_node);
    assert_eq!(
        expected_program_defn_asm_ast_node,
        output_program_defn_ast_node
    );
    assert_eq!(expected_stack_offset, output_stack_offset);
}

#[test]
fn distinct_identifiers_get_distinct_decreasing_offsets() {
    let mut offset = 0;
    let mut map = AllocationMap::new();
    let first = parse_operand(
        Operand::PseudoRegister("tmp0".to_string()),
        &mut map,
        &mut offset,
    );
    let second = parse_operand(
        Operand::PseudoRegister("tmp1".to_string()),
        &mut map,
        &mut offset,
    );
    assert_eq!(first, Operand::Stack(-4));
    assert_eq!(second, Operand::Stack(-8));
    assert_eq!(offset, -8);
    assert_eq!(map.len(), 2);
}

#[test]
fn allocating_the_same_identifier_twice_yields_the_same_offset() {
    let mut offset = 0;
    let mut map = AllocationMap::new();
    let first = parse_operand(
        Operand::PseudoRegister("tmp0".to_string()),
        &mut map,
        &mut offset,
    );
    let second = parse_operand(
        Operand::PseudoRegister("tmp0".to_string()),
        &mut map,
        &mut offset,
    );
    assert_eq!(first, Operand::Stack(-4));
    assert_eq!(second, Operand::Stack(-4));
    assert_eq!(offset, -4);
    assert_eq!(map.len(), 1);
}

#[test]
fn frame_size_is_slot_size_times_distinct_temporaries() {
    // Three distinct temporaries, some used twice: the final offset is
    // three slots down.
    let nodes = vec![
        Instruction::Mov {
            src: Operand::Imm(1),
            dst: Operand::PseudoRegister("tmp0".to_string()),
        },
        Instruction::Mov {
            src: Operand::PseudoRegister("tmp0".to_string()),
            dst: Operand::PseudoRegister("tmp1".to_string()),
        },
        Instruction::Mov {
            src: Operand::PseudoRegister("tmp1".to_string()),
            dst: Operand::PseudoRegister("tmp2".to_string()),
        },
    ];
    let mut stack_offset = 0;
    let _ = parse_instructions(nodes, &mut stack_offset);
    assert_eq!(stack_offset, -(3 * TMP_VAR_BYTE_LEN as i8));
}
