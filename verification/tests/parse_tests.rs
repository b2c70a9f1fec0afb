use std::collections::VecDeque;

use c_compiler::lex::Token;
use c_compiler::parse;
use c_compiler::parse::direct;
use c_compiler::parse::Expression;
use c_compiler::parse::FunctionDefinition;
use c_compiler::parse::ProgramDefinition;
use c_compiler::parse::Statement;
use c_compiler::parse::SyntaxError;
use c_compiler::parse::UnaryOperator;

#[test]
fn parse_parse_expression_containing_numeric_constant() {
    let value = 2;
    let mut tokens = VecDeque::from([Token::NumericConstant(value)]);
    let expected_ast_node = Expression::NumericConstant(value);
    let ast_node = parse::parse_expression(&mut tokens).unwrap();
    assert_eq!(0, tokens.len());
    assert_eq!(ast_node, expected_ast_node);
}

#[test]
fn parse_parse_expression_containing_bitwise_complement_operator() {
    let value = 2;
    let mut tokens = VecDeque::from([
        Token::BitwiseComplementOperator,
        Token::NumericConstant(value),
    ]);
    let boxed_expression_ast_node = Box::new(Expression::NumericConstant(value));
    let expected_ast_node =
        Expression::Unary(UnaryOperator::BitwiseComplement, boxed_expression_ast_node);
    let ast_node = parse::parse_expression(&mut tokens).unwrap();
    assert_eq!(0, tokens.len());
    assert_eq!(ast_node, expected_ast_node);
}

#[test]
fn parse_parse_expression_containing_negation_operator() {
    let value = 2;
    let mut tokens = VecDeque::from([Token::NegationOperator, Token::NumericConstant(value)]);
    let boxed_expression_ast_node = Box::new(Expression::NumericConstant(value));
    let expected_ast_node = Expression::Unary(UnaryOperator::Negation, boxed_expression_ast_node);
    let ast_node = parse::parse_expression(&mut tokens).unwrap();
    assert_eq!(0, tokens.len());
    assert_eq!(ast_node, expected_ast_node);
}

#[test]
fn parse_parse_expression_containing_expression_wrapped_in_parentheses() {
    let value = 2;
    let mut tokens = VecDeque::from([
        Token::OpenParenthesis,
        Token::NegationOperator,
        Token::NumericConstant(value),
        Token::CloseParenthesis,
    ]);
    let boxed_expression_ast_node = Box::new(Expression::NumericConstant(value));
    let expected_ast_node = Expression::Unary(UnaryOperator::Negation, boxed_expression_ast_node);
    let ast_node = parse::parse_expression(&mut tokens).unwrap();
    assert_eq!(0, tokens.len());
    assert_eq!(ast_node, expected_ast_node);
}

#[test]
fn parse_expression_without_close_parenthesis_is_a_syntax_error() {
    let value = 2;
    let mut tokens = VecDeque::from([
        Token::OpenParenthesis,
        Token::NegationOperator,
        Token::NumericConstant(value),
        Token::CloseBrace,
    ]);
    let r = parse::parse_expression(&mut tokens);
    assert_eq!(r, Err(SyntaxError::ExpectedCloseParenthesis));
}

#[test]
fn parse_parse_statement_with_return_identifier_and_numeric_expression() {
    let value = 2;
    let mut tokens = VecDeque::from([
        Token::ReturnKeyword,
        Token::NumericConstant(value),
        Token::Semicolon,
    ]);
    let expected_ast_node = Statement::Return(Expression::NumericConstant(value));
    let ast_node = parse::parse_statement(&mut tokens).unwrap();
    assert_eq!(0, tokens.len());
    assert_eq!(ast_node, expected_ast_node);
}

#[test]
fn parse_parse_function_defn_with_int_return_and_statement_as_body() {
    let value = 2;
    let identifier = "main";
    let mut tokens = VecDeque::from([
        Token::IntKeyword,
        Token::Identifier(identifier.to_string()),
        Token::OpenParenthesis,
        Token::CloseParenthesis,
        Token::OpenBrace,
        Token::ReturnKeyword,
        Token::NumericConstant(value),
        Token::Semicolon,
        Token::CloseBrace,
    ]);
    let expression_ast_node = Expression::NumericConstant(value);
    let statement_ast_node = Statement::Return(expression_ast_node);
    let expected_ast_node = FunctionDefinition::Function {
        name: identifier.to_string(),
        body: statement_ast_node,
    };
    let ast_node = parse::parse_function_definition(&mut tokens).unwrap();
    assert_eq!(0, tokens.len());
    assert_eq!(ast_node, expected_ast_node);
}

#[test]
fn parse_parse_program_defn_consisting_of_single_function_defn() {
    let value = 2;
    let identifier = "main";
    let mut tokens = VecDeque::from([
        Token::IntKeyword,
        Token::Identifier(identifier.to_string()),
        Token::OpenParenthesis,
        Token::CloseParenthesis,
        Token::OpenBrace,
        Token::ReturnKeyword,
        Token::NumericConstant(value),
        Token::Semicolon,
        Token::CloseBrace,
    ]);
    let expression_ast_node = Expression::NumericConstant(value);
    let statement_ast_node = Statement::Return(expression_ast_node);
    let function_defn_ast_node = FunctionDefinition::Function {
        name: identifier.to_string(),
        body: statement_ast_node,
    };
    let expected_ast_node = ProgramDefinition::Program(function_defn_ast_node);
    let ast_node = parse::parse_program_definition(&mut tokens).unwrap();
    assert_eq!(0, tokens.len());
    assert_eq!(ast_node, expected_ast_node);
}

#[test]
fn parse_parse_bitwise_complement_operator() {
    let mut tokens = VecDeque::from([Token::BitwiseComplementOperator]);
    let expected_ast_node = UnaryOperator::BitwiseComplement;
    let ast_node = parse::parse_unary_operator(&mut tokens).unwrap();
    assert_eq!(0, tokens.len());
    assert_eq!(expected_ast_node, ast_node);
}

#[test]
fn parse_parse_negation_operator() {
    let mut tokens = VecDeque::from([Token::NegationOperator]);
    let expected_ast_node = UnaryOperator::Negation;
    let ast_node = parse::parse_unary_operator(&mut tokens).unwrap();
    assert_eq!(0, tokens.len());
    assert_eq!(expected_ast_node, ast_node);
}

#[test]
fn parse_c_constant_to_asm_immediate() {
    let value = 2;
    let c_ast_node = Expression::NumericConstant(value);
    let expected_asm_ast_node = direct::Operand::Imm(value);
    let asm_ast_node = direct::parse_operand(c_ast_node);
    assert_eq!(asm_ast_node, expected_asm_ast_node);
}

#[test]
fn parse_c_return_to_asm_instructions() {
    let value = 2;
    let c_constant_ast_node = Expression::NumericConstant(value);
    let c_return_ast_node = Statement::Return(c_constant_ast_node);
    let expected_asm_ast_instruction_nodes = vec![direct::Instruction::Mov {
        src: direct::Operand::Imm(value),
        dst: direct::Operand::Register,
    }];
    let asm_ast_instruction_nodes = direct::parse_instructions(c_return_ast_node);
    assert_eq!(asm_ast_instruction_nodes, expected_asm_ast_instruction_nodes);
}

#[test]
fn parse_c_function_defn_to_asm_function_defn() {
    let value = 2;
    let identifier = "main";
    let c_constant_ast_node = Expression::NumericConstant(value);
    let c_return_ast_node = Statement::Return(c_constant_ast_node);
    let c_function_defn_ast_node = FunctionDefinition::Function {
        name: identifier.to_string(),
        body: c_return_ast_node,
    };
    let expected_asm_instructions = vec![direct::Instruction::Mov {
        src: direct::Operand::Imm(value),
        dst: direct::Operand::Register,
    }];
    let expected_asm_ast_node = direct::FunctionDefinition::Function {
        name: identifier.to_string(),
        instructions: expected_asm_instructions,
    };
    let asm_ast_node = direct::parse_function_definition(c_function_defn_ast_node);
    assert_eq!(asm_ast_node, expected_asm_ast_node);
}

#[test]
fn parse_c_program_definition_to_asm_program_defn() {
    let value = 2;
    let identifier = "main";
    let c_constant_ast_node = Expression::NumericConstant(value);
    let c_return_ast_node = Statement::Return(c_constant_ast_node);
    let c_function_defn_ast_node = FunctionDefinition::Function {
        name: identifier.to_string(),
        body: c_return_ast_node,
    };
    let c_program_defn_ast_node = ProgramDefinition::Program(c_function_defn_ast_node);
    let asm_instructions = vec![direct::Instruction::Mov {
        src: direct::Operand::Imm(value),
        dst: direct::Operand::Register,
    }];
    let asm_function_defn_ast_node = direct::FunctionDefinition::Function {
        name: identifier.to_string(),
        instructions: asm_instructions,
    };
    let expected_asm_ast_node = direct::ProgramDefinition::Program(asm_function_defn_ast_node);
    let asm_ast_node = direct::parse_program_definition(c_program_defn_ast_node);
    assert_eq!(asm_ast_node, expected_asm_ast_node);
}

#[test]
fn parse_statement_without_return_keyword_is_a_syntax_error() {
    let mut tokens = VecDeque::from([Token::Semicolon]);
    let r = parse::parse_statement(&mut tokens);
    assert_eq!(r, Err(SyntaxError::UnexpectedToken));
}

#[test]
fn parse_expression_from_empty_queue_is_a_syntax_error() {
    let mut tokens: VecDeque<Token> = VecDeque::new();
    let r = parse::parse_expression(&mut tokens);
    assert_eq!(r, Err(SyntaxError::UnexpectedEndOfInput));
}
