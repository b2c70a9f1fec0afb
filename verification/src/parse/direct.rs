//! The earliest lowering: a constant-only `return` statement straight to
//! a move into the return register, with no intermediate representation.

use vstd::prelude::*;

use crate::parse::Identifier;

verus! {

#[derive(Debug, PartialEq)]
pub enum Operand {
    Imm(u8),
    /// Only one register is ever needed as an instruction operand here,
    /// so this variant always means the `EAX` register.
    Register,
}

#[derive(Debug, PartialEq)]
pub enum Instruction {
    Mov { src: Operand, dst: Operand },
    Ret,
}

#[derive(Debug, PartialEq)]
pub enum FunctionDefinition {
    Function { name: Identifier, instructions: Vec<Instruction> },
}

#[derive(Debug, PartialEq)]
pub enum ProgramDefinition {
    Program(FunctionDefinition),
}

/// The expression shapes this lowering supports: numeric constants only.
pub open spec fn lowerable_expression(e: crate::parse::Expression) -> bool {
    e is NumericConstant
}

pub open spec fn lowerable_statement(s: crate::parse::Statement) -> bool {
    match s {
        crate::parse::Statement::Return(e) => lowerable_expression(e),
    }
}

pub open spec fn spec_operand(e: crate::parse::Expression) -> Operand
    recommends
        lowerable_expression(e),
{
    match e {
        crate::parse::Expression::NumericConstant(v) => Operand::Imm(v),
        _ => arbitrary(),
    }
}

pub open spec fn spec_instructions(s: crate::parse::Statement) -> Seq<Instruction>
    recommends
        lowerable_statement(s),
{
    match s {
        crate::parse::Statement::Return(e) => seq![
            Instruction::Mov { src: spec_operand(e), dst: Operand::Register },
        ],
    }
}

/// A constant expression becomes an immediate operand.
pub fn parse_operand(node: crate::parse::Expression) -> (r: Operand)
    requires
        lowerable_expression(node),
    ensures
        r == spec_operand(node),
{
    match node {
        crate::parse::Expression::NumericConstant(val) => Operand::Imm(val),
        _ => unreached(),
    }
}

/// A `return <constant>;` statement becomes a move of the constant into
/// the return register.
pub fn parse_instructions(node: crate::parse::Statement) -> (r: Vec<Instruction>)
    requires
        lowerable_statement(node),
    ensures
        r@ == spec_instructions(node),
{
    match node {
        crate::parse::Statement::Return(exp) => {
            let ghost node0 = crate::parse::Statement::Return(exp);
            let src = parse_operand(exp);
            let dst = Operand::Register;
            let mut r: Vec<Instruction> = Vec::new();
            r.push(Instruction::Mov { src, dst });
            proof {
                assert(r@ =~= spec_instructions(node0));
            }
            r
        },
    }
}

/// Lowers a function definition, keeping its name.
pub fn parse_function_definition(node: crate::parse::FunctionDefinition) -> (r: FunctionDefinition)
    requires
        match node {
            crate::parse::FunctionDefinition::Function { name, body } => lowerable_statement(body),
        },
    ensures
        match (node, r) {
            (
                crate::parse::FunctionDefinition::Function { name, body },
                FunctionDefinition::Function { name: rname, instructions },
            ) => rname == name && instructions@ == spec_instructions(body),
        },
{
    match node {
        crate::parse::FunctionDefinition::Function { name, body } => {
            let instructions = parse_instructions(body);
            FunctionDefinition::Function { name, instructions }
        },
    }
}

/// Lowers a whole program: its single function definition.
pub fn parse_program_definition(node: crate::parse::ProgramDefinition) -> (r: ProgramDefinition)
    requires
        match node {
            crate::parse::ProgramDefinition::Program(
                crate::parse::FunctionDefinition::Function { name, body },
            ) => lowerable_statement(body),
        },
    ensures
        match (node, r) {
            (
                crate::parse::ProgramDefinition::Program(
                    crate::parse::FunctionDefinition::Function { name, body },
                ),
                ProgramDefinition::Program(FunctionDefinition::Function { name: rname, instructions }),
            ) => rname == name && instructions@ == spec_instructions(body),
        },
{
    match node {
        crate::parse::ProgramDefinition::Program(c_func_defn) => {
            let asm_function_definition = parse_function_definition(c_func_defn);
            ProgramDefinition::Program(asm_function_definition)
        },
    }
}

} // verus!
