//! The simplified front end: an abstract syntax tree for programs whose
//! expressions are numeric constants under unary operators, and a
//! recursive-descent parser for it over the token queue.
//!
//! The richer grammar with binary operators lives in [`c`]; the flat
//! intermediate representation in [`ir`]; the assembly model and its
//! three lowering passes in [`codegen`]; the earliest constant-only lowering
//! in [`direct`].

use std::collections::VecDeque;

use vstd::prelude::*;

use crate::lex::Token;

pub mod codegen;
pub mod c;
pub mod direct;
pub mod ir;

verus! {

pub type Identifier = String;

#[derive(Debug, PartialEq)]
pub enum UnaryOperator {
    BitwiseComplement,
    Negation,
}

#[derive(Debug, PartialEq)]
pub enum Expression {
    NumericConstant(u8),
    Unary(UnaryOperator, Box<Expression>),
}

#[derive(Debug, PartialEq)]
pub enum Statement {
    Return(Expression),
}

#[derive(Debug, PartialEq)]
pub enum FunctionDefinition {
    Function { name: Identifier, body: Statement },
}

#[derive(Debug, PartialEq)]
pub enum ProgramDefinition {
    Program(FunctionDefinition),
}

/// A syntactic failure: the tokens do not form a phrase of the grammar.
#[derive(Debug, PartialEq, Eq, Clone, Copy)]
pub enum SyntaxError {
    /// The token queue ended where the grammar requires another token.
    UnexpectedEndOfInput,
    /// The next token cannot begin or continue the phrase being parsed.
    UnexpectedToken,
    /// A parenthesized expression is not followed by `)`.
    ExpectedCloseParenthesis,
}

pub open spec fn sp_unop(t: Token) -> UnaryOperator {
    match t {
        Token::BitwiseComplementOperator => UnaryOperator::BitwiseComplement,
        _ => UnaryOperator::Negation,
    }
}

/// What parsing one unary-operator token yields: the operator and the
/// remaining tokens, or the failure.
pub open spec fn sp_unary_operator(toks: Seq<Token>) -> Result<
    (UnaryOperator, Seq<Token>),
    SyntaxError,
> {
    if toks.len() == 0 {
        Err(SyntaxError::UnexpectedEndOfInput)
    } else {
        match toks[0] {
            Token::BitwiseComplementOperator => Ok(
                (UnaryOperator::BitwiseComplement, toks.drop_first()),
            ),
            Token::NegationOperator => Ok((UnaryOperator::Negation, toks.drop_first())),
            _ => Err(SyntaxError::UnexpectedToken),
        }
    }
}

/// What parsing one expression of the simplified grammar yields: a numeric
/// constant, a unary operator applied to an expression, or a parenthesized
/// expression.
pub open spec fn sp_expression(toks: Seq<Token>) -> Result<(Expression, Seq<Token>), SyntaxError>
    decreases toks.len(),
{
    if toks.len() == 0 {
        Err(SyntaxError::UnexpectedEndOfInput)
    } else {
        match toks[0] {
            Token::NumericConstant(v) => Ok((Expression::NumericConstant(v), toks.drop_first())),
            Token::BitwiseComplementOperator | Token::NegationOperator => {
                match sp_expression(toks.drop_first()) {
                    Ok((inner, rest)) => Ok(
                        (Expression::Unary(sp_unop(toks[0]), Box::new(inner)), rest),
                    ),
                    Err(e) => Err(e),
                }
            },
            Token::OpenParenthesis => {
                match sp_expression(toks.drop_first()) {
                    Ok((e, rest)) => {
                        if rest.len() == 0 {
                            Err(SyntaxError::UnexpectedEndOfInput)
                        } else if rest[0] is CloseParenthesis {
                            Ok((e, rest.drop_first()))
                        } else {
                            Err(SyntaxError::ExpectedCloseParenthesis)
                        }
                    },
                    Err(e) => Err(e),
                }
            },
            _ => Err(SyntaxError::UnexpectedToken),
        }
    }
}

/// What parsing one `return <expression> ;` statement yields.
pub open spec fn sp_statement(toks: Seq<Token>) -> Result<(Statement, Seq<Token>), SyntaxError> {
    if toks.len() == 0 {
        Err(SyntaxError::UnexpectedEndOfInput)
    } else if !(toks[0] is ReturnKeyword) {
        Err(SyntaxError::UnexpectedToken)
    } else {
        match sp_expression(toks.drop_first()) {
            Ok((e, rest)) => {
                if rest.len() == 0 {
                    Err(SyntaxError::UnexpectedEndOfInput)
                } else if rest[0] is Semicolon {
                    Ok((Statement::Return(e), rest.drop_first()))
                } else {
                    Err(SyntaxError::UnexpectedToken)
                }
            },
            Err(e) => Err(e),
        }
    }
}

/// What parsing one `int <name>() { <statement> }` function definition
/// yields.
pub open spec fn sp_function_definition(toks: Seq<Token>) -> Result<
    (FunctionDefinition, Seq<Token>),
    SyntaxError,
> {
    if toks.len() == 0 {
        Err(SyntaxError::UnexpectedEndOfInput)
    } else if !(toks[0] is IntKeyword) {
        Err(SyntaxError::UnexpectedToken)
    } else if toks.len() == 1 {
        Err(SyntaxError::UnexpectedEndOfInput)
    } else {
        match toks[1] {
            Token::Identifier(name) => {
                if toks.len() == 2 {
                    Err(SyntaxError::UnexpectedEndOfInput)
                } else if !(toks[2] is OpenParenthesis) {
                    Err(SyntaxError::UnexpectedToken)
                } else if toks.len() == 3 {
                    Err(SyntaxError::UnexpectedEndOfInput)
                } else if !(toks[3] is CloseParenthesis) {
                    Err(SyntaxError::UnexpectedToken)
                } else if toks.len() == 4 {
                    Err(SyntaxError::UnexpectedEndOfInput)
                } else if !(toks[4] is OpenBrace) {
                    Err(SyntaxError::UnexpectedToken)
                } else {
                    match sp_statement(toks.skip(5)) {
                        Ok((body, rest)) => {
                            if rest.len() == 0 {
                                Err(SyntaxError::UnexpectedEndOfInput)
                            } else if rest[0] is CloseBrace {
                                Ok(
                                    (
                                        FunctionDefinition::Function { name, body },
                                        rest.drop_first(),
                                    ),
                                )
                            } else {
                                Err(SyntaxError::UnexpectedToken)
                            }
                        },
                        Err(e) => Err(e),
                    }
                }
            },
            _ => Err(SyntaxError::UnexpectedToken),
        }
    }
}

/// Consumes one unary-operator token.
pub fn parse_unary_operator(tokens: &mut VecDeque<Token>) -> (r: Result<UnaryOperator, SyntaxError>)
    ensures
        match r {
            Ok(op) => sp_unary_operator(old(tokens)@) == Ok::<(UnaryOperator, Seq<Token>),
                SyntaxError,
            >((op, final(tokens)@)),
            Err(e) => sp_unary_operator(old(tokens)@) == Err::<(UnaryOperator, Seq<Token>),
                SyntaxError,
            >(e),
        },
{
    match tokens.pop_front() {
        None => Err(SyntaxError::UnexpectedEndOfInput),
        Some(Token::BitwiseComplementOperator) => Ok(UnaryOperator::BitwiseComplement),
        Some(Token::NegationOperator) => Ok(UnaryOperator::Negation),
        Some(_) => Err(SyntaxError::UnexpectedToken),
    }
}

/// Parses one expression of the simplified grammar from the front of the
/// token queue; on success the queue holds exactly the remaining tokens.
pub fn parse_expression(tokens: &mut VecDeque<Token>) -> (r: Result<Expression, SyntaxError>)
    ensures
        match r {
            Ok(e) => sp_expression(old(tokens)@) == Ok::<(Expression, Seq<Token>), SyntaxError>(
                (e, final(tokens)@),
            ),
            Err(er) => sp_expression(old(tokens)@) == Err::<(Expression, Seq<Token>), SyntaxError>(
                er,
            ),
        },
    decreases old(tokens)@.len(),
{
    let first = match tokens.pop_front() {
        None => {
            return Err(SyntaxError::UnexpectedEndOfInput);
        },
        Some(t) => t,
    };
    match first {
        Token::NumericConstant(val) => Ok(Expression::NumericConstant(val)),
        Token::BitwiseComplementOperator => {
            let inner = parse_expression(tokens)?;
            Ok(Expression::Unary(UnaryOperator::BitwiseComplement, Box::new(inner)))
        },
        Token::NegationOperator => {
            let inner = parse_expression(tokens)?;
            Ok(Expression::Unary(UnaryOperator::Negation, Box::new(inner)))
        },
        Token::OpenParenthesis => {
            let e = parse_expression(tokens)?;
            match tokens.pop_front() {
                None => Err(SyntaxError::UnexpectedEndOfInput),
                Some(Token::CloseParenthesis) => Ok(e),
                Some(_) => Err(SyntaxError::ExpectedCloseParenthesis),
            }
        },
        _ => Err(SyntaxError::UnexpectedToken),
    }
}

/// Parses one `return <expression> ;` statement.
pub fn parse_statement(tokens: &mut VecDeque<Token>) -> (r: Result<Statement, SyntaxError>)
    ensures
        match r {
            Ok(s) => sp_statement(old(tokens)@) == Ok::<(Statement, Seq<Token>), SyntaxError>(
                (s, final(tokens)@),
            ),
            Err(er) => sp_statement(old(tokens)@) == Err::<(Statement, Seq<Token>), SyntaxError>(
                er,
            ),
        },
{
    match tokens.pop_front() {
        None => {
            return Err(SyntaxError::UnexpectedEndOfInput);
        },
        Some(Token::ReturnKeyword) => {},
        Some(_) => {
            return Err(SyntaxError::UnexpectedToken);
        },
    }
    let e = parse_expression(tokens)?;
    match tokens.pop_front() {
        None => Err(SyntaxError::UnexpectedEndOfInput),
        Some(Token::Semicolon) => Ok(Statement::Return(e)),
        Some(_) => Err(SyntaxError::UnexpectedToken),
    }
}

/// Parses one `int <name>() { <statement> }` function definition.
pub fn parse_function_definition(tokens: &mut VecDeque<Token>) -> (r: Result<
    FunctionDefinition,
    SyntaxError,
>)
    ensures
        match r {
            Ok(f) => sp_function_definition(old(tokens)@) == Ok::<
                (FunctionDefinition, Seq<Token>),
                SyntaxError,
            >((f, final(tokens)@)),
            Err(er) => sp_function_definition(old(tokens)@) == Err::<
                (FunctionDefinition, Seq<Token>),
                SyntaxError,
            >(er),
        },
{
    let ghost toks = tokens@;
    match tokens.pop_front() {
        None => {
            return Err(SyntaxError::UnexpectedEndOfInput);
        },
        Some(Token::IntKeyword) => {},
        Some(_) => {
            return Err(SyntaxError::UnexpectedToken);
        },
    }
    let name = match tokens.pop_front() {
        None => {
            return Err(SyntaxError::UnexpectedEndOfInput);
        },
        Some(Token::Identifier(name)) => name,
        Some(_) => {
            return Err(SyntaxError::UnexpectedToken);
        },
    };
    match tokens.pop_front() {
        None => {
            return Err(SyntaxError::UnexpectedEndOfInput);
        },
        Some(Token::OpenParenthesis) => {},
        Some(_) => {
            return Err(SyntaxError::UnexpectedToken);
        },
    }
    match tokens.pop_front() {
        None => {
            return Err(SyntaxError::UnexpectedEndOfInput);
        },
        Some(Token::CloseParenthesis) => {},
        Some(_) => {
            return Err(SyntaxError::UnexpectedToken);
        },
    }
    match tokens.pop_front() {
        None => {
            return Err(SyntaxError::UnexpectedEndOfInput);
        },
        Some(Token::OpenBrace) => {},
        Some(_) => {
            return Err(SyntaxError::UnexpectedToken);
        },
    }
    proof {
        assert(tokens@ =~= toks.skip(5));
    }
    let body = parse_statement(tokens)?;
    match tokens.pop_front() {
        None => Err(SyntaxError::UnexpectedEndOfInput),
        Some(Token::CloseBrace) => Ok(FunctionDefinition::Function { name, body }),
        Some(_) => Err(SyntaxError::UnexpectedToken),
    }
}

/// Parses a whole program: a single function definition.
pub fn parse_program_definition(tokens: &mut VecDeque<Token>) -> (r: Result<
    ProgramDefinition,
    SyntaxError,
>)
    ensures
        match r {
            Ok(p) => sp_function_definition(old(tokens)@) == Ok::<
                (FunctionDefinition, Seq<Token>),
                SyntaxError,
            >((p->Program_0, final(tokens)@)),
            Err(er) => sp_function_definition(old(tokens)@) == Err::<
                (FunctionDefinition, Seq<Token>),
                SyntaxError,
            >(er),
        },
{
    let f = parse_function_definition(tokens)?;
    Ok(ProgramDefinition::Program(f))
}

} // verus!
