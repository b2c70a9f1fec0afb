//! The C abstract syntax tree with binary operators, and its
//! precedence-climbing parser over the token queue.

use std::collections::VecDeque;

use vstd::prelude::*;

use crate::lex::Token;
use crate::parse::Identifier;
use crate::parse::SyntaxError;

verus! {

#[derive(Debug, PartialEq, Clone, Copy)]
pub enum UnaryOperator {
    BitwiseComplement,
    Negation,
}

#[derive(Debug, PartialEq, Clone, Copy)]
pub enum BinaryOperator {
    Add,
    Subtract,
    Multiply,
    Divide,
    Modulo,
}

#[derive(Debug, PartialEq)]
pub enum Expression {
    NumericConstant(u8),
    Unary(UnaryOperator, Box<Expression>),
    Binary { op: BinaryOperator, left: Box<Expression>, right: Box<Expression> },
}

#[derive(Debug, PartialEq)]
pub enum Statement {
    Return(Expression),
}

#[derive(Debug, PartialEq)]
pub enum FunctionDefinition {
    Function { name: Identifier, body: Statement },
}

#[derive(Debug, PartialEq)]
pub enum ProgramDefinition {
    Program(FunctionDefinition),
}

pub open spec fn sp_unop(t: Token) -> UnaryOperator {
    match t {
        Token::Tilde => UnaryOperator::BitwiseComplement,
        _ => UnaryOperator::Negation,
    }
}

pub open spec fn sp_binop(t: Token) -> BinaryOperator {
    match t {
        Token::Plus => BinaryOperator::Add,
        Token::Minus => BinaryOperator::Subtract,
        Token::Asterisk => BinaryOperator::Multiply,
        _ => BinaryOperator::Divide,
    }
}

pub open spec fn is_binop_token(t: Token) -> bool {
    t is Plus || t is Minus || t is Asterisk || t is ForwardSlash
}

/// Numeric binding strength of a binary-operator token: multiplication and
/// division bind tighter than addition and subtraction.
pub open spec fn sp_prec(t: Token) -> u8 {
    match t {
        Token::Asterisk => 50,
        Token::ForwardSlash => 50,
        Token::Plus => 45,
        Token::Minus => 45,
        _ => 0,
    }
}

/// Consumes one unary-operator token.
pub fn parse_unary_operator(tokens: &mut VecDeque<Token>) -> (r: Result<UnaryOperator, SyntaxError>)
    ensures
        match r {
            Ok(op) => old(tokens)@.len() > 0 && (old(tokens)@[0] is Tilde || old(
                tokens,
            )@[0] is Minus) && op == sp_unop(old(tokens)@[0]) && final(tokens)@ == old(
                tokens,
            )@.drop_first(),
            Err(e) => (if old(tokens)@.len() == 0 {
                e == SyntaxError::UnexpectedEndOfInput
            } else {
                !(old(tokens)@[0] is Tilde) && !(old(tokens)@[0] is Minus) && e
                    == SyntaxError::UnexpectedToken
            }),
        },
{
    match tokens.pop_front() {
        None => Err(SyntaxError::UnexpectedEndOfInput),
        Some(Token::Tilde) => Ok(UnaryOperator::BitwiseComplement),
        Some(Token::Minus) => Ok(UnaryOperator::Negation),
        Some(_) => Err(SyntaxError::UnexpectedToken),
    }
}

/// Consumes one binary-operator token.
pub fn parse_binary_operator(tokens: &mut VecDeque<Token>) -> (r: Result<
    BinaryOperator,
    SyntaxError,
>)
    ensures
        match r {
            Ok(op) => old(tokens)@.len() > 0 && is_binop_token(old(tokens)@[0]) && op == sp_binop(
                old(tokens)@[0],
            ) && final(tokens)@ == old(tokens)@.drop_first(),
            Err(e) => (if old(tokens)@.len() == 0 {
                e == SyntaxError::UnexpectedEndOfInput
            } else {
                !is_binop_token(old(tokens)@[0]) && e == SyntaxError::UnexpectedToken
            }),
        },
{
    match tokens.pop_front() {
        None => Err(SyntaxError::UnexpectedEndOfInput),
        Some(Token::Plus) => Ok(BinaryOperator::Add),
        Some(Token::Minus) => Ok(BinaryOperator::Subtract),
        Some(Token::Asterisk) => Ok(BinaryOperator::Multiply),
        Some(Token::ForwardSlash) => Ok(BinaryOperator::Divide),
        Some(_) => Err(SyntaxError::UnexpectedToken),
    }
}

/// The fuel-indexed parser for a factor: a numeric constant, a unary
/// operator applied to a factor, or a parenthesized expression. `None`
/// means the recursion budget ran out; by
/// [`lemma_sp_factor_monotonic`], every sufficient budget yields the
/// same answer.
pub open spec fn sp_factor(toks: Seq<Token>, fuel: nat) -> Option<
    Result<(Expression, Seq<Token>), SyntaxError>,
>
    decreases fuel,
{
    if fuel == 0 {
        None
    } else if toks.len() == 0 {
        Some(Err(SyntaxError::UnexpectedEndOfInput))
    } else {
        match toks[0] {
            Token::NumericConstant(v) => Some(
                Ok((Expression::NumericConstant(v), toks.drop_first())),
            ),
            Token::Tilde | Token::Minus => match sp_factor(toks.drop_first(), (fuel - 1) as nat) {
                None => None,
                Some(Err(e)) => Some(Err(e)),
                Some(Ok((inner, rest))) => Some(
                    Ok((Expression::Unary(sp_unop(toks[0]), Box::new(inner)), rest)),
                ),
            },
            Token::OpenParenthesis => match sp_expression(
                toks.drop_first(),
                0,
                (fuel - 1) as nat,
            ) {
                None => None,
                Some(Err(e)) => Some(Err(e)),
                Some(Ok((e, rest))) => {
                    if rest.len() == 0 {
                        Some(Err(SyntaxError::UnexpectedEndOfInput))
                    } else if rest[0] is CloseParenthesis {
                        Some(Ok((e, rest.drop_first())))
                    } else {
                        Some(Err(SyntaxError::ExpectedCloseParenthesis))
                    }
                },
            },
            _ => Some(Err(SyntaxError::UnexpectedToken)),
        }
    }
}

/// The fuel-indexed precedence climber: a factor, then every binary
/// operator that binds at least as tightly as `min_prec`.
pub open spec fn sp_expression(toks: Seq<Token>, min_prec: u8, fuel: nat) -> Option<
    Result<(Expression, Seq<Token>), SyntaxError>,
>
    decreases fuel,
{
    if fuel == 0 {
        None
    } else {
        match sp_factor(toks, (fuel - 1) as nat) {
            None => None,
            Some(Err(e)) => Some(Err(e)),
            Some(Ok((left, rest))) => sp_expression_rest(left, rest, min_prec, (fuel - 1) as nat),
        }
    }
}

/// The climbing loop: while the next token is a binary operator of
/// sufficient precedence, parse its right operand one level tighter and
/// fold it into `left`.
pub open spec fn sp_expression_rest(left: Expression, toks: Seq<Token>, min_prec: u8, fuel: nat) -> Option<
    Result<(Expression, Seq<Token>), SyntaxError>,
>
    decreases fuel,
{
    if fuel == 0 {
        None
    } else if toks.len() == 0 || !is_binop_token(toks[0]) || sp_prec(toks[0]) < min_prec {
        Some(Ok((left, toks)))
    } else {
        match sp_expression(toks.drop_first(), (sp_prec(toks[0]) + 1) as u8, (fuel - 1) as nat) {
            None => None,
            Some(Err(e)) => Some(Err(e)),
            Some(Ok((right, rest))) => sp_expression_rest(
                Expression::Binary {
                    op: sp_binop(toks[0]),
                    left: Box::new(left),
                    right: Box::new(right),
                },
                rest,
                min_prec,
                (fuel - 1) as nat,
            ),
        }
    }
}

/// Once the budget suffices, giving more of it changes nothing.
pub proof fn lemma_sp_factor_monotonic(toks: Seq<Token>, f1: nat, f2: nat)
    requires
        f1 <= f2,
        sp_factor(toks, f1) is Some,
    ensures
        sp_factor(toks, f2) == sp_factor(toks, f1),
    decreases f1,
{
    if f1 > 0 && toks.len() > 0 {
        match toks[0] {
            Token::Tilde | Token::Minus => {
                if sp_factor(toks.drop_first(), (f1 - 1) as nat) is Some {
                    lemma_sp_factor_monotonic(toks.drop_first(), (f1 - 1) as nat, (f2 - 1) as nat);
                }
            },
            Token::OpenParenthesis => {
                if sp_expression(toks.drop_first(), 0, (f1 - 1) as nat) is Some {
                    lemma_sp_expression_monotonic(
                        toks.drop_first(),
                        0,
                        (f1 - 1) as nat,
                        (f2 - 1) as nat,
                    );
                }
            },
            _ => {},
        }
    }
}

/// Once the budget suffices, giving more of it changes nothing.
pub proof fn lemma_sp_expression_monotonic(toks: Seq<Token>, min_prec: u8, f1: nat, f2: nat)
    requires
        f1 <= f2,
        sp_expression(toks, min_prec, f1) is Some,
    ensures
        sp_expression(toks, min_prec, f2) == sp_expression(toks, min_prec, f1),
    decreases f1,
{
    if f1 > 0 {
        if sp_factor(toks, (f1 - 1) as nat) is Some {
            lemma_sp_factor_monotonic(toks, (f1 - 1) as nat, (f2 - 1) as nat);
            match sp_factor(toks, (f1 - 1) as nat) {
                Some(Ok((left, rest))) => {
                    if sp_expression_rest(left, rest, min_prec, (f1 - 1) as nat) is Some {
                        lemma_sp_expression_rest_monotonic(
                            left,
                            rest,
                            min_prec,
                            (f1 - 1) as nat,
                            (f2 - 1) as nat,
                        );
                    }
                },
                _ => {},
            }
        }
    }
}

/// Once the budget suffices, giving more of it changes nothing.
pub proof fn lemma_sp_expression_rest_monotonic(
    left: Expression,
    toks: Seq<Token>,
    min_prec: u8,
    f1: nat,
    f2: nat,
)
    requires
        f1 <= f2,
        sp_expression_rest(left, toks, min_prec, f1) is Some,
    ensures
        sp_expression_rest(left, toks, min_prec, f2) == sp_expression_rest(
            left,
            toks,
            min_prec,
            f1,
        ),
    decreases f1,
{
    if f1 > 0 && !(toks.len() == 0 || !is_binop_token(toks[0]) || sp_prec(toks[0]) < min_prec) {
        let q = (sp_prec(toks[0]) + 1) as u8;
        if sp_expression(toks.drop_first(), q, (f1 - 1) as nat) is Some {
            lemma_sp_expression_monotonic(toks.drop_first(), q, (f1 - 1) as nat, (f2 - 1) as nat);
            match sp_expression(toks.drop_first(), q, (f1 - 1) as nat) {
                Some(Ok((right, rest))) => {
                    let folded = Expression::Binary {
                        op: sp_binop(toks[0]),
                        left: Box::new(left),
                        right: Box::new(right),
                    };
                    if sp_expression_rest(folded, rest, min_prec, (f1 - 1) as nat) is Some {
                        lemma_sp_expression_rest_monotonic(
                            folded,
                            rest,
                            min_prec,
                            (f1 - 1) as nat,
                            (f2 - 1) as nat,
                        );
                    }
                },
                _ => {},
            }
        }
    }
}

/// What the factor parser may answer: some budget suffices for it.
pub open spec fn factor_parses(toks: Seq<Token>, r: Result<(Expression, Seq<Token>), SyntaxError>) -> bool {
    exists|fuel: nat| sp_factor(toks, fuel) == Some(r)
}

/// What the expression parser may answer: some budget suffices for it.
pub open spec fn expr_parses(toks: Seq<Token>, min_prec: u8, r: Result<(Expression, Seq<Token>), SyntaxError>) -> bool {
    exists|fuel: nat| sp_expression(toks, min_prec, fuel) == Some(r)
}

pub open spec fn rest_parses(
    left: Expression,
    toks: Seq<Token>,
    min_prec: u8,
    r: Result<(Expression, Seq<Token>), SyntaxError>,
) -> bool {
    exists|fuel: nat| sp_expression_rest(left, toks, min_prec, fuel) == Some(r)
}

/// The factor parser's answer is unique: the contract of
/// [`parse_factor`] pins its result down.
pub proof fn lemma_factor_unique(
    toks: Seq<Token>,
    r1: Result<(Expression, Seq<Token>), SyntaxError>,
    r2: Result<(Expression, Seq<Token>), SyntaxError>,
)
    requires
        factor_parses(toks, r1),
        factor_parses(toks, r2),
    ensures
        r1 == r2,
{
    let f1 = choose|f: nat| sp_factor(toks, f) == Some(r1);
    let f2 = choose|f: nat| sp_factor(toks, f) == Some(r2);
    if f1 <= f2 {
        lemma_sp_factor_monotonic(toks, f1, f2);
    } else {
        lemma_sp_factor_monotonic(toks, f2, f1);
    }
}

/// The expression parser's answer is unique: the contract of
/// [`parse_expression`] pins its result down.
pub proof fn lemma_expression_unique(
    toks: Seq<Token>,
    min_prec: u8,
    r1: Result<(Expression, Seq<Token>), SyntaxError>,
    r2: Result<(Expression, Seq<Token>), SyntaxError>,
)
    requires
        expr_parses(toks, min_prec, r1),
        expr_parses(toks, min_prec, r2),
    ensures
        r1 == r2,
{
    let f1 = choose|f: nat| sp_expression(toks, min_prec, f) == Some(r1);
    let f2 = choose|f: nat| sp_expression(toks, min_prec, f) == Some(r2);
    if f1 <= f2 {
        lemma_sp_expression_monotonic(toks, min_prec, f1, f2);
    } else {
        lemma_sp_expression_monotonic(toks, min_prec, f2, f1);
    }
}

/// Numeric binding strength of the next operator token.
fn get_operator_precedence(token: &Token) -> (r: u8)
    requires
        is_binop_token(*token),
    ensures
        r == sp_prec(*token),
        r <= 50,
{
    match token {
        Token::Asterisk => 50,
        Token::ForwardSlash => 50,
        Token::Plus => 45,
        Token::Minus => 45,
        _ => unreached(),
    }
}

/// Parses one factor from the front of the token queue; on success the
/// queue holds exactly the remaining tokens, and at least one token was
/// consumed.
pub fn parse_factor(tokens: &mut VecDeque<Token>) -> (r: Result<Expression, SyntaxError>)
    ensures
        match r {
            Ok(e) => factor_parses(old(tokens)@, Ok((e, final(tokens)@)))
                && final(tokens)@.len() < old(tokens)@.len(),
            Err(er) => factor_parses(old(tokens)@, Err(er)),
        },
    decreases old(tokens)@.len(), 0int,
{
    let ghost toks0 = tokens@;
    let first = match tokens.pop_front() {
        None => {
            proof {
                assert(sp_factor(toks0, 1nat) == Some(
                    Err::<(Expression, Seq<Token>), SyntaxError>(
                        SyntaxError::UnexpectedEndOfInput,
                    ),
                ));
            }
            return Err(SyntaxError::UnexpectedEndOfInput);
        },
        Some(t) => t,
    };
    match first {
        Token::NumericConstant(val) => {
            proof {
                assert(sp_factor(toks0, 1nat) == Some(
                    Ok::<(Expression, Seq<Token>), SyntaxError>(
                        (Expression::NumericConstant(val), toks0.drop_first()),
                    ),
                ));
            }
            Ok(Expression::NumericConstant(val))
        },
        Token::Tilde => {
            match parse_factor(tokens) {
                Ok(inner) => {
                    let ghost inner0 = inner;
                    let ghost rest0 = tokens@;
                    let e = Expression::Unary(UnaryOperator::BitwiseComplement, Box::new(inner));
                    proof {
                        let f = choose|f: nat|
                            sp_factor(toks0.drop_first(), f) == Some(
                                Ok::<(Expression, Seq<Token>), SyntaxError>((inner0, rest0)),
                            );
                        assert(sp_factor(toks0, f + 1) == Some(
                            Ok::<(Expression, Seq<Token>), SyntaxError>((e, rest0)),
                        ));
                    }
                    Ok(e)
                },
                Err(er) => {
                    proof {
                        let f = choose|f: nat|
                            sp_factor(toks0.drop_first(), f) == Some(
                                Err::<(Expression, Seq<Token>), SyntaxError>(er),
                            );
                        assert(sp_factor(toks0, f + 1) == Some(
                            Err::<(Expression, Seq<Token>), SyntaxError>(er),
                        ));
                    }
                    Err(er)
                },
            }
        },
        Token::Minus => {
            match parse_factor(tokens) {
                Ok(inner) => {
                    let ghost inner0 = inner;
                    let ghost rest0 = tokens@;
                    let e = Expression::Unary(UnaryOperator::Negation, Box::new(inner));
                    proof {
                        let f = choose|f: nat|
                            sp_factor(toks0.drop_first(), f) == Some(
                                Ok::<(Expression, Seq<Token>), SyntaxError>((inner0, rest0)),
                            );
                        assert(sp_factor(toks0, f + 1) == Some(
                            Ok::<(Expression, Seq<Token>), SyntaxError>((e, rest0)),
                        ));
                    }
                    Ok(e)
                },
                Err(er) => {
                    proof {
                        let f = choose|f: nat|
                            sp_factor(toks0.drop_first(), f) == Some(
                                Err::<(Expression, Seq<Token>), SyntaxError>(er),
                            );
                        assert(sp_factor(toks0, f + 1) == Some(
                            Err::<(Expression, Seq<Token>), SyntaxError>(er),
                        ));
                    }
                    Err(er)
                },
            }
        },
        Token::OpenParenthesis => {
            match parse_expression(tokens, 0) {
                Ok(e) => {
                    let ghost e0 = e;
                    let ghost rest0 = tokens@;
                    match tokens.pop_front() {
                        Some(Token::CloseParenthesis) => {
                            proof {
                                let f = choose|f: nat|
                                    sp_expression(toks0.drop_first(), 0, f) == Some(
                                        Ok::<(Expression, Seq<Token>), SyntaxError>((e0, rest0)),
                                    );
                                assert(sp_factor(toks0, f + 1) == Some(
                                    Ok::<(Expression, Seq<Token>), SyntaxError>(
                                        (e0, rest0.drop_first()),
                                    ),
                                ));
                            }
                            Ok(e)
                        },
                        Some(_) => {
                            proof {
                                let f = choose|f: nat|
                                    sp_expression(toks0.drop_first(), 0, f) == Some(
                                        Ok::<(Expression, Seq<Token>), SyntaxError>((e0, rest0)),
                                    );
                                assert(sp_factor(toks0, f + 1) == Some(
                                    Err::<(Expression, Seq<Token>), SyntaxError>(
                                        SyntaxError::ExpectedCloseParenthesis,
                                    ),
                                ));
                            }
                            Err(SyntaxError::ExpectedCloseParenthesis)
                        },
                        None => {
                            proof {
                                let f = choose|f: nat|
                                    sp_expression(toks0.drop_first(), 0, f) == Some(
                                        Ok::<(Expression, Seq<Token>), SyntaxError>((e0, rest0)),
                                    );
                                assert(sp_factor(toks0, f + 1) == Some(
                                    Err::<(Expression, Seq<Token>), SyntaxError>(
                                        SyntaxError::UnexpectedEndOfInput,
                                    ),
                                ));
                            }
                            Err(SyntaxError::UnexpectedEndOfInput)
                        },
                    }
                },
                Err(er) => {
                    proof {
                        let f = choose|f: nat|
                            sp_expression(toks0.drop_first(), 0, f) == Some(
                                Err::<(Expression, Seq<Token>), SyntaxError>(er),
                            );
                        assert(sp_factor(toks0, f + 1) == Some(
                            Err::<(Expression, Seq<Token>), SyntaxError>(er),
                        ));
                    }
                    Err(er)
                },
            }
        },
        _ => {
            proof {
                assert(sp_factor(toks0, 1nat) == Some(
                    Err::<(Expression, Seq<Token>), SyntaxError>(SyntaxError::UnexpectedToken),
                ));
            }
            Err(SyntaxError::UnexpectedToken)
        },
    }
}

/// Parses one expression by precedence climbing: operators of precedence
/// below `min_precedence` are left for the caller.
pub fn parse_expression(tokens: &mut VecDeque<Token>, min_precedence: u8) -> (r: Result<
    Expression,
    SyntaxError,
>)
    ensures
        match r {
            Ok(e) => expr_parses(old(tokens)@, min_precedence, Ok((e, final(tokens)@)))
                && final(tokens)@.len() < old(tokens)@.len(),
            Err(er) => expr_parses(old(tokens)@, min_precedence, Err(er)),
        },
    decreases old(tokens)@.len(), 1int,
{
    let ghost toks0 = tokens@;
    let left = match parse_factor(tokens) {
        Ok(l) => l,
        Err(er) => {
            proof {
                let f = choose|f: nat|
                    sp_factor(toks0, f) == Some(
                        Err::<(Expression, Seq<Token>), SyntaxError>(er),
                    );
                assert(sp_expression(toks0, min_precedence, f + 1) == Some(
                    Err::<(Expression, Seq<Token>), SyntaxError>(er),
                ));
            }
            return Err(er);
        },
    };
    let ghost left0 = left;
    let ghost rest0 = tokens@;
    let r = parse_expression_rest(left, tokens, min_precedence);
    proof {
        let ghost rg = r;
        let ff = choose|f: nat|
            sp_factor(toks0, f) == Some(
                Ok::<(Expression, Seq<Token>), SyntaxError>((left0, rest0)),
            );
        match rg {
            Ok(e) => {
                let fr = choose|f: nat|
                    sp_expression_rest(left0, rest0, min_precedence, f) == Some(
                        Ok::<(Expression, Seq<Token>), SyntaxError>((e, tokens@)),
                    );
                lemma_sp_factor_monotonic(toks0, ff, ff + fr);
                lemma_sp_expression_rest_monotonic(left0, rest0, min_precedence, fr, ff + fr);
                assert(sp_expression(toks0, min_precedence, ff + fr + 1) == Some(
                    Ok::<(Expression, Seq<Token>), SyntaxError>((e, tokens@)),
                ));
            },
            Err(er) => {
                let fr = choose|f: nat|
                    sp_expression_rest(left0, rest0, min_precedence, f) == Some(
                        Err::<(Expression, Seq<Token>), SyntaxError>(er),
                    );
                lemma_sp_factor_monotonic(toks0, ff, ff + fr);
                lemma_sp_expression_rest_monotonic(left0, rest0, min_precedence, fr, ff + fr);
                assert(sp_expression(toks0, min_precedence, ff + fr + 1) == Some(
                    Err::<(Expression, Seq<Token>), SyntaxError>(er),
                ));
            },
        }
    }
    r
}

/// The climbing loop: folds in every operator of sufficient precedence.
fn parse_expression_rest(left: Expression, tokens: &mut VecDeque<Token>, min_precedence: u8) -> (r:
    Result<Expression, SyntaxError>)
    ensures
        match r {
            Ok(e) => rest_parses(left, old(tokens)@, min_precedence, Ok((e, final(tokens)@)))
                && final(tokens)@.len() <= old(tokens)@.len(),
            Err(er) => rest_parses(left, old(tokens)@, min_precedence, Err(er)),
        },
    decreases old(tokens)@.len(), 2int,
{
    let ghost toks0 = tokens@;
    let ghost left_in = left;
    let proceed: bool = if tokens.len() == 0 {
        false
    } else {
        let t0 = &tokens[0];
        match t0 {
            Token::Plus | Token::Minus | Token::Asterisk | Token::ForwardSlash =>
                get_operator_precedence(t0) >= min_precedence,
            _ => false,
        }
    };
    if !proceed {
        proof {
            assert(sp_expression_rest(left_in, toks0, min_precedence, 1nat) == Some(
                Ok::<(Expression, Seq<Token>), SyntaxError>((left_in, toks0)),
            ));
        }
        return Ok(left);
    }
    let op_precedence = {
        let t0 = &tokens[0];
        get_operator_precedence(t0)
    };
    let op = match parse_binary_operator(tokens) {
        Ok(op) => op,
        Err(_) => unreached(),
    };
    let right = match parse_expression(tokens, op_precedence + 1) {
        Ok(rr) => rr,
        Err(er) => {
            proof {
                let q = (sp_prec(toks0[0]) + 1) as u8;
                let f = choose|f: nat|
                    sp_expression(toks0.drop_first(), q, f) == Some(
                        Err::<(Expression, Seq<Token>), SyntaxError>(er),
                    );
                assert(sp_expression_rest(left_in, toks0, min_precedence, f + 1) == Some(
                    Err::<(Expression, Seq<Token>), SyntaxError>(er),
                ));
            }
            return Err(er);
        },
    };
    let ghost right0 = right;
    let ghost mid0 = tokens@;
    let folded = Expression::Binary { op, left: Box::new(left), right: Box::new(right) };
    let ghost folded0 = folded;
    let r = parse_expression_rest(folded, tokens, min_precedence);
    proof {
        let ghost rg = r;
        let q = (sp_prec(toks0[0]) + 1) as u8;
        let fe = choose|f: nat|
            sp_expression(toks0.drop_first(), q, f) == Some(
                Ok::<(Expression, Seq<Token>), SyntaxError>((right0, mid0)),
            );
        match rg {
            Ok(e) => {
                let fr = choose|f: nat|
                    sp_expression_rest(folded0, mid0, min_precedence, f) == Some(
                        Ok::<(Expression, Seq<Token>), SyntaxError>((e, tokens@)),
                    );
                lemma_sp_expression_monotonic(toks0.drop_first(), q, fe, fe + fr);
                lemma_sp_expression_rest_monotonic(folded0, mid0, min_precedence, fr, fe + fr);
                assert(sp_expression_rest(left_in, toks0, min_precedence, fe + fr + 1) == Some(
                    Ok::<(Expression, Seq<Token>), SyntaxError>((e, tokens@)),
                ));
            },
            Err(er) => {
                let fr = choose|f: nat|
                    sp_expression_rest(folded0, mid0, min_precedence, f) == Some(
                        Err::<(Expression, Seq<Token>), SyntaxError>(er),
                    );
                lemma_sp_expression_monotonic(toks0.drop_first(), q, fe, fe + fr);
                lemma_sp_expression_rest_monotonic(folded0, mid0, min_precedence, fr, fe + fr);
                assert(sp_expression_rest(left_in, toks0, min_precedence, fe + fr + 1) == Some(
                    Err::<(Expression, Seq<Token>), SyntaxError>(er),
                ));
            },
        }
    }
    r
}

/// The fuel-indexed parser for a `return <expression> ;` statement.
pub open spec fn sp_statement(toks: Seq<Token>, fuel: nat) -> Option<
    Result<(Statement, Seq<Token>), SyntaxError>,
> {
    if toks.len() == 0 {
        Some(Err(SyntaxError::UnexpectedEndOfInput))
    } else if !(toks[0] is ReturnKeyword) {
        Some(Err(SyntaxError::UnexpectedToken))
    } else {
        match sp_expression(toks.drop_first(), 0, fuel) {
            None => None,
            Some(Err(e)) => Some(Err(e)),
            Some(Ok((e, rest))) => {
                if rest.len() == 0 {
                    Some(Err(SyntaxError::UnexpectedEndOfInput))
                } else if rest[0] is Semicolon {
                    Some(Ok((Statement::Return(e), rest.drop_first())))
                } else {
                    Some(Err(SyntaxError::UnexpectedToken))
                }
            },
        }
    }
}

/// The fuel-indexed parser for an `int <name>() { <statement> }`
/// function definition.
pub open spec fn sp_function_definition(toks: Seq<Token>, fuel: nat) -> Option<
    Result<(FunctionDefinition, Seq<Token>), SyntaxError>,
> {
    if toks.len() == 0 {
        Some(Err(SyntaxError::UnexpectedEndOfInput))
    } else if !(toks[0] is IntKeyword) {
        Some(Err(SyntaxError::UnexpectedToken))
    } else if toks.len() == 1 {
        Some(Err(SyntaxError::UnexpectedEndOfInput))
    } else {
        match toks[1] {
            Token::Identifier(name) => {
                if toks.len() == 2 {
                    Some(Err(SyntaxError::UnexpectedEndOfInput))
                } else if !(toks[2] is OpenParenthesis) {
                    Some(Err(SyntaxError::UnexpectedToken))
                } else if toks.len() == 3 {
                    Some(Err(SyntaxError::UnexpectedEndOfInput))
                } else if !(toks[3] is CloseParenthesis) {
                    Some(Err(SyntaxError::UnexpectedToken))
                } else if toks.len() == 4 {
                    Some(Err(SyntaxError::UnexpectedEndOfInput))
                } else if !(toks[4] is OpenBrace) {
                    Some(Err(SyntaxError::UnexpectedToken))
                } else {
                    match sp_statement(toks.skip(5), fuel) {
                        None => None,
                        Some(Err(e)) => Some(Err(e)),
                        Some(Ok((body, rest))) => {
                            if rest.len() == 0 {
                                Some(Err(SyntaxError::UnexpectedEndOfInput))
                            } else if rest[0] is CloseBrace {
                                Some(
                                    Ok(
                                        (
                                            FunctionDefinition::Function { name, body },
                                            rest.drop_first(),
                                        ),
                                    ),
                                )
                            } else {
                                Some(Err(SyntaxError::UnexpectedToken))
                            }
                        },
                    }
                }
            },
            _ => Some(Err(SyntaxError::UnexpectedToken)),
        }
    }
}

pub open spec fn stmt_parses(toks: Seq<Token>, r: Result<(Statement, Seq<Token>), SyntaxError>) -> bool {
    exists|fuel: nat| sp_statement(toks, fuel) == Some(r)
}

pub open spec fn fn_parses(
    toks: Seq<Token>,
    r: Result<(FunctionDefinition, Seq<Token>), SyntaxError>,
) -> bool {
    exists|fuel: nat| sp_function_definition(toks, fuel) == Some(r)
}

/// Once the budget suffices, giving more of it changes nothing.
pub proof fn lemma_sp_statement_monotonic(toks: Seq<Token>, f1: nat, f2: nat)
    requires
        f1 <= f2,
        sp_statement(toks, f1) is Some,
    ensures
        sp_statement(toks, f2) == sp_statement(toks, f1),
{
    if toks.len() > 0 && toks[0] is ReturnKeyword {
        if sp_expression(toks.drop_first(), 0, f1) is Some {
            lemma_sp_expression_monotonic(toks.drop_first(), 0, f1, f2);
        }
    }
}

/// Once the budget suffices, giving more of it changes nothing.
pub proof fn lemma_sp_function_definition_monotonic(toks: Seq<Token>, f1: nat, f2: nat)
    requires
        f1 <= f2,
        sp_function_definition(toks, f1) is Some,
    ensures
        sp_function_definition(toks, f2) == sp_function_definition(toks, f1),
{
    if toks.len() >= 5 {
        if sp_statement(toks.skip(5), f1) is Some {
            lemma_sp_statement_monotonic(toks.skip(5), f1, f2);
        }
    }
}

/// The statement parser's answer is unique.
pub proof fn lemma_statement_unique(
    toks: Seq<Token>,
    r1: Result<(Statement, Seq<Token>), SyntaxError>,
    r2: Result<(Statement, Seq<Token>), SyntaxError>,
)
    requires
        stmt_parses(toks, r1),
        stmt_parses(toks, r2),
    ensures
        r1 == r2,
{
    let f1 = choose|f: nat| sp_statement(toks, f) == Some(r1);
    let f2 = choose|f: nat| sp_statement(toks, f) == Some(r2);
    if f1 <= f2 {
        lemma_sp_statement_monotonic(toks, f1, f2);
    } else {
        lemma_sp_statement_monotonic(toks, f2, f1);
    }
}

/// The function-definition parser's answer is unique.
pub proof fn lemma_function_definition_unique(
    toks: Seq<Token>,
    r1: Result<(FunctionDefinition, Seq<Token>), SyntaxError>,
    r2: Result<(FunctionDefinition, Seq<Token>), SyntaxError>,
)
    requires
        fn_parses(toks, r1),
        fn_parses(toks, r2),
    ensures
        r1 == r2,
{
    let f1 = choose|f: nat| sp_function_definition(toks, f) == Some(r1);
    let f2 = choose|f: nat| sp_function_definition(toks, f) == Some(r2);
    if f1 <= f2 {
        lemma_sp_function_definition_monotonic(toks, f1, f2);
    } else {
        lemma_sp_function_definition_monotonic(toks, f2, f1);
    }
}

/// Parses one `return <expression> ;` statement.
pub fn parse_statement(tokens: &mut VecDeque<Token>) -> (r: Result<Statement, SyntaxError>)
    ensures
        match r {
            Ok(st) => stmt_parses(old(tokens)@, Ok((st, final(tokens)@))),
            Err(er) => stmt_parses(old(tokens)@, Err(er)),
        },
{
    let ghost toks0 = tokens@;
    match tokens.pop_front() {
        None => {
            proof {
                assert(sp_statement(toks0, 0nat) == Some(
                    Err::<(Statement, Seq<Token>), SyntaxError>(
                        SyntaxError::UnexpectedEndOfInput,
                    ),
                ));
            }
            return Err(SyntaxError::UnexpectedEndOfInput);
        },
        Some(Token::ReturnKeyword) => {},
        Some(_) => {
            proof {
                assert(sp_statement(toks0, 0nat) == Some(
                    Err::<(Statement, Seq<Token>), SyntaxError>(SyntaxError::UnexpectedToken),
                ));
            }
            return Err(SyntaxError::UnexpectedToken);
        },
    }
    let e = match parse_expression(tokens, 0) {
        Ok(e) => e,
        Err(er) => {
            proof {
                let f = choose|f: nat|
                    sp_expression(toks0.drop_first(), 0, f) == Some(
                        Err::<(Expression, Seq<Token>), SyntaxError>(er),
                    );
                assert(sp_statement(toks0, f) == Some(
                    Err::<(Statement, Seq<Token>), SyntaxError>(er),
                ));
            }
            return Err(er);
        },
    };
    let ghost e0 = e;
    let ghost rest0 = tokens@;
    let r = match tokens.pop_front() {
        None => Err(SyntaxError::UnexpectedEndOfInput),
        Some(Token::Semicolon) => Ok(Statement::Return(e)),
        Some(_) => Err(SyntaxError::UnexpectedToken),
    };
    proof {
        let f = choose|f: nat|
            sp_expression(toks0.drop_first(), 0, f) == Some(
                Ok::<(Expression, Seq<Token>), SyntaxError>((e0, rest0)),
            );
        assert(sp_statement(toks0, f) is Some);
    }
    r
}

/// Parses one `int <name>() { <statement> }` function definition.
pub fn parse_function_definition(tokens: &mut VecDeque<Token>) -> (r: Result<
    FunctionDefinition,
    SyntaxError,
>)
    ensures
        match r {
            Ok(fd) => fn_parses(old(tokens)@, Ok((fd, final(tokens)@))),
            Err(er) => fn_parses(old(tokens)@, Err(er)),
        },
{
    let ghost toks0 = tokens@;
    match tokens.pop_front() {
        None => {
            proof {
                assert(sp_function_definition(toks0, 0nat) is Some);
            }
            return Err(SyntaxError::UnexpectedEndOfInput);
        },
        Some(Token::IntKeyword) => {},
        Some(_) => {
            proof {
                assert(sp_function_definition(toks0, 0nat) is Some);
            }
            return Err(SyntaxError::UnexpectedToken);
        },
    }
    let name = match tokens.pop_front() {
        None => {
            proof {
                assert(sp_function_definition(toks0, 0nat) is Some);
            }
            return Err(SyntaxError::UnexpectedEndOfInput);
        },
        Some(Token::Identifier(name)) => name,
        Some(_) => {
            proof {
                assert(sp_function_definition(toks0, 0nat) is Some);
            }
            return Err(SyntaxError::UnexpectedToken);
        },
    };
    match tokens.pop_front() {
        None => {
            proof {
                assert(sp_function_definition(toks0, 0nat) is Some);
            }
            return Err(SyntaxError::UnexpectedEndOfInput);
        },
        Some(Token::OpenParenthesis) => {},
        Some(_) => {
            proof {
                assert(sp_function_definition(toks0, 0nat) is Some);
            }
            return Err(SyntaxError::UnexpectedToken);
        },
    }
    match tokens.pop_front() {
        None => {
            proof {
                assert(sp_function_definition(toks0, 0nat) is Some);
            }
            return Err(SyntaxError::UnexpectedEndOfInput);
        },
        Some(Token::CloseParenthesis) => {},
        Some(_) => {
            proof {
                assert(sp_function_definition(toks0, 0nat) is Some);
            }
            return Err(SyntaxError::UnexpectedToken);
        },
    }
    match tokens.pop_front() {
        None => {
            proof {
                assert(sp_function_definition(toks0, 0nat) is Some);
            }
            return Err(SyntaxError::UnexpectedEndOfInput);
        },
        Some(Token::OpenBrace) => {},
        Some(_) => {
            proof {
                assert(sp_function_definition(toks0, 0nat) is Some);
            }
            return Err(SyntaxError::UnexpectedToken);
        },
    }
    proof {
        assert(tokens@ =~= toks0.skip(5));
    }
    let body = match parse_statement(tokens) {
        Ok(b) => b,
        Err(er) => {
            proof {
                let f = choose|f: nat|
                    sp_statement(toks0.skip(5), f) == Some(
                        Err::<(Statement, Seq<Token>), SyntaxError>(er),
                    );
                assert(sp_function_definition(toks0, f) == Some(
                    Err::<(FunctionDefinition, Seq<Token>), SyntaxError>(er),
                ));
            }
            return Err(er);
        },
    };
    let ghost body0 = body;
    let ghost rest0 = tokens@;
    let r = match tokens.pop_front() {
        None => Err(SyntaxError::UnexpectedEndOfInput),
        Some(Token::CloseBrace) => Ok(FunctionDefinition::Function { name, body }),
        Some(_) => Err(SyntaxError::UnexpectedToken),
    };
    proof {
        let f = choose|f: nat|
            sp_statement(toks0.skip(5), f) == Some(
                Ok::<(Statement, Seq<Token>), SyntaxError>((body0, rest0)),
            );
        assert(sp_function_definition(toks0, f) is Some);
    }
    r
}

/// Parses a whole program: a single function definition.
pub fn parse_program_definition(tokens: &mut VecDeque<Token>) -> (r: Result<
    ProgramDefinition,
    SyntaxError,
>)
    ensures
        match r {
            Ok(p) => fn_parses(old(tokens)@, Ok((p->Program_0, final(tokens)@))),
            Err(er) => fn_parses(old(tokens)@, Err(er)),
        },
{
    let f = match parse_function_definition(tokens) {
        Ok(f) => f,
        Err(er) => {
            return Err(er);
        },
    };
    Ok(ProgramDefinition::Program(f))
}

} // verus!
