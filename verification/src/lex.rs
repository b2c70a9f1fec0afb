//! Lexical analysis: turns C source text into a sequence of tokens.
//!
//! Pattern matching at the current position is delegated to the `regex`
//! crate, exactly as the token definitions are written; everything the
//! lexer decides from those matches is verified against [`spec_lex_at`].

use vstd::prelude::*;
use vstd::string::*;

verus! {

#[derive(Debug, PartialEq)]
pub enum Token {
    IntKeyword,
    Identifier(String),
    OpenParenthesis,
    CloseParenthesis,
    OpenBrace,
    CloseBrace,
    ReturnKeyword,
    NumericConstant(u8),
    Semicolon,
    Minus,
    Tilde,
    Plus,
    Asterisk,
    ForwardSlash,
    Percent,
    DoubleLeftAngleBracket,
    DoubleRightAngleBracket,
    Ampersand,
    Pipe,
    /// Earlier spelling of the `~` operator token; still consumed by the
    /// simplified front end in [`crate::parse`].
    BitwiseComplementOperator,
    /// Earlier spelling of the `-` operator token; still consumed by the
    /// simplified front end in [`crate::parse`].
    NegationOperator,
}

/// Mathematical image of a token: identifier text as a character sequence.
pub enum TokenModel {
    IntKeyword,
    Identifier(Seq<char>),
    OpenParenthesis,
    CloseParenthesis,
    OpenBrace,
    CloseBrace,
    ReturnKeyword,
    NumericConstant(u8),
    Semicolon,
    Minus,
    Tilde,
    Plus,
    Asterisk,
    ForwardSlash,
    Percent,
    DoubleLeftAngleBracket,
    DoubleRightAngleBracket,
    Ampersand,
    Pipe,
    BitwiseComplementOperator,
    NegationOperator,
}

pub open spec fn token_model(t: Token) -> TokenModel {
    match t {
        Token::IntKeyword => TokenModel::IntKeyword,
        Token::Identifier(s) => TokenModel::Identifier(s@),
        Token::OpenParenthesis => TokenModel::OpenParenthesis,
        Token::CloseParenthesis => TokenModel::CloseParenthesis,
        Token::OpenBrace => TokenModel::OpenBrace,
        Token::CloseBrace => TokenModel::CloseBrace,
        Token::ReturnKeyword => TokenModel::ReturnKeyword,
        Token::NumericConstant(v) => TokenModel::NumericConstant(v),
        Token::Semicolon => TokenModel::Semicolon,
        Token::Minus => TokenModel::Minus,
        Token::Tilde => TokenModel::Tilde,
        Token::Plus => TokenModel::Plus,
        Token::Asterisk => TokenModel::Asterisk,
        Token::ForwardSlash => TokenModel::ForwardSlash,
        Token::Percent => TokenModel::Percent,
        Token::DoubleLeftAngleBracket => TokenModel::DoubleLeftAngleBracket,
        Token::DoubleRightAngleBracket => TokenModel::DoubleRightAngleBracket,
        Token::Ampersand => TokenModel::Ampersand,
        Token::Pipe => TokenModel::Pipe,
        Token::BitwiseComplementOperator => TokenModel::BitwiseComplementOperator,
        Token::NegationOperator => TokenModel::NegationOperator,
    }
}

/// A failure of lexical analysis, carrying the character position at which
/// it was detected.
#[derive(Debug, PartialEq, Eq, Clone, Copy)]
pub enum LexError {
    /// No token pattern matches at this position.
    UnrecognizedInput(usize),
    /// The decrement operator `--` is not part of the supported grammar.
    DecrementOperator(usize),
    /// A numeric constant does not fit the modeled byte-width value range.
    ConstantTooLarge(usize),
}

pub open spec fn is_space_char(c: char) -> bool {
    let u = c as u32;
    u == 32 || u == 9 || u == 10 || u == 13 || u == 11 || u == 12
}

pub open spec fn is_alpha_char(c: char) -> bool {
    let u = c as u32;
    (97 <= u && u <= 122) || (65 <= u && u <= 90)
}

pub open spec fn is_digit_char(c: char) -> bool {
    let u = c as u32;
    48 <= u && u <= 57
}

pub open spec fn is_word_char(c: char) -> bool {
    is_alpha_char(c) || is_digit_char(c) || c as u32 == 95
}

/// Length of the run of word characters starting at position `i`.
pub open spec fn word_run(s: Seq<char>, i: int) -> int
    decreases s.len() - i,
    when 0 <= i
{
    if i < s.len() && is_word_char(s[i]) {
        1 + word_run(s, i + 1)
    } else {
        0
    }
}

/// Length of the run of decimal digits starting at position `i`.
pub open spec fn digit_run(s: Seq<char>, i: int) -> int
    decreases s.len() - i,
    when 0 <= i
{
    if i < s.len() && is_digit_char(s[i]) {
        1 + digit_run(s, i + 1)
    } else {
        0
    }
}

/// A word run is nonnegative and stays inside the sequence.
pub proof fn lemma_word_run_bound(s: Seq<char>, i: int)
    requires
        0 <= i,
    ensures
        0 <= word_run(s, i),
        i <= s.len() ==> i + word_run(s, i) <= s.len(),
    decreases s.len() - i,
{
    if i < s.len() && is_word_char(s[i]) {
        lemma_word_run_bound(s, i + 1);
    }
}

/// A digit run is nonnegative, stays inside the sequence, and covers only
/// digit characters.
pub proof fn lemma_digit_run_bound(s: Seq<char>, i: int)
    requires
        0 <= i,
    ensures
        0 <= digit_run(s, i),
        i <= s.len() ==> i + digit_run(s, i) <= s.len(),
        forall|k: int| i <= k < i + digit_run(s, i) ==> is_digit_char(#[trigger] s[k]),
    decreases s.len() - i,
{
    if i < s.len() && is_digit_char(s[i]) {
        lemma_digit_run_bound(s, i + 1);
    }
}

pub open spec fn spec_digit_val(c: char) -> nat {
    if c == '0' {
        0
    } else if c == '1' {
        1
    } else if c == '2' {
        2
    } else if c == '3' {
        3
    } else if c == '4' {
        4
    } else if c == '5' {
        5
    } else if c == '6' {
        6
    } else if c == '7' {
        7
    } else if c == '8' {
        8
    } else {
        9
    }
}

/// Numeric value of a sequence of decimal digits, most significant first.
pub open spec fn digits_value(ds: Seq<char>) -> nat
    decreases ds.len(),
{
    if ds.len() == 0 {
        0
    } else {
        digits_value(ds.drop_last()) * 10 + spec_digit_val(ds.last())
    }
}

/// The keyword `int` starting at `i`, followed by a word boundary.
pub open spec fn kw_int_at(s: Seq<char>, i: int) -> bool {
    &&& i + 3 <= s.len()
    &&& s[i] == 'i'
    &&& s[i + 1] == 'n'
    &&& s[i + 2] == 't'
    &&& (i + 3 == s.len() || !is_word_char(s[i + 3]))
}

/// The keyword `return` starting at `i`, followed by a word boundary.
pub open spec fn kw_return_at(s: Seq<char>, i: int) -> bool {
    &&& i + 6 <= s.len()
    &&& s[i] == 'r'
    &&& s[i + 1] == 'e'
    &&& s[i + 2] == 't'
    &&& s[i + 3] == 'u'
    &&& s[i + 4] == 'r'
    &&& s[i + 5] == 'n'
    &&& (i + 6 == s.len() || !is_word_char(s[i + 6]))
}

pub open spec fn lex_cons(t: TokenModel, rest: Result<Seq<TokenModel>, LexError>) -> Result<
    Seq<TokenModel>,
    LexError,
> {
    match rest {
        Ok(ts) => Ok(seq![t] + ts),
        Err(e) => Err(e),
    }
}

/// The tokens of `s` from position `i` on, or the error the lexer reports.
/// The alternatives are tried in the same order as the token patterns.
pub open spec fn spec_lex_at(s: Seq<char>, i: int) -> Result<Seq<TokenModel>, LexError>
    decreases s.len() - i,
    when 0 <= i
    via spec_lex_at_decreases
{
    if i >= s.len() {
        Ok(seq![])
    } else if is_space_char(s[i]) {
        spec_lex_at(s, i + 1)
    } else if kw_int_at(s, i) {
        lex_cons(TokenModel::IntKeyword, spec_lex_at(s, i + 3))
    } else if kw_return_at(s, i) {
        lex_cons(TokenModel::ReturnKeyword, spec_lex_at(s, i + 6))
    } else if is_alpha_char(s[i]) {
        lex_cons(
            TokenModel::Identifier(s.subrange(i, i + 1 + word_run(s, i + 1))),
            spec_lex_at(s, i + 1 + word_run(s, i + 1)),
        )
    } else if s[i] == '(' {
        lex_cons(TokenModel::OpenParenthesis, spec_lex_at(s, i + 1))
    } else if s[i] == ')' {
        lex_cons(TokenModel::CloseParenthesis, spec_lex_at(s, i + 1))
    } else if s[i] == '{' {
        lex_cons(TokenModel::OpenBrace, spec_lex_at(s, i + 1))
    } else if s[i] == '}' {
        lex_cons(TokenModel::CloseBrace, spec_lex_at(s, i + 1))
    } else if is_digit_char(s[i]) {
        if i + digit_run(s, i) < s.len() && is_word_char(s[i + digit_run(s, i)]) {
            Err(LexError::UnrecognizedInput(i as usize))
        } else if digits_value(s.subrange(i, i + digit_run(s, i))) > 255 {
            Err(LexError::ConstantTooLarge(i as usize))
        } else {
            lex_cons(
                TokenModel::NumericConstant(digits_value(s.subrange(i, i + digit_run(s, i))) as u8),
                spec_lex_at(s, i + digit_run(s, i)),
            )
        }
    } else if s[i] == ';' {
        lex_cons(TokenModel::Semicolon, spec_lex_at(s, i + 1))
    } else if s[i] == '-' && i + 1 < s.len() && s[i + 1] == '-' {
        Err(LexError::DecrementOperator(i as usize))
    } else if s[i] == '-' {
        lex_cons(TokenModel::Minus, spec_lex_at(s, i + 1))
    } else if s[i] == '~' {
        lex_cons(TokenModel::Tilde, spec_lex_at(s, i + 1))
    } else if s[i] == '+' {
        lex_cons(TokenModel::Plus, spec_lex_at(s, i + 1))
    } else if s[i] == '*' {
        lex_cons(TokenModel::Asterisk, spec_lex_at(s, i + 1))
    } else if s[i] == '/' {
        lex_cons(TokenModel::ForwardSlash, spec_lex_at(s, i + 1))
    } else if s[i] == '%' {
        lex_cons(TokenModel::Percent, spec_lex_at(s, i + 1))
    } else if s[i] == '<' && i + 1 < s.len() && s[i + 1] == '<' {
        lex_cons(TokenModel::DoubleLeftAngleBracket, spec_lex_at(s, i + 2))
    } else if s[i] == '>' && i + 1 < s.len() && s[i + 1] == '>' {
        lex_cons(TokenModel::DoubleRightAngleBracket, spec_lex_at(s, i + 2))
    } else if s[i] == '&' {
        lex_cons(TokenModel::Ampersand, spec_lex_at(s, i + 1))
    } else if s[i] == '|' {
        lex_cons(TokenModel::Pipe, spec_lex_at(s, i + 1))
    } else {
        Err(LexError::UnrecognizedInput(i as usize))
    }
}

#[via_fn]
proof fn spec_lex_at_decreases(s: Seq<char>, i: int) {
    lemma_word_run_bound(s, i + 1);
    lemma_digit_run_bound(s, i);
}

/// Relies on `regex::Regex::find` with the anchored pattern `^\s+`: the
/// result is the length of the maximal run of leading whitespace.
#[verifier::external_body]
fn leading_whitespace_len(s: &str) -> (r: usize)
    requires
        s.is_ascii(),
    ensures
        r <= s@.len(),
        forall|k: int| 0 <= k < r ==> is_space_char(#[trigger] s@[k]),
        r < s@.len() ==> !is_space_char(s@[r as int]),
{
    let re = regex::Regex::new(r"^\s+").unwrap();
    match re.find(s) {
        Some(m) => m.end(),
        None => 0,
    }
}

/// Relies on `regex::Regex::find` with the anchored pattern `^[a-zA-Z]\w*\b`:
/// an identifier is a letter followed by the maximal run of word characters.
#[verifier::external_body]
fn identifier_len(s: &str) -> (r: usize)
    requires
        s.is_ascii(),
    ensures
        r <= s@.len(),
        (r > 0) == (s@.len() > 0 && is_alpha_char(s@[0])),
        r > 0 ==> r == 1 + word_run(s@, 1),
{
    let re = regex::Regex::new(r"^[a-zA-Z]\w*\b").unwrap();
    match re.find(s) {
        Some(m) => m.end(),
        None => 0,
    }
}

/// Relies on `regex::Regex::find` with the anchored pattern `^[0-9]+\b`: a
/// run of digits matches only when not followed by a further word character.
#[verifier::external_body]
fn numeric_len(s: &str) -> (r: usize)
    requires
        s.is_ascii(),
    ensures
        r <= s@.len(),
        (r > 0) == (s@.len() > 0 && is_digit_char(s@[0]) && (digit_run(s@, 0) == s@.len()
            || !is_word_char(s@[digit_run(s@, 0)]))),
        r > 0 ==> r == digit_run(s@, 0),
{
    let re = regex::Regex::new(r"^[0-9]+\b").unwrap();
    match re.find(s) {
        Some(m) => m.end(),
        None => 0,
    }
}

/// Relies on `regex::Regex::is_match` with the literal text escaped by
/// `regex::escape` and anchored at the start of the haystack. The literal
/// must be short: `Regex::new` rejects patterns whose compiled form
/// exceeds its default size limit, and the bound keeps the escaped
/// literal far below it, so the call always returns.
#[verifier::external_body]
fn literal_at_start(s: &str, lit: &str) -> (r: bool)
    requires
        lit@.len() <= 64,
    ensures
        r == (lit@.len() <= s@.len() && s@.subrange(0, lit@.len() as int) =~= lit@),
{
    let pattern = format!("^{}", regex::escape(lit));
    regex::Regex::new(&pattern).unwrap().is_match(s)
}

/// Skipping whitespace does not change the lexer's result.
proof fn lemma_lex_skip_spaces(s: Seq<char>, i: int, j: int)
    requires
        0 <= i <= j <= s.len(),
        forall|k: int| i <= k < j ==> is_space_char(#[trigger] s[k]),
    ensures
        spec_lex_at(s, i) == spec_lex_at(s, j),
    decreases j - i,
{
    if i < j {
        lemma_lex_skip_spaces(s, i + 1, j);
    }
}

/// One lexing step: when position `i` yields token `t` and continues at
/// `j`, the tokens already gathered extend by `t`.
proof fn lemma_lex_step(s: Seq<char>, i: int, j: int, pre: Seq<TokenModel>, t: TokenModel)
    requires
        spec_lex_at(s, i) == lex_cons(t, spec_lex_at(s, j)),
        spec_lex_at(s, 0) == (match spec_lex_at(s, i) {
            Ok(ts) => Ok::<Seq<TokenModel>, LexError>(pre + ts),
            Err(e) => Err::<Seq<TokenModel>, LexError>(e),
        }),
    ensures
        spec_lex_at(s, 0) == (match spec_lex_at(s, j) {
            Ok(ts) => Ok::<Seq<TokenModel>, LexError>((pre + seq![t]) + ts),
            Err(e) => Err::<Seq<TokenModel>, LexError>(e),
        }),
{
    match spec_lex_at(s, j) {
        Ok(ts) => {
            assert(pre + (seq![t] + ts) =~= (pre + seq![t]) + ts);
        },
        Err(_) => {},
    }
}

/// The value of a digit sequence never shrinks as digits are appended.
proof fn lemma_digits_value_prefix(ds: Seq<char>, j: int)
    requires
        0 <= j <= ds.len(),
    ensures
        digits_value(ds.subrange(0, j)) <= digits_value(ds),
    decreases ds.len() - j,
{
    if j < ds.len() {
        lemma_digits_value_prefix(ds, j + 1);
        let p = ds.subrange(0, j + 1);
        assert(p.drop_last() =~= ds.subrange(0, j));
        assert(digits_value(ds.subrange(0, j)) <= digits_value(ds.subrange(0, j + 1)));
    } else {
        assert(ds.subrange(0, j) =~= ds);
    }
}

/// A word run depends only on the characters from its start on.
proof fn lemma_word_run_shift(s: Seq<char>, b: int, j: int)
    requires
        0 <= b,
        0 <= j,
        b + j <= s.len(),
    ensures
        word_run(s.subrange(b, s.len() as int), j) == word_run(s, b + j),
    decreases s.len() - b - j,
{
    if b + j < s.len() && is_word_char(s[b + j]) {
        lemma_word_run_shift(s, b, j + 1);
    }
}

/// A digit run depends only on the characters from its start on.
proof fn lemma_digit_run_shift(s: Seq<char>, b: int, j: int)
    requires
        0 <= b,
        0 <= j,
        b + j <= s.len(),
    ensures
        digit_run(s.subrange(b, s.len() as int), j) == digit_run(s, b + j),
    decreases s.len() - b - j,
{
    if b + j < s.len() && is_digit_char(s[b + j]) {
        lemma_digit_run_shift(s, b, j + 1);
    }
}

fn is_word_char_x(c: char) -> (r: bool)
    ensures
        r == is_word_char(c),
{
    let u = c as u32;
    (97 <= u && u <= 122) || (65 <= u && u <= 90) || (48 <= u && u <= 57) || u == 95
}

fn digit_val_x(c: char) -> (d: u8)
    requires
        is_digit_char(c),
    ensures
        d as nat == spec_digit_val(c),
        d <= 9,
{
    match c {
        '0' => 0,
        '1' => 1,
        '2' => 2,
        '3' => 3,
        '4' => 4,
        '5' => 5,
        '6' => 6,
        '7' => 7,
        '8' => 8,
        _ => 9,
    }
}

/// A one-character literal matches at the start exactly when the first
/// character is that character.
proof fn lemma_single_char(s: Seq<char>, lit: Seq<char>, c: char)
    requires
        lit =~= seq![c],
    ensures
        (1 <= s.len() && s.subrange(0, 1) =~= lit) == (s.len() >= 1 && s[0] == c),
{
    if 1 <= s.len() {
        assert(s.subrange(0, 1) =~= seq![s[0]]);
        if s.subrange(0, 1) =~= lit {
            assert(s[0] == lit[0]);
        }
        if s[0] == c {
            assert(s.subrange(0, 1) =~= lit);
        }
    }
}

/// A two-character literal matches at the start exactly when the first two
/// characters are those characters.
proof fn lemma_double_char(s: Seq<char>, lit: Seq<char>, c0: char, c1: char)
    requires
        lit =~= seq![c0, c1],
    ensures
        (2 <= s.len() && s.subrange(0, 2) =~= lit) == (s.len() >= 2 && s[0] == c0 && s[1] == c1),
{
    if 2 <= s.len() {
        assert(s.subrange(0, 2) =~= seq![s[0], s[1]]);
        if s.subrange(0, 2) =~= lit {
            assert(s[0] == lit[0] && s[1] == lit[1]);
        }
        if s[0] == c0 && s[1] == c1 {
            assert(s.subrange(0, 2) =~= lit);
        }
    }
}

/// Reads the value of the digit run `text[i .. i + d]`; reports the
/// position `at` when the value exceeds the byte-width value range.
fn digit_run_value(text: &str, i: usize, d: usize, at: usize) -> (r: Result<u8, LexError>)
    requires
        text.is_ascii(),
        i + d <= text@.len(),
        i + d <= usize::MAX,
        forall|k: int| i <= k < i + d ==> is_digit_char(#[trigger] text@[k]),
    ensures
        match r {
            Ok(v) => digits_value(text@.subrange(i as int, i + d)) <= 255 && v as nat
                == digits_value(text@.subrange(i as int, i + d)),
            Err(e) => digits_value(text@.subrange(i as int, i + d)) > 255 && e
                == LexError::ConstantTooLarge(at),
        },
{
    let ghost whole = text@.subrange(i as int, i + d);
    let mut val: u32 = 0;
    let mut k: usize = 0;
    while k < d
        invariant
            text.is_ascii(),
            i + d <= text@.len(),
            i + d <= usize::MAX,
            forall|m: int| i <= m < i + d ==> is_digit_char(#[trigger] text@[m]),
            whole == text@.subrange(i as int, i + d),
            k <= d,
            val <= 255,
            val as nat == digits_value(whole.subrange(0, k as int)),
        decreases d - k,
    {
        let c = text.get_char(i + k);
        let dv = digit_val_x(c);
        val = val * 10 + (dv as u32);
        proof {
            let p = whole.subrange(0, k + 1);
            assert(p.drop_last() =~= whole.subrange(0, k as int));
            assert(p.last() == text@[i + k]);
        }
        k = k + 1;
        if val > 255 {
            proof {
                lemma_digits_value_prefix(whole, k as int);
            }
            return Err(LexError::ConstantTooLarge(at));
        }
    }
    proof {
        assert(whole.subrange(0, d as int) =~= whole);
    }
    Ok(val as u8)
}

/// Turns C source text into tokens, or reports the first lexical failure.
/// The result is exactly what [`spec_lex_at`] says of the whole text.
#[verifier::rlimit(100)]
pub fn lex(text: &str) -> (r: Result<Vec<Token>, LexError>)
    requires
        text.is_ascii(),
    ensures
        match r {
            Ok(tokens) => spec_lex_at(text@, 0) == Ok::<Seq<TokenModel>, LexError>(
                tokens@.map_values(|t: Token| token_model(t)),
            ),
            Err(e) => spec_lex_at(text@, 0) == Err::<Seq<TokenModel>, LexError>(e),
        },
{
    let n = text.unicode_len();
    let mut idx: usize = 0;
    let mut tokens: Vec<Token> = Vec::new();
    while idx < n
        invariant
            text.is_ascii(),
            n == text@.len(),
            idx <= n,
            spec_lex_at(text@, 0) == (match spec_lex_at(text@, idx as int) {
                Ok(ts) => Ok::<Seq<TokenModel>, LexError>(
                    tokens@.map_values(|t: Token| token_model(t)) + ts,
                ),
                Err(e) => Err::<Seq<TokenModel>, LexError>(e),
            }),
        decreases n - idx,
    {
        let ghost s = text@;
        let ghost i = idx as int;
        let ghost toks0 = tokens@;
        let rest = text.substring_ascii(idx, n);
        proof {
            assert(rest@ =~= s.subrange(i, n as int));
            assert(forall|k: int| 0 <= k < rest@.len() ==> #[trigger] rest@[k] == s[i + k]);
            reveal_strlit("int");
            reveal_strlit("return");
            reveal_strlit("(");
            reveal_strlit(")");
            reveal_strlit("{");
            reveal_strlit("}");
            reveal_strlit(";");
            reveal_strlit("--");
            reveal_strlit("-");
            lemma_single_char(rest@, "("@, '(');
            lemma_single_char(rest@, ")"@, ')');
            lemma_single_char(rest@, "{"@, '{');
            lemma_single_char(rest@, "}"@, '}');
            lemma_single_char(rest@, ";"@, ';');
            lemma_single_char(rest@, "-"@, '-');
            lemma_double_char(rest@, "--"@, '-', '-');
            lemma_word_run_shift(s, i, 1);
            lemma_digit_run_shift(s, i, 0);
            lemma_word_run_bound(s, i + 1);
            lemma_digit_run_bound(s, i);
        }
        let rest_n = n - idx;
        assert(rest@.len() == rest_n);

        let ws = leading_whitespace_len(rest);
        if ws > 0 {
            proof {
                assert forall|k: int| i <= k < i + ws implies is_space_char(#[trigger] s[k]) by {
                    assert(rest@[k - i] == s[k]);
                    assert(is_space_char(rest@[k - i]));
                }
                lemma_lex_skip_spaces(s, i, i + ws);
            }
            idx = idx + ws;
        } else if literal_at_start(rest, "int") && (rest_n == 3 || !is_word_char_x(
            rest.get_char(3),
        )) {
            proof {
                assert(rest@.subrange(0, 3) =~= seq![s[i], s[i + 1], s[i + 2]]);
                assert(kw_int_at(s, i));
                assert(spec_lex_at(s, i) == lex_cons(TokenModel::IntKeyword, spec_lex_at(s, i + 3)));
                lemma_lex_step(s, i, i + 3, toks0.map_values(|t: Token| token_model(t)), TokenModel::IntKeyword);
            }
            tokens.push(Token::IntKeyword);
            idx = idx + 3;
            proof {
                assert(tokens@.map_values(|t: Token| token_model(t)) =~= toks0.map_values(
                    |t: Token| token_model(t),
                ) + seq![TokenModel::IntKeyword]);
            }
        } else if literal_at_start(rest, "return") && (rest_n == 6 || !is_word_char_x(
            rest.get_char(6),
        )) {
            proof {
                assert(rest@.subrange(0, 6) =~= seq![
                    s[i],
                    s[i + 1],
                    s[i + 2],
                    s[i + 3],
                    s[i + 4],
                    s[i + 5],
                ]);
                assert(kw_return_at(s, i));
                if kw_int_at(s, i) {
                    assert(rest@.subrange(0, 3) =~= seq!['i', 'n', 't']);
                    assert(rest@.subrange(0, 3) =~= "int"@);
                }
                assert(spec_lex_at(s, i) == lex_cons(TokenModel::ReturnKeyword, spec_lex_at(s, i + 6)));
                lemma_lex_step(s, i, i + 6, toks0.map_values(|t: Token| token_model(t)), TokenModel::ReturnKeyword);
            }
            tokens.push(Token::ReturnKeyword);
            idx = idx + 6;
            proof {
                assert(tokens@.map_values(|t: Token| token_model(t)) =~= toks0.map_values(
                    |t: Token| token_model(t),
                ) + seq![TokenModel::ReturnKeyword]);
            }
        } else {
            proof {
                if kw_int_at(s, i) {
                    assert(rest@.subrange(0, 3) =~= seq!['i', 'n', 't']);
                    assert(rest@.subrange(0, 3) =~= "int"@);
                }
                if kw_return_at(s, i) {
                    assert(rest@.subrange(0, 6) =~= seq!['r', 'e', 't', 'u', 'r', 'n']);
                    assert(rest@.subrange(0, 6) =~= "return"@);
                }
                assert(!kw_int_at(s, i));
                assert(!kw_return_at(s, i));
            }
            let il = identifier_len(rest);
            if il > 0 {
                proof {
                    assert(il == 1 + word_run(s, i + 1));
                    assert(rest@.subrange(0, il as int) =~= s.subrange(i, i + il));
                    assert(spec_lex_at(s, i) == lex_cons(
                        TokenModel::Identifier(s.subrange(i, i + il)),
                        spec_lex_at(s, i + il),
                    ));
                    lemma_lex_step(s, i, i + il, toks0.map_values(|t: Token| token_model(t)), TokenModel::Identifier(s.subrange(i, i + il)));
                }
                let name = text.substring_ascii(idx, idx + il);
                tokens.push(Token::Identifier(String::from_str(name)));
                idx = idx + il;
                proof {
                    assert(tokens@.map_values(|t: Token| token_model(t)) =~= toks0.map_values(
                        |t: Token| token_model(t),
                    ) + seq![TokenModel::Identifier(s.subrange(i, i as int + il))]);
                }
            } else if literal_at_start(rest, "(") {
                proof {
                    assert(spec_lex_at(s, i) == lex_cons(TokenModel::OpenParenthesis, spec_lex_at(s, i + 1)));
                    lemma_lex_step(s, i, i + 1, toks0.map_values(|t: Token| token_model(t)), TokenModel::OpenParenthesis);
                }
                tokens.push(Token::OpenParenthesis);
                idx = idx + 1;
                proof {
                    assert(tokens@.map_values(|t: Token| token_model(t)) =~= toks0.map_values(
                        |t: Token| token_model(t),
                    ) + seq![TokenModel::OpenParenthesis]);
                }
            } else if literal_at_start(rest, ")") {
                proof {
                    assert(spec_lex_at(s, i) == lex_cons(TokenModel::CloseParenthesis, spec_lex_at(s, i + 1)));
                    lemma_lex_step(s, i, i + 1, toks0.map_values(|t: Token| token_model(t)), TokenModel::CloseParenthesis);
                }
                tokens.push(Token::CloseParenthesis);
                idx = idx + 1;
                proof {
                    assert(tokens@.map_values(|t: Token| token_model(t)) =~= toks0.map_values(
                        |t: Token| token_model(t),
                    ) + seq![TokenModel::CloseParenthesis]);
                }
            } else if literal_at_start(rest, "{") {
                proof {
                    assert(spec_lex_at(s, i) == lex_cons(TokenModel::OpenBrace, spec_lex_at(s, i + 1)));
                    lemma_lex_step(s, i, i + 1, toks0.map_values(|t: Token| token_model(t)), TokenModel::OpenBrace);
                }
                tokens.push(Token::OpenBrace);
                idx = idx + 1;
                proof {
                    assert(tokens@.map_values(|t: Token| token_model(t)) =~= toks0.map_values(
                        |t: Token| token_model(t),
                    ) + seq![TokenModel::OpenBrace]);
                }
            } else if literal_at_start(rest, "}") {
                proof {
                    assert(spec_lex_at(s, i) == lex_cons(TokenModel::CloseBrace, spec_lex_at(s, i + 1)));
                    lemma_lex_step(s, i, i + 1, toks0.map_values(|t: Token| token_model(t)), TokenModel::CloseBrace);
                }
                tokens.push(Token::CloseBrace);
                idx = idx + 1;
                proof {
                    assert(tokens@.map_values(|t: Token| token_model(t)) =~= toks0.map_values(
                        |t: Token| token_model(t),
                    ) + seq![TokenModel::CloseBrace]);
                }
            } else {
                let nl = numeric_len(rest);
                let is_digit_first = rest_n > 0 && {
                    let c0 = rest.get_char(0);
                    let u = c0 as u32;
                    48 <= u && u <= 57
                };
                if nl > 0 {
                    proof {
                        assert(nl == digit_run(s, i));
                        assert(rest@.subrange(0, nl as int) =~= s.subrange(i, i + nl));
                        assert(forall|k: int|
                            i <= k < i + nl ==> is_digit_char(#[trigger] s[k]));
                    }
                    match digit_run_value(text, idx, nl, idx) {
                        Ok(v) => {
                            proof {
                                assert(spec_lex_at(s, i) == lex_cons(
                                    TokenModel::NumericConstant(v),
                                    spec_lex_at(s, i + nl),
                                ));
                                lemma_lex_step(s, i, i + nl, toks0.map_values(|t: Token| token_model(t)), TokenModel::NumericConstant(v));
                            }
                            tokens.push(Token::NumericConstant(v));
                            idx = idx + nl;
                            proof {
                                assert(tokens@.map_values(|t: Token| token_model(t))
                                    =~= toks0.map_values(|t: Token| token_model(t)) + seq![
                                    TokenModel::NumericConstant(v),
                                ]);
                            }
                        },
                        Err(e) => {
                            proof {
                                assert(spec_lex_at(s, i) == Err::<Seq<TokenModel>, LexError>(e));
                            }
                            return Err(e);
                        },
                    }
                } else if is_digit_first {
                    // A digit run followed by a word character matches no
                    // token pattern at all.
                    proof {
                        assert(spec_lex_at(s, i) == Err::<Seq<TokenModel>, LexError>(
                            LexError::UnrecognizedInput(i as usize),
                        ));
                    }
                    return Err(LexError::UnrecognizedInput(idx));
                } else if literal_at_start(rest, ";") {
                    proof {
                        assert(spec_lex_at(s, i) == lex_cons(TokenModel::Semicolon, spec_lex_at(s, i + 1)));
                        lemma_lex_step(s, i, i + 1, toks0.map_values(|t: Token| token_model(t)), TokenModel::Semicolon);
                    }
                    tokens.push(Token::Semicolon);
                    idx = idx + 1;
                    proof {
                        assert(tokens@.map_values(|t: Token| token_model(t)) =~= toks0.map_values(
                            |t: Token| token_model(t),
                        ) + seq![TokenModel::Semicolon]);
                    }
                } else if literal_at_start(rest, "--") {
                    proof {
                        assert(spec_lex_at(s, i) == Err::<Seq<TokenModel>, LexError>(
                            LexError::DecrementOperator(i as usize),
                        ));
                    }
                    return Err(LexError::DecrementOperator(idx));
                } else if literal_at_start(rest, "-") {
                    proof {
                        assert(spec_lex_at(s, i) == lex_cons(TokenModel::Minus, spec_lex_at(s, i + 1)));
                        lemma_lex_step(s, i, i + 1, toks0.map_values(|t: Token| token_model(t)), TokenModel::Minus);
                    }
                    tokens.push(Token::Minus);
                    idx = idx + 1;
                    proof {
                        assert(tokens@.map_values(|t: Token| token_model(t)) =~= toks0.map_values(
                            |t: Token| token_model(t),
                        ) + seq![TokenModel::Minus]);
                    }
                } else {
                    let t = lex_punctuation(rest, Ghost(s), Ghost(i), idx)?;
                    let ghost tm = token_model(t);
                    let step: usize = match t {
                        Token::DoubleLeftAngleBracket | Token::DoubleRightAngleBracket => 2,
                        _ => 1,
                    };
                    proof {
                        lemma_lex_step(s, i, i + step, toks0.map_values(|t: Token| token_model(t)), tm);
                    }
                    tokens.push(t);
                    idx = idx + step;
                    proof {
                        assert(tokens@.map_values(|t: Token| token_model(t)) =~= toks0.map_values(
                            |t: Token| token_model(t),
                        ) + seq![tm]);
                    }
                }
            }
        }
    }
    proof {
        assert(tokens@.map_values(|t: Token| token_model(t)) + Seq::<TokenModel>::empty()
            =~= tokens@.map_values(|t: Token| token_model(t)));
    }
    Ok(tokens)
}

/// The single-character operators and the two shift digraphs, tried in the
/// same order as the lexer's remaining token patterns.
fn lex_punctuation(rest: &str, Ghost(s): Ghost<Seq<char>>, Ghost(i): Ghost<int>, at: usize) -> (r:
    Result<Token, LexError>)
    requires
        0 <= i,
        i + rest@.len() == s.len(),
        rest@ =~= s.subrange(i, s.len() as int),
        rest@.len() > 0,
        !is_space_char(s[i]),
        !kw_int_at(s, i),
        !kw_return_at(s, i),
        !is_alpha_char(s[i]),
        s[i] != '(' && s[i] != ')' && s[i] != '{' && s[i] != '}',
        !is_digit_char(s[i]),
        s[i] != ';' && s[i] != '-',
        at == i,
    ensures
        match r {
            Ok(t) => {
                let step: int = match t {
                    Token::DoubleLeftAngleBracket | Token::DoubleRightAngleBracket => 2,
                    _ => 1,
                };
                &&& i + step <= s.len()
                &&& spec_lex_at(s, i) == lex_cons(token_model(t), spec_lex_at(s, i + step))
                &&& (t is Tilde || t is Plus || t is Asterisk || t is ForwardSlash || t is Percent
                    || t is DoubleLeftAngleBracket || t is DoubleRightAngleBracket || t is Ampersand
                    || t is Pipe)
            },
            Err(e) => spec_lex_at(s, i) == Err::<Seq<TokenModel>, LexError>(e),
        },
{
    proof {
        assert(forall|k: int| 0 <= k < rest@.len() ==> #[trigger] rest@[k] == s[i + k]);
        reveal_strlit("~");
        reveal_strlit("+");
        reveal_strlit("*");
        reveal_strlit("/");
        reveal_strlit("%");
        reveal_strlit("<<");
        reveal_strlit(">>");
        reveal_strlit("&");
        reveal_strlit("|");
        lemma_single_char(rest@, "~"@, '~');
        lemma_single_char(rest@, "+"@, '+');
        lemma_single_char(rest@, "*"@, '*');
        lemma_single_char(rest@, "/"@, '/');
        lemma_single_char(rest@, "%"@, '%');
        lemma_double_char(rest@, "<<"@, '<', '<');
        lemma_double_char(rest@, ">>"@, '>', '>');
        lemma_single_char(rest@, "&"@, '&');
        lemma_single_char(rest@, "|"@, '|');
    }
    if literal_at_start(rest, "~") {
        Ok(Token::Tilde)
    } else if literal_at_start(rest, "+") {
        Ok(Token::Plus)
    } else if literal_at_start(rest, "*") {
        Ok(Token::Asterisk)
    } else if literal_at_start(rest, "/") {
        Ok(Token::ForwardSlash)
    } else if literal_at_start(rest, "%") {
        Ok(Token::Percent)
    } else if literal_at_start(rest, "<<") {
        Ok(Token::DoubleLeftAngleBracket)
    } else if literal_at_start(rest, ">>") {
        Ok(Token::DoubleRightAngleBracket)
    } else if literal_at_start(rest, "&") {
        Ok(Token::Ampersand)
    } else if literal_at_start(rest, "|") {
        Ok(Token::Pipe)
    } else {
        Err(LexError::UnrecognizedInput(at))
    }
}

} // verus!
