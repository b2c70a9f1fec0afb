use c_compiler::lex::lex;
use c_compiler::lex::LexError;
use c_compiler::lex::Token;

#[test]
fn create_int_keyword_token_when_found_at_start_of_string() {
    let source_code_string = "int";
    let expected_tokens = vec![Token::IntKeyword];
    let tokens = lex(source_code_string).unwrap();
    assert_eq!(tokens, expected_tokens);
}

#[test]
fn create_int_keyword_and_main_identifier_tokens() {
    let source_code_string = "int main";
    let expected_tokens = vec![Token::IntKeyword, Token::Identifier("main".to_string())];
    let tokens = lex(source_code_string).unwrap();
    assert_eq!(tokens, expected_tokens);
}

#[test]
fn open_parenthesis_token_is_created() {
    let source_code_string = "int main(";
    let expected_last_token = Token::OpenParenthesis;
    let tokens = lex(source_code_string).unwrap();
    assert_eq!(tokens[tokens.len() - 1], expected_last_token);
}

#[test]
fn close_parenthesis_token_is_created() {
    let source_code_string = "int main()";
    let expected_last_token = Token::CloseParenthesis;
    let tokens = lex(source_code_string).unwrap();
    assert_eq!(tokens[tokens.len() - 1], expected_last_token);
}

#[test]
fn open_brace_token_is_created() {
    let source_code_string = "int main() {";
    let expected_last_token = Token::OpenBrace;
    let tokens = lex(source_code_string).unwrap();
    assert_eq!(tokens[tokens.len() - 1], expected_last_token);
}

#[test]
fn close_brace_token_is_created() {
    let source_code_string = "int main() {}";
    let expected_last_token = Token::CloseBrace;
    let tokens = lex(source_code_string).unwrap();
    assert_eq!(tokens[tokens.len() - 1], expected_last_token);
}

#[test]
fn return_keyword_token_is_created() {
    let source_code_string = "int main() {return";
    let expected_last_token = Token::ReturnKeyword;
    let tokens = lex(source_code_string).unwrap();
    assert_eq!(tokens[tokens.len() - 1], expected_last_token);
}

#[test]
fn numeric_constant_token_is_created_with_correct_value() {
    let source_code_string = "int main() {return 2";
    let expected_last_token = Token::NumericConstant(2);
    let tokens = lex(source_code_string).unwrap();
    assert_eq!(tokens[tokens.len() - 1], expected_last_token);
}

#[test]
fn semicolon_token_is_created() {
    let source_code_string = "int main() {return 2;";
    let expected_last_token = Token::Semicolon;
    let tokens = lex(source_code_string).unwrap();
    assert_eq!(tokens[tokens.len() - 1], expected_last_token);
}

#[test]
fn get_correct_tokens_despite_newline_characters() {
    let source_code_string = "
int main() {
    return 2;

}
";
    let expected_tokens = vec![
        Token::IntKeyword,
        Token::Identifier("main".to_string()),
        Token::OpenParenthesis,
        Token::CloseParenthesis,
        Token::OpenBrace,
        Token::ReturnKeyword,
        Token::NumericConstant(2),
        Token::Semicolon,
        Token::CloseBrace,
    ];
    let tokens = lex(source_code_string).unwrap();
    assert_eq!(tokens, expected_tokens);
}

#[test]
fn minus_character_token_is_created() {
    let source_code_string = "int main() {return -2;}";
    let expected_tokens = vec![
        Token::IntKeyword,
        Token::Identifier("main".to_string()),
        Token::OpenParenthesis,
        Token::CloseParenthesis,
        Token::OpenBrace,
        Token::ReturnKeyword,
        Token::Minus,
        Token::NumericConstant(2),
        Token::Semicolon,
        Token::CloseBrace,
    ];
    let tokens = lex(source_code_string).unwrap();
    assert_eq!(tokens, expected_tokens);
}

#[test]
fn tilde_token_is_created() {
    let source_code_string = "int main() {return ~(-2);}";
    let expected_tokens = vec![
        Token::IntKeyword,
        Token::Identifier("main".to_string()),
        Token::OpenParenthesis,
        Token::CloseParenthesis,
        Token::OpenBrace,
        Token::ReturnKeyword,
        Token::Tilde,
        Token::OpenParenthesis,
        Token::Minus,
        Token::NumericConstant(2),
        Token::CloseParenthesis,
        Token::Semicolon,
        Token::CloseBrace,
    ];
    let tokens = lex(source_code_string).unwrap();
    assert_eq!(tokens, expected_tokens);
}

#[test]
fn plus_character_token_is_created() {
    let source_code_string = "int main() {return 2+";
    let expected_tokens = vec![
        Token::IntKeyword,
        Token::Identifier("main".to_string()),
        Token::OpenParenthesis,
        Token::CloseParenthesis,
        Token::OpenBrace,
        Token::ReturnKeyword,
        Token::NumericConstant(2),
        Token::Plus,
    ];
    let tokens = lex(source_code_string).unwrap();
    assert_eq!(tokens, expected_tokens);
}

#[test]
fn asterisk_character_token_is_created() {
    let source_code_string = "int main() {return 2*";
    let expected_tokens = vec![
        Token::IntKeyword,
        Token::Identifier("main".to_string()),
        Token::OpenParenthesis,
        Token::CloseParenthesis,
        Token::OpenBrace,
        Token::ReturnKeyword,
        Token::NumericConstant(2),
        Token::Asterisk,
    ];
    let tokens = lex(source_code_string).unwrap();
    assert_eq!(tokens, expected_tokens);
}

#[test]
fn forward_slash_character_token_is_created() {
    let source_code_string = "int main() {return 2/";
    let expected_tokens = vec![
        Token::IntKeyword,
        Token::Identifier("main".to_string()),
        Token::OpenParenthesis,
        Token::CloseParenthesis,
        Token::OpenBrace,
        Token::ReturnKeyword,
        Token::NumericConstant(2),
        Token::ForwardSlash,
    ];
    let tokens = lex(source_code_string).unwrap();
    assert_eq!(tokens, expected_tokens);
}

#[test]
fn percent_character_token_is_created() {
    let source_code_string = "int main() {return 2%";
    let expected_tokens = vec![
        Token::IntKeyword,
        Token::Identifier("main".to_string()),
        Token::OpenParenthesis,
        Token::CloseParenthesis,
        Token::OpenBrace,
        Token::ReturnKeyword,
        Token::NumericConstant(2),
        Token::Percent,
    ];
    let tokens = lex(source_code_string).unwrap();
    assert_eq!(tokens, expected_tokens);
}

#[test]
fn double_left_angle_bracket_token_is_created() {
    let source_code_string = "<<";
    let expected_tokens = vec![Token::DoubleLeftAngleBracket];
    let tokens = lex(source_code_string).unwrap();
    assert_eq!(tokens, expected_tokens);
}

#[test]
fn double_right_angle_bracket_token_is_created() {
    let source_code_string = ">>";
    let expected_tokens = vec![Token::DoubleRightAngleBracket];
    let tokens = lex(source_code_string).unwrap();
    assert_eq!(tokens, expected_tokens);
}

#[test]
fn ampersand_token_is_created() {
    assert_eq!(lex("&").unwrap(), vec![Token::Ampersand]);
}

#[test]
fn pipe_token_is_created() {
    assert_eq!(lex("|").unwrap(), vec![Token::Pipe]);
}

#[test]
fn unrecognized_input_is_reported_with_its_position() {
    let r = lex("int main() {return ?;}");
    assert_eq!(r, Err(LexError::UnrecognizedInput(19)));
}

#[test]
fn decrement_operator_is_reported_as_unsupported() {
    let r = lex("int main() {return --2;}");
    assert_eq!(r, Err(LexError::DecrementOperator(19)));
}

#[test]
fn numeric_constant_over_byte_range_is_reported() {
    let r = lex("return 256;");
    assert_eq!(r, Err(LexError::ConstantTooLarge(7)));
}

#[test]
fn digits_followed_by_letters_match_no_token() {
    let r = lex("2a");
    assert_eq!(r, Err(LexError::UnrecognizedInput(0)));
}

#[test]
fn leading_zeros_do_not_overflow_a_small_constant() {
    let tokens = lex("0000000002").unwrap();
    assert_eq!(tokens, vec![Token::NumericConstant(2)]);
}
