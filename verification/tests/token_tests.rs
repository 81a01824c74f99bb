use cmakefmt::token::{Lexer, Token};

fn tokenize_with_slices(input: &str) -> Vec<(Token, &str)> {
    let mut lex = Lexer::new(input);
    let mut result = Vec::new();
    while let Some(tok_result) = lex.next() {
        let tok = tok_result.unwrap_or(Token::UnquotedText);
        let (a, b) = lex.span();
        result.push((tok, &input[a..b]));
    }
    result
}

fn token_types(input: &str) -> Vec<Token> {
    tokenize_with_slices(input)
        .into_iter()
        .map(|(t, _)| t)
        .collect()
}

#[test]
fn empty_input_produces_no_tokens() {
    assert!(tokenize_with_slices("").is_empty());
}

#[test]
fn simple_command_token_sequence() {
    let tokens = token_types("if(A AND B)");
    assert_eq!(
        tokens,
        vec![
            Token::UnquotedText, // if
            Token::LParen,
            Token::UnquotedText, // A
            Token::Space,
            Token::UnquotedText, // AND
            Token::Space,
            Token::UnquotedText, // B
            Token::RParen,
        ]
    );
}

#[test]
fn spaces_and_tabs_combined_into_single_space_token() {
    let tokens = tokenize_with_slices("a  \t  b");
    assert_eq!(tokens.len(), 3);
    assert_eq!(tokens[0].0, Token::UnquotedText);
    assert_eq!(tokens[1].0, Token::Space);
    assert_eq!(tokens[1].1, "  \t  ");
    assert_eq!(tokens[2].0, Token::UnquotedText);
}

#[test]
fn newline_lf() {
    let tokens = token_types("a\nb");
    assert_eq!(
        tokens,
        vec![Token::UnquotedText, Token::Newline, Token::UnquotedText]
    );
}

#[test]
fn newline_crlf() {
    let tokens = token_types("a\r\nb");
    assert_eq!(
        tokens,
        vec![Token::UnquotedText, Token::Newline, Token::UnquotedText]
    );
}

#[test]
fn bracket_argument_depth_0() {
    let tokens = tokenize_with_slices("[[content]]");
    assert_eq!(tokens.len(), 1);
    assert_eq!(tokens[0].0, Token::BracketArgument);
    assert_eq!(tokens[0].1, "[[content]]");
}

#[test]
fn bracket_argument_depth_1() {
    let tokens = tokenize_with_slices("[=[content]=]");
    assert_eq!(tokens.len(), 1);
    assert_eq!(tokens[0].0, Token::BracketArgument);
    assert_eq!(tokens[0].1, "[=[content]=]");
}

#[test]
fn bracket_argument_depth_3() {
    let tokens = tokenize_with_slices("[===[nested ]] content]===]");
    assert_eq!(tokens.len(), 1);
    assert_eq!(tokens[0].0, Token::BracketArgument);
    assert_eq!(tokens[0].1, "[===[nested ]] content]===]");
}

#[test]
fn unclosed_bracket_argument_produces_error() {
    // Unclosed bracket arg: the callback returns false, so logos produces an Error
    let mut lex = Lexer::new("[=[unclosed");
    let result = lex.next();
    // Should not produce a valid BracketArgument
    assert!(result.is_some());
    let tok = result.unwrap();
    assert!(tok.is_err() || tok.unwrap() != Token::BracketArgument);
}

#[test]
fn bracket_comment_takes_priority_over_line_comment() {
    let tokens = tokenize_with_slices("#[=[comment]=]");
    assert_eq!(tokens.len(), 1);
    assert_eq!(tokens[0].0, Token::BracketComment);
    assert_eq!(tokens[0].1, "#[=[comment]=]");
}

#[test]
fn bracket_comment_depth_0() {
    let tokens = tokenize_with_slices("#[[comment]]");
    assert_eq!(tokens.len(), 1);
    assert_eq!(tokens[0].0, Token::BracketComment);
}

#[test]
fn line_comment_rejects_bracket_pattern() {
    // `#[=[` should NOT produce LineComment — it should be BracketComment
    let tokens = tokenize_with_slices("#[=[text]=]");
    assert_eq!(tokens[0].0, Token::BracketComment);
}

#[test]
fn line_comment_basic() {
    let tokens = tokenize_with_slices("# this is a comment\n");
    assert_eq!(tokens.len(), 2);
    assert_eq!(tokens[0].0, Token::LineComment);
    assert_eq!(tokens[0].1, "# this is a comment");
    assert_eq!(tokens[1].0, Token::Newline);
}

#[test]
fn line_comment_at_eof() {
    let tokens = tokenize_with_slices("# comment at eof");
    assert_eq!(tokens.len(), 1);
    assert_eq!(tokens[0].0, Token::LineComment);
    assert_eq!(tokens[0].1, "# comment at eof");
}

#[test]
fn quoted_string_basic() {
    let tokens = tokenize_with_slices("\"hello world\"");
    assert_eq!(tokens.len(), 1);
    assert_eq!(tokens[0].0, Token::QuotedArgument);
    assert_eq!(tokens[0].1, "\"hello world\"");
}

#[test]
fn quoted_string_with_escapes() {
    let tokens = tokenize_with_slices(r#""hello \"world\"""#);
    assert_eq!(tokens.len(), 1);
    assert_eq!(tokens[0].0, Token::QuotedArgument);
    assert_eq!(tokens[0].1, r#""hello \"world\"""#);
}

#[test]
fn unclosed_quoted_string_produces_error() {
    let mut lex = Lexer::new("\"unclosed");
    let result = lex.next();
    assert!(result.is_some());
    let tok = result.unwrap();
    // Should fail — callback returns false for unclosed quote
    assert!(tok.is_err());
}

#[test]
fn backslash_at_eof_in_quoted_string() {
    let mut lex = Lexer::new("\"hello\\");
    let result = lex.next();
    assert!(result.is_some());
    let tok = result.unwrap();
    assert!(tok.is_err());
}

#[test]
fn unquoted_text_with_escapes() {
    let tokens = tokenize_with_slices("a\\ b");
    // `a\ ` is a single unquoted token because `\\ ` (backslash + space) is an escape
    assert_eq!(tokens[0].0, Token::UnquotedText);
}

#[test]
fn parentheses_are_separate_tokens() {
    let tokens = token_types("()");
    assert_eq!(tokens, vec![Token::LParen, Token::RParen]);
}

#[test]
fn multiple_token_types_in_sequence() {
    let tokens = token_types("set(VAR \"value\")");
    assert_eq!(
        tokens,
        vec![
            Token::UnquotedText, // set
            Token::LParen,
            Token::UnquotedText, // VAR
            Token::Space,
            Token::QuotedArgument, // "value"
            Token::RParen,
        ]
    );
}
