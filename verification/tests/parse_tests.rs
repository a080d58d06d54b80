use shparse::parser::parse_tokens;
use shparse::Env;
use shparse::ParseError;
use shparse::Process;
use shparse::Token;

fn parse(input: &str, vars: &Env) -> Result<Process, ParseError> {
    shparse::parse(input, vars)
}

#[test]
fn parse_test() {
    let input = r#"echo "This is a 'test'. I repeat, a \"TEST\"" 'See?' Check\ it\ out!"#;
    let vars = Env::new();

    assert_eq!(
        Ok(Process {
            path: "echo".to_string(),
            args: vec![
                r#"This is a 'test'. I repeat, a "TEST""#.to_string(),
                "See?".to_string(),
                "Check it out!".to_string()
            ],
        }),
        parse(input, &vars)
    );
}

#[test]
fn plain_word_is_path() {
    let vars = Env::new();
    assert_eq!(
        Ok(Process { path: "ls42".to_string(), args: vec![] }),
        parse("ls42", &vars)
    );
}

#[test]
fn single_quotes_are_literal() {
    let vars = Env::new();
    assert_eq!(
        Ok(Process { path: "echo".to_string(), args: vec!["a b $X".to_string()] }),
        parse("echo 'a b $X'", &vars)
    );
}

#[test]
fn double_quotes_expand() {
    let mut vars = Env::new();
    vars.insert("X".to_string(), "world".to_string());
    assert_eq!(
        Ok(Process { path: "echo".to_string(), args: vec!["hello world".to_string()] }),
        parse("echo \"hello $X\"", &vars)
    );
}

#[test]
fn escape_neutralizes_whitespace() {
    let vars = Env::new();
    assert_eq!(
        Ok(Process { path: "echo".to_string(), args: vec!["a b".to_string()] }),
        parse(r"echo a\ b", &vars)
    );
}

#[test]
fn escape_neutralizes_following_text_run() {
    let vars = Env::new();
    assert_eq!(
        Ok(Process { path: "echo".to_string(), args: vec!["$X".to_string()] }),
        parse(r"echo \$X", &vars)
    );
}

#[test]
fn escape_works_inside_single_quotes() {
    let vars = Env::new();
    assert_eq!(
        Ok(Process { path: "echo".to_string(), args: vec!["a'b".to_string()] }),
        parse(r"echo 'a\'b'", &vars)
    );
}

#[test]
fn single_quotes_literal_inside_double_quotes() {
    let vars = Env::new();
    assert_eq!(
        Ok(Process { path: "echo".to_string(), args: vec!["a 'b' c".to_string()] }),
        parse("echo \"a 'b' c\"", &vars)
    );
}

#[test]
fn undefined_variable_fails() {
    let vars = Env::new();
    assert_eq!(
        Err(ParseError::UndefinedVariable("UNSET".to_string())),
        parse("echo $UNSET", &vars)
    );
}

#[test]
fn undefined_variable_fails_inside_double_quotes() {
    let vars = Env::new();
    assert_eq!(
        Err(ParseError::UndefinedVariable("Q".to_string())),
        parse("echo \"$Q\"", &vars)
    );
}

#[test]
fn unterminated_double_quote_fails() {
    let vars = Env::new();
    assert_eq!(Err(ParseError::UnterminatedDoubleQuote), parse("echo \"abc", &vars));
}

#[test]
fn unterminated_single_quote_fails() {
    let vars = Env::new();
    assert_eq!(Err(ParseError::UnterminatedSingleQuote), parse("echo 'abc", &vars));
}

#[test]
fn empty_input_has_no_tokens() {
    let vars = Env::new();
    assert_eq!(Err(ParseError::NoTokens), parse("", &vars));
}

#[test]
fn whitespace_only_is_malformed_path() {
    let vars = Env::new();
    assert_eq!(Err(ParseError::MalformedPath), parse("   ", &vars));
}

#[test]
fn leading_quote_is_malformed_path() {
    let vars = Env::new();
    assert_eq!(Err(ParseError::MalformedPath), parse("\"echo\" hi", &vars));
}

#[test]
fn trailing_escape_is_unexpected_end() {
    let vars = Env::new();
    assert_eq!(Err(ParseError::UnexpectedEndOfInput), parse(r"echo a\", &vars));
}

#[test]
fn variable_expands_in_path() {
    let mut vars = Env::new();
    vars.insert("X".to_string(), "ls".to_string());
    assert_eq!(
        Ok(Process { path: "ls".to_string(), args: vec![] }),
        parse("$X", &vars)
    );
}

#[test]
fn bare_dollar_is_literal() {
    let vars = Env::new();
    assert_eq!(
        Ok(Process { path: "echo".to_string(), args: vec!["100$".to_string(), "$1".to_string()] }),
        parse("echo 100$ $1", &vars)
    );
}

#[test]
fn variable_name_stops_at_digit() {
    let mut vars = Env::new();
    vars.insert("X".to_string(), "world".to_string());
    assert_eq!(
        Ok(Process { path: "echo".to_string(), args: vec!["world1".to_string()] }),
        parse("echo $X1", &vars)
    );
}

#[test]
fn substituted_value_is_not_rescanned() {
    let mut vars = Env::new();
    vars.insert("X".to_string(), "$Y".to_string());
    assert_eq!(
        Ok(Process { path: "echo".to_string(), args: vec!["$Y".to_string()] }),
        parse("echo $X", &vars)
    );
}

#[test]
fn trailing_newline_is_whitespace() {
    let vars = Env::new();
    assert_eq!(
        Ok(Process { path: "echo".to_string(), args: vec!["hi".to_string()] }),
        parse("echo hi\n", &vars)
    );
}

#[test]
fn tabs_separate_arguments() {
    let vars = Env::new();
    assert_eq!(
        Ok(Process { path: "echo".to_string(), args: vec!["a".to_string(), "b".to_string()] }),
        parse("echo\ta\tb", &vars)
    );
}

#[test]
fn empty_quoted_literal_yields_no_argument() {
    let vars = Env::new();
    assert_eq!(
        Ok(Process { path: "echo".to_string(), args: vec!["b".to_string()] }),
        parse("echo '' b", &vars)
    );
}

#[test]
fn consecutive_whitespace_collapses() {
    let vars = Env::new();
    assert_eq!(
        Ok(Process { path: "echo".to_string(), args: vec!["a".to_string(), "b".to_string()] }),
        parse("echo  a   b ", &vars)
    );
}

#[test]
fn adjacent_pieces_join_one_argument() {
    let mut vars = Env::new();
    vars.insert("X".to_string(), "-".to_string());
    assert_eq!(
        Ok(Process { path: "echo".to_string(), args: vec!["a-'b'c".to_string()] }),
        parse(r#"echo a$X"'b'"c"#, &vars)
    );
}

#[test]
fn multi_byte_input_parses() {
    let mut vars = Env::new();
    vars.insert("GRUSS".to_string(), "grüß".to_string());
    assert_eq!(
        Ok(Process {
            path: "héllo".to_string(),
            args: vec!["wörld".to_string(), "grüß dich".to_string()],
        }),
        parse("héllo wörld \"$GRUSS dich\"", &vars)
    );
}

#[test]
fn lexer_classifies_delimiters() {
    let toks = shparse::lexer::lex("a 'b");
    assert_eq!(
        Some(vec![
            Token::Text("a".to_string()),
            Token::Whitespace(" ".to_string()),
            Token::SingleQuote("'".to_string()),
            Token::Text("b".to_string()),
        ]),
        toks
    );
    assert_eq!(None, shparse::lexer::lex(""));
}

#[test]
fn parser_tokens_reject_their_own_kind() {
    let vars = Env::new();
    let toks = vec![Token::Text("echo".to_string()), Token::Arg("x".to_string())];
    assert_eq!(Err(ParseError::UnexpectedToken), parse_tokens(&toks, &vars));
    let toks = vec![Token::Path("echo".to_string())];
    assert_eq!(Err(ParseError::MalformedPath), parse_tokens(&toks, &vars));
}
