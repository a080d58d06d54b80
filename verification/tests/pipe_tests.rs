use shparse::split_pipe;
use shparse::Env;
use shparse::ParseError;
use shparse::Pipe;
use shparse::Process;

#[test]
fn pipe_test() {
    let input = r#"echo hello my "name is | daniel" | sed 's/daniel/dan/'"#;
    let vars = Env::new();

    assert_eq!(
        Ok(Pipe {
            producer: Process {
                path: "echo".to_string(),
                args: vec![
                    "hello".to_string(),
                    "my".to_string(),
                    "name is | daniel".to_string(),
                ],
            },
            consumer: Process {
                path: "sed".to_string(),
                args: vec!["s/daniel/dan/".to_string()],
            },
        }),
        split_pipe(input, &vars)
    );
}

#[test]
fn simple_pipeline_splits() {
    let vars = Env::new();
    assert_eq!(
        Ok(Pipe {
            producer: Process { path: "echo".to_string(), args: vec!["a".to_string()] },
            consumer: Process { path: "wc".to_string(), args: vec!["-l".to_string()] },
        }),
        split_pipe("echo a | wc -l", &vars)
    );
}

#[test]
fn quoted_pipe_is_not_a_separator() {
    let vars = Env::new();
    assert_eq!(Err(ParseError::NotAPipeline), split_pipe("echo \"a|b\"", &vars));
}

#[test]
fn single_quoted_pipe_is_not_a_separator() {
    let vars = Env::new();
    assert_eq!(Err(ParseError::NotAPipeline), split_pipe("echo 'a|b'", &vars));
}

#[test]
fn no_pipe_is_not_a_pipeline() {
    let vars = Env::new();
    assert_eq!(Err(ParseError::NotAPipeline), split_pipe("echo a", &vars));
}

#[test]
fn two_pipes_are_not_a_pipeline() {
    let vars = Env::new();
    assert_eq!(Err(ParseError::NotAPipeline), split_pipe("a | b | c", &vars));
}

#[test]
fn escaped_pipe_is_literal() {
    let vars = Env::new();
    assert_eq!(Err(ParseError::NotAPipeline), split_pipe(r"echo \|", &vars));
}

#[test]
fn pipe_inside_escaped_text_run_is_literal() {
    let vars = Env::new();
    assert_eq!(
        Ok(Pipe {
            producer: Process { path: "echo".to_string(), args: vec!["ab|c".to_string()] },
            consumer: Process { path: "wc".to_string(), args: vec![] },
        }),
        split_pipe(r"echo a\b|c | wc", &vars)
    );
}

#[test]
fn pipe_needs_no_surrounding_spaces() {
    let vars = Env::new();
    assert_eq!(
        Ok(Pipe {
            producer: Process { path: "echo".to_string(), args: vec!["a".to_string()] },
            consumer: Process { path: "wc".to_string(), args: vec![] },
        }),
        split_pipe("echo a|wc", &vars)
    );
}

#[test]
fn tabs_around_pipe_are_trimmed() {
    let vars = Env::new();
    assert_eq!(
        Ok(Pipe {
            producer: Process { path: "echo".to_string(), args: vec![] },
            consumer: Process { path: "wc".to_string(), args: vec![] },
        }),
        split_pipe("echo\t|\twc", &vars)
    );
}

#[test]
fn bad_half_reports_its_parse_error() {
    let vars = Env::new();
    assert_eq!(
        Err(ParseError::UnterminatedDoubleQuote),
        split_pipe("echo a | echo \"b", &vars)
    );
    assert_eq!(
        Err(ParseError::UndefinedVariable("NOPE".to_string())),
        split_pipe("echo $NOPE | wc", &vars)
    );
}

#[test]
fn variables_expand_in_both_halves() {
    let mut vars = Env::new();
    vars.insert("A".to_string(), "left".to_string());
    vars.insert("B".to_string(), "right".to_string());
    assert_eq!(
        Ok(Pipe {
            producer: Process { path: "echo".to_string(), args: vec!["left".to_string()] },
            consumer: Process { path: "grep".to_string(), args: vec!["right".to_string()] },
        }),
        split_pipe("echo $A | grep $B", &vars)
    );
}
