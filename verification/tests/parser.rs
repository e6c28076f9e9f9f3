use lineshell::{
    parse_to_ast, ErrorKind, Function, LexicalPattern, ParseState, Program, Statement, StrMap,
};

fn lines(text: &str) -> Vec<Option<String>> {
    text.lines().map(|l| Some(l.to_string())).collect()
}

fn parse(text: &str) -> Result<Program, ErrorKind> {
    parse_to_ast(&lines(text))
}

fn pattern(line: &str) -> LexicalPattern {
    LexicalPattern::from_line(line).expect("a recognized line")
}

#[test]
fn empty_main_round_trip() {
    let program = parse("main(){\n}").unwrap();
    assert_eq!(program.len(), 1);
    assert!(program.contains_key("main"));
    assert!(program.get("main").unwrap().0.is_empty());
}

#[test]
fn empty_text_is_an_empty_program() {
    let program = parse("").unwrap();
    assert_eq!(program.len(), 0);
    let program = parse("\n   \n\t\n").unwrap();
    assert_eq!(program.len(), 0);
}

#[test]
fn statements_keep_their_order() {
    let program = parse("main(){\nx=hello\n\necho $x\n  y=2\n}\n").unwrap();
    let body = &program.get("main").unwrap().0;
    assert_eq!(body.len(), 3);
    match &body[0] {
        Statement::Assignment(a) => {
            assert_eq!(a.variable, "x");
            assert_eq!(a.value, "hello");
        }
        other => panic!("{:?}", other),
    }
    match &body[1] {
        Statement::Execution(w) => assert_eq!(w, &vec!["echo".to_string(), "$x".to_string()]),
        other => panic!("{:?}", other),
    }
    match &body[2] {
        Statement::Assignment(a) => {
            assert_eq!(a.variable, "y");
            assert_eq!(a.value, "2");
        }
        other => panic!("{:?}", other),
    }
}

#[test]
fn several_functions_are_kept_by_name() {
    let program = parse("foo(){\na=1\n}\nmain(){\necho hi\n}\nbar(){\n}").unwrap();
    assert_eq!(program.len(), 3);
    assert_eq!(program.get("foo").unwrap().0.len(), 1);
    assert_eq!(program.get("main").unwrap().0.len(), 1);
    assert_eq!(program.get("bar").unwrap().0.len(), 0);
    assert!(program.get("baz").is_none());
}

#[test]
fn unterminated_function_is_rejected() {
    assert_eq!(parse("main(){\nx=1\n").unwrap_err(), ErrorKind::UnterminatedFunction);
    assert_eq!(parse("main(){").unwrap_err(), ErrorKind::UnterminatedFunction);
}

#[test]
fn statement_outside_function_is_rejected() {
    assert_eq!(parse("x=1\n").unwrap_err(), ErrorKind::StatementOutsideFunction);
    assert_eq!(parse("echo hi").unwrap_err(), ErrorKind::StatementOutsideFunction);
    assert_eq!(parse("main(){\n}\necho hi").unwrap_err(), ErrorKind::StatementOutsideFunction);
}

#[test]
fn nested_function_start_is_rejected() {
    assert_eq!(parse("main(){\nfoo(){\n}\n}").unwrap_err(), ErrorKind::NestedFunctionStart);
}

#[test]
fn unmatched_function_end_is_rejected() {
    assert_eq!(parse("}").unwrap_err(), ErrorKind::UnmatchedFunctionEnd);
    assert_eq!(parse("main(){\n}\n}").unwrap_err(), ErrorKind::UnmatchedFunctionEnd);
}

#[test]
fn malformed_line_is_rejected() {
    assert_eq!(parse("1main(){\n}").unwrap_err(), ErrorKind::MalformedLine);
    assert_eq!(parse("main(){\n=x\n}").unwrap_err(), ErrorKind::MalformedLine);
    assert_eq!(parse("(){").unwrap_err(), ErrorKind::MalformedLine);
}

#[test]
fn unreadable_line_is_an_io_failure() {
    let content = vec![Some("main(){".to_string()), None, Some("}".to_string())];
    assert_eq!(parse_to_ast(&content).unwrap_err(), ErrorKind::IoFailure);
    assert_eq!(parse_to_ast(&vec![None]).unwrap_err(), ErrorKind::IoFailure);
}

#[test]
fn the_first_failure_decides() {
    let content = vec![Some("x=1".to_string()), None];
    assert_eq!(parse_to_ast(&content).unwrap_err(), ErrorKind::StatementOutsideFunction);
    let content = vec![None, Some("x=1".to_string())];
    assert_eq!(parse_to_ast(&content).unwrap_err(), ErrorKind::IoFailure);
    assert_eq!(parse("=\n}").unwrap_err(), ErrorKind::MalformedLine);
    assert_eq!(parse("}\n=").unwrap_err(), ErrorKind::UnmatchedFunctionEnd);
}

#[test]
fn last_definition_wins() {
    let program = parse("main(){\nx=1\n}\nmain(){\nx=2\n}").unwrap();
    assert_eq!(program.len(), 1);
    let body = &program.get("main").unwrap().0;
    assert_eq!(body.len(), 1);
    match &body[0] {
        Statement::Assignment(a) => {
            assert_eq!(a.variable, "x");
            assert_eq!(a.value, "2");
        }
        other => panic!("{:?}", other),
    }
}

#[test]
fn transform_follows_the_table() {
    let mut program: Program = StrMap::new();

    let state = ParseState::Outside.transform(pattern(""), &mut program).unwrap();
    assert!(matches!(state, ParseState::Outside));

    let state = state.transform(pattern("f(){"), &mut program).unwrap();
    match &state {
        ParseState::ConstructFunc(name, Function(body)) => {
            assert_eq!(name, "f");
            assert!(body.is_empty());
        }
        other => panic!("{:?}", other),
    }

    let state = state.transform(pattern("a=1"), &mut program).unwrap();
    let state = state.transform(pattern("  "), &mut program).unwrap();
    let state = state.transform(pattern("run it"), &mut program).unwrap();
    match &state {
        ParseState::ConstructFunc(name, Function(body)) => {
            assert_eq!(name, "f");
            assert_eq!(body.len(), 2);
            assert!(matches!(body[0], Statement::Assignment(_)));
            assert!(matches!(body[1], Statement::Execution(_)));
        }
        other => panic!("{:?}", other),
    }
    assert_eq!(program.len(), 0);

    let state = state.transform(pattern("}"), &mut program).unwrap();
    assert!(matches!(state, ParseState::Outside));
    assert_eq!(program.len(), 1);
    assert_eq!(program.get("f").unwrap().0.len(), 2);
}

#[test]
fn transform_errors_leave_the_program_alone() {
    let mut program: Program = StrMap::new();
    program.insert("f".to_string(), Function(Vec::new()));

    let r = ParseState::Outside.transform(pattern("}"), &mut program);
    assert_eq!(r.unwrap_err(), ErrorKind::UnmatchedFunctionEnd);
    let r = ParseState::Outside.transform(pattern("a=1"), &mut program);
    assert_eq!(r.unwrap_err(), ErrorKind::StatementOutsideFunction);
    let inside = ParseState::ConstructFunc("g".to_string(), Function(Vec::new()));
    let r = inside.transform(pattern("h(){"), &mut program);
    assert_eq!(r.unwrap_err(), ErrorKind::NestedFunctionStart);

    assert_eq!(program.len(), 1);
    assert!(program.get("f").unwrap().0.is_empty());
}

#[test]
fn transform_in_place_keeps_the_next_state() {
    let mut program: Program = StrMap::new();
    let mut state = ParseState::Outside;
    state.transform_in_place(pattern("main(){"), &mut program).unwrap();
    assert!(matches!(state, ParseState::ConstructFunc(_, _)));
    state.transform_in_place(pattern("x=1"), &mut program).unwrap();
    state.transform_in_place(pattern("}"), &mut program).unwrap();
    assert!(matches!(state, ParseState::Outside));
    assert_eq!(program.get("main").unwrap().0.len(), 1);
}

#[test]
fn transform_in_place_falls_back_to_outside_on_error() {
    let mut program: Program = StrMap::new();
    let mut state = ParseState::ConstructFunc("f".to_string(), Function(Vec::new()));
    let r = state.transform_in_place(pattern("g(){"), &mut program);
    assert_eq!(r.unwrap_err(), ErrorKind::NestedFunctionStart);
    assert!(matches!(state, ParseState::Outside));
    assert_eq!(program.len(), 0);
}

#[test]
fn end_success_only_outside() {
    assert_eq!(ParseState::Outside.end_success(), Ok(()));
    let inside = ParseState::ConstructFunc("f".to_string(), Function(Vec::new()));
    assert_eq!(inside.end_success(), Err(ErrorKind::UnterminatedFunction));
}
