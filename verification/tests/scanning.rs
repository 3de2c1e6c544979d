use frontlang::lexer::{source_lines, Lexer};
use frontlang::location::Location;
use frontlang::tokens::{Token, Type};

fn scan(src: &str) -> Vec<Token> {
    let mut lexer = Lexer::new(src.to_string());
    lexer.lex();
    lexer.filter()
}

fn tags(tokens: &[Token]) -> Vec<u32> {
    tokens.iter().map(|t| t.typ.tag()).collect()
}

#[test]
fn scans_the_example_program() {
    // let, x, =, 1, newline, if, x, {, let, y, =, true, }, newline, EOF
    let toks = scan("let x = 1\nif x { let y = true }\n");
    let kinds = tags(&toks);
    assert_eq!(
        kinds,
        vec![
            Type::Let.tag(),
            Type::Identifier(String::new()).tag(),
            Type::Assignment.tag(),
            Type::Number(String::new()).tag(),
            Type::NewLine.tag(),
            Type::If.tag(),
            Type::Identifier(String::new()).tag(),
            Type::LeftBrace.tag(),
            Type::Let.tag(),
            Type::Identifier(String::new()).tag(),
            Type::Assignment.tag(),
            Type::Boolean(true).tag(),
            Type::RightBrace.tag(),
            Type::NewLine.tag(),
            Type::EOF.tag(),
        ]
    );
    match &toks[1].typ {
        Type::Identifier(n) => assert_eq!(n, "x"),
        other => panic!("expected identifier, got {:?}", other),
    }
    match &toks[3].typ {
        Type::Number(v) => assert_eq!(v, "1"),
        other => panic!("expected number, got {:?}", other),
    }
    match &toks[11].typ {
        Type::Boolean(b) => assert!(*b),
        other => panic!("expected boolean, got {:?}", other),
    }
}

#[test]
fn longest_match_wins() {
    // ">=" is one token for the longer spelling, never ">" then "=".
    let toks = scan(">=");
    assert_eq!(toks.len(), 2);
    assert!(matches!(toks[0].typ, Type::GreaterThanOrEqual));
    assert!(matches!(toks[1].typ, Type::EOF));

    let toks = scan(">>>");
    assert_eq!(toks.len(), 2);
    assert!(matches!(toks[0].typ, Type::ZeroFillRightShift));

    let toks = scan(">>");
    assert!(matches!(toks[0].typ, Type::RightShift));

    let toks = scan("<..");
    assert!(matches!(toks[0].typ, Type::CountLeadingZeros));
}

#[test]
fn numeric_captures_parse_as_numbers() {
    let toks = scan("3.14 1e5 inf NaN 1.2.3 3a .5 1.");
    let expect_num = [true, true, true, true, false, false, true, true];
    for (i, want) in expect_num.iter().enumerate() {
        match (&toks[i].typ, want) {
            (Type::Number(_), true) => {}
            (Type::Identifier(_), false) => {}
            (other, _) => panic!("token {} unexpected: {:?}", i, other),
        }
    }
    assert!(matches!(toks[8].typ, Type::EOF));
}

#[test]
fn keywords_close_out_of_captures() {
    let toks = scan("while whilex do dot");
    assert!(matches!(toks[0].typ, Type::While));
    assert!(matches!(toks[1].typ, Type::Identifier(_)));
    assert!(matches!(toks[2].typ, Type::Do));
    assert!(matches!(toks[3].typ, Type::Identifier(_)));
}

#[test]
fn spans_and_eof_are_exact() {
    let toks = scan("let x");
    // "let" spans 0..3, "x" spans 4..5, EOF is zero-width at 5.
    assert_eq!(toks[0].start, Location { row: 0, col: 0, idx: 0 });
    assert_eq!(toks[0].end, Location { row: 0, col: 3, idx: 3 });
    assert_eq!(toks[0].size, 3);
    assert_eq!(toks[1].start, Location { row: 0, col: 4, idx: 4 });
    assert_eq!(toks[1].end, Location { row: 0, col: 5, idx: 5 });
    let eof = &toks[2];
    assert!(matches!(eof.typ, Type::EOF));
    assert_eq!(eof.start, eof.end);
    assert_eq!(eof.size, 0);
}

#[test]
fn newline_starts_the_next_row() {
    let toks = scan("a\nb");
    assert_eq!(toks[0].start, Location { row: 0, col: 0, idx: 0 });
    assert!(matches!(toks[1].typ, Type::NewLine));
    assert_eq!(toks[2].start, Location { row: 1, col: 0, idx: 2 });
}

#[test]
fn filter_drops_only_whitespace() {
    let mut lexer = Lexer::new("a b".to_string());
    let raw = lexer.lex();
    // a, whitespace, b, EOF
    assert_eq!(raw.len(), 4);
    assert!(matches!(raw[1].typ, Type::Whitespace));
    let filtered = lexer.filter();
    assert_eq!(filtered.len(), 3);
    assert!(matches!(filtered[0].typ, Type::Identifier(_)));
    assert!(matches!(filtered[1].typ, Type::Identifier(_)));
    assert!(matches!(filtered[2].typ, Type::EOF));
}

#[test]
fn source_lines_split_at_newlines() {
    let lines = source_lines(&"let x = 1\nif x { let y = true }\n".to_string());
    assert_eq!(lines, vec!["let x = 1".to_string(), "if x { let y = true }".to_string(), "".to_string()]);

    let lines = source_lines(&"".to_string());
    assert_eq!(lines, vec!["".to_string()]);

    let lines = source_lines(&"a\n\nb".to_string());
    assert_eq!(lines, vec!["a".to_string(), "".to_string(), "b".to_string()]);
}
