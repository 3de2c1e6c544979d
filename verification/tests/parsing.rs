use frontlang::ast::{Expr, Node, Stmt};
use frontlang::error::{Error, ErrorCode};
use frontlang::lexer::{source_lines, Lexer};
use frontlang::parser::{tokens_wf_check, Parser};
use frontlang::tokens::Type;

fn parse_src(src: &str) -> Result<Parser, Error> {
    let mut lexer = Lexer::new(src.to_string());
    lexer.lex();
    let tokens = lexer.filter();
    assert!(tokens_wf_check(&tokens));
    let lines = source_lines(&src.to_string());
    let mut parser = Parser::new(lines, &tokens);
    match parser.parse() {
        Ok(()) => Ok(parser),
        Err(e) => Err(e),
    }
}

fn parse_err(src: &str) -> Error {
    match parse_src(src) {
        Ok(_) => panic!("expected a parse error"),
        Err(e) => e,
    }
}

fn ident_name(e: &Node<Expr>) -> &str {
    match &e.0.src {
        Expr::Ident(i) => &i.name,
        other => panic!("expected identifier, got {:?}", other),
    }
}

#[test]
fn subtraction_chains_associate_left() {
    // "a-b-c" parses as (a-b)-c, not a-(b-c).
    let parser = parse_src("let r = a-b-c\n").unwrap();
    let decl = match &parser.prog.block.stmts[0].0.src {
        Stmt::Decl(d) => d,
        other => panic!("expected declaration, got {:?}", other),
    };
    let top = match &decl.val.0.src {
        Expr::BinaryOp(b) => b,
        other => panic!("expected binary op, got {:?}", other),
    };
    assert!(matches!(top.op.src, Type::Subtraction));
    assert_eq!(ident_name(&top.rhs), "c");
    let inner = match &top.lhs.0.src {
        Expr::BinaryOp(b) => b,
        other => panic!("expected binary op on the left, got {:?}", other),
    };
    assert!(matches!(inner.op.src, Type::Subtraction));
    assert_eq!(ident_name(&inner.lhs), "a");
    assert_eq!(ident_name(&inner.rhs), "b");
}

#[test]
fn multiplication_binds_tighter_than_addition() {
    // "a+b*c" parses as a+(b*c).
    let parser = parse_src("let r = a+b*c\n").unwrap();
    let decl = match &parser.prog.block.stmts[0].0.src {
        Stmt::Decl(d) => d,
        other => panic!("expected declaration, got {:?}", other),
    };
    let top = match &decl.val.0.src {
        Expr::BinaryOp(b) => b,
        other => panic!("expected binary op, got {:?}", other),
    };
    assert!(matches!(top.op.src, Type::Addition));
    assert_eq!(ident_name(&top.lhs), "a");
    let inner = match &top.rhs.0.src {
        Expr::BinaryOp(b) => b,
        other => panic!("expected binary op on the right, got {:?}", other),
    };
    assert!(matches!(inner.op.src, Type::Multiplication));
    assert_eq!(ident_name(&inner.lhs), "b");
    assert_eq!(ident_name(&inner.rhs), "c");
}

#[test]
fn parentheses_group_without_a_node() {
    // "(a+b)*c" parses as (a+b)*c with the parenthesized sum on the left.
    let parser = parse_src("let r = (a+b)*c\n").unwrap();
    let decl = match &parser.prog.block.stmts[0].0.src {
        Stmt::Decl(d) => d,
        other => panic!("expected declaration, got {:?}", other),
    };
    let top = match &decl.val.0.src {
        Expr::BinaryOp(b) => b,
        other => panic!("expected binary op, got {:?}", other),
    };
    assert!(matches!(top.op.src, Type::Multiplication));
    let inner = match &top.lhs.0.src {
        Expr::BinaryOp(b) => b,
        other => panic!("expected the sum on the left, got {:?}", other),
    };
    assert!(matches!(inner.op.src, Type::Addition));
}

#[test]
fn unary_operator_wraps_one_primary() {
    let parser = parse_src("let r = -a\n").unwrap();
    let decl = match &parser.prog.block.stmts[0].0.src {
        Stmt::Decl(d) => d,
        other => panic!("expected declaration, got {:?}", other),
    };
    let un = match &decl.val.0.src {
        Expr::UnaryOp(u) => u,
        other => panic!("expected unary op, got {:?}", other),
    };
    assert!(matches!(un.op.src, Type::Subtraction));
    assert_eq!(ident_name(&un.val), "a");
}

#[test]
fn compound_assignment_keeps_the_operator() {
    let parser = parse_src("x + = 2\n").unwrap();
    let assign = match &parser.prog.block.stmts[0].0.src {
        Stmt::Assign(a) => a,
        other => panic!("expected assignment, got {:?}", other),
    };
    assert_eq!(&assign.name.0.src.name, "x");
    match &assign.op {
        Some(op) => assert!(matches!(op.src, Type::Addition)),
        None => panic!("expected a compound operator"),
    }
}

#[test]
fn plain_assignment_has_no_operator() {
    let parser = parse_src("x = 2\n").unwrap();
    let assign = match &parser.prog.block.stmts[0].0.src {
        Stmt::Assign(a) => a,
        other => panic!("expected assignment, got {:?}", other),
    };
    assert!(assign.op.is_none());
}

#[test]
fn example_program_builds_the_expected_tree() {
    let parser = parse_src("let x = 1\nif x { let y = true }\n").unwrap();
    let stmts = &parser.prog.block.stmts;
    assert_eq!(stmts.len(), 2);
    match &stmts[0].0.src {
        Stmt::Decl(d) => {
            assert_eq!(&d.name.0.src.name, "x");
            assert!(d.annot.is_none());
            assert!(matches!(d.val.0.src, Expr::NumLit(_)));
        }
        other => panic!("expected declaration, got {:?}", other),
    }
    match &stmts[1].0.src {
        Stmt::IfStmt(i) => {
            assert_eq!(ident_name(&i.cond), "x");
            let body = &i.body.0.src;
            assert_eq!(body.stmts.len(), 1);
            match &body.stmts[0].0.src {
                Stmt::Decl(d) => {
                    assert_eq!(&d.name.0.src.name, "y");
                    assert!(matches!(d.val.0.src, Expr::BoolLit(_)));
                }
                other => panic!("expected inner declaration, got {:?}", other),
            }
        }
        other => panic!("expected if, got {:?}", other),
    }
}

#[test]
fn node_spans_cover_the_consumed_tokens() {
    let parser = parse_src("let x = 1\n").unwrap();
    let node = &parser.prog.block.stmts[0];
    // The declaration starts at "let" and ends after "1".
    assert_eq!(node.0.start.idx, 0);
    assert_eq!(node.0.end.idx, 9);
    assert!(node.0.start.idx <= node.0.end.idx);
}

#[test]
fn functions_parse_with_and_without_parts() {
    let parser = parse_src("func f() { }\n").unwrap();
    match &parser.prog.block.stmts[0].0.src {
        Stmt::Func(f) => {
            assert_eq!(&f.name.0.src.name, "f");
            assert!(f.args.is_empty());
            assert!(f.ret.is_none());
        }
        other => panic!("expected function, got {:?}", other),
    }

    let parser = parse_src("func g(a: int32, b: bool): int32 { return a }\n").unwrap();
    match &parser.prog.block.stmts[0].0.src {
        Stmt::Func(f) => {
            assert_eq!(f.args.len(), 2);
            assert_eq!(&f.args[0].0.src.name.0.src.name, "a");
            assert_eq!(&f.args[0].0.src.annot.0.src.name, "int32");
            assert_eq!(&f.args[1].0.src.annot.0.src.name, "bool");
            assert_eq!(&f.ret.as_ref().unwrap().0.src.name, "int32");
        }
        other => panic!("expected function, got {:?}", other),
    }
}

#[test]
fn do_while_places_the_condition_after_the_body() {
    let parser = parse_src("do { x = 1 } while b\n").unwrap();
    match &parser.prog.block.stmts[0].0.src {
        Stmt::DoWhileLoop(d) => {
            assert_eq!(d.body.0.src.stmts.len(), 1);
            assert_eq!(ident_name(&d.cond), "b");
        }
        other => panic!("expected do-while, got {:?}", other),
    }
}

#[test]
fn mismatched_token_raises_unexpected_token() {
    let e = parse_err("let x 1\n");
    assert_eq!(e.id, ErrorCode::UnexpectedToken);
}

#[test]
fn bad_statement_start_raises_invalid_statement() {
    let e = parse_err("+ x\n");
    assert_eq!(e.id, ErrorCode::InvalidStatement);
}

#[test]
fn bad_expression_start_raises_invalid_expression() {
    let e = parse_err("let x = )\n");
    assert_eq!(e.id, ErrorCode::InvalidExpression);
}

#[test]
fn keyword_as_name_raises_reserved_name_used() {
    let e = parse_err("let while = 1\n");
    assert_eq!(e.id, ErrorCode::ReservedNameUsed);
}

#[test]
fn unclosed_block_raises_unexpected_token() {
    let e = parse_err("if x { let y = 1\n");
    assert_eq!(e.id, ErrorCode::UnexpectedToken);
}

#[test]
fn separators_between_statements_are_skipped() {
    let parser = parse_src("let a = 1;; let b = 2\n\n\nlet c = 3\n").unwrap();
    assert_eq!(parser.prog.block.stmts.len(), 3);
}
