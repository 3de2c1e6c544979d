use frontlang::checker::Checker;
use frontlang::error::{Error, ErrorCode};
use frontlang::lexer::{source_lines, Lexer};
use frontlang::parser::{tokens_wf_check, Parser};

fn check_src(src: &str) -> Result<(), Error> {
    let mut lexer = Lexer::new(src.to_string());
    lexer.lex();
    let tokens = lexer.filter();
    assert!(tokens_wf_check(&tokens));
    let lines = source_lines(&src.to_string());
    let mut parser = Parser::new(lines, &tokens);
    parser.parse().expect("the test program should parse");
    let lines = source_lines(&src.to_string());
    let mut checker = Checker::new(lines, parser.prog);
    checker.check()
}

#[test]
fn well_typed_program_checks() {
    assert!(check_src("let x = 1\nlet y = x + 2\nlet b = true\nif b { y = 3 }\n").is_ok());
}

#[test]
fn annotation_mismatch_names_both_types() {
    // let x: int32 = <bool expression> raises TypeMismatch naming both.
    let e = check_src("let x: int32 = true\n").unwrap_err();
    assert_eq!(e.id, ErrorCode::TypeMismatch);
    assert!(e.msg.contains("int32"));
    assert!(e.msg.contains("bool"));
}

#[test]
fn matching_annotation_passes() {
    assert!(check_src("let x: int32 = 1\nlet b: bool = true\n").is_ok());
}

#[test]
fn while_condition_must_be_boolean() {
    let e = check_src("let x = 1\nwhile x { }\n").unwrap_err();
    assert_eq!(e.id, ErrorCode::TypeMismatch);
    assert!(e.msg.contains("bool"));
    // The diagnostic points at the condition: row 1, column 6.
    assert_eq!(e.start.row, 1);
    assert_eq!(e.start.col, 6);
}

#[test]
fn if_condition_must_be_boolean() {
    let e = check_src("let x = 1\nif x { }\n").unwrap_err();
    assert_eq!(e.id, ErrorCode::TypeMismatch);
}

#[test]
fn do_while_checks_the_body_before_the_condition() {
    // Both the body and the condition are ill here; the do-while reports
    // the body's error, because the body is checked first...
    let e = check_src("do { let x = 1 + true } while y\n").unwrap_err();
    assert_eq!(e.id, ErrorCode::TypeMismatch);
    // ...while a while-loop with the same parts reports the condition's.
    let e = check_src("while y { let x = 1 + true }\n").unwrap_err();
    assert_eq!(e.id, ErrorCode::VariableNotFound);
}

#[test]
fn do_while_over_an_outer_binding_checks() {
    assert!(check_src("let b = true\ndo { b = false } while b\n").is_ok());
}

#[test]
fn example_program_fails_on_the_if_condition() {
    // Scanning and parsing succeed; checking raises TypeMismatch because
    // x resolves to a 32-bit integer, not bool.
    let e = check_src("let x = 1\nif x { let y = true }\n").unwrap_err();
    assert_eq!(e.id, ErrorCode::TypeMismatch);
    assert_eq!(e.start.row, 1);
    assert_eq!(e.start.col, 3);
    assert_eq!(e.start.idx, 13);
}

#[test]
fn assignment_to_unknown_name_fails() {
    let e = check_src("x = 1\n").unwrap_err();
    assert_eq!(e.id, ErrorCode::VariableNotFound);
}

#[test]
fn assignment_must_keep_the_type() {
    let e = check_src("let x = 1\nx = true\n").unwrap_err();
    assert_eq!(e.id, ErrorCode::TypeMismatch);
    assert!(check_src("let x = 1\nx = 2\n").is_ok());
}

#[test]
fn binary_operands_must_agree() {
    let e = check_src("let x = 1 + true\n").unwrap_err();
    assert_eq!(e.id, ErrorCode::TypeMismatch);
}

#[test]
fn unary_keeps_the_operand_type() {
    assert!(check_src("let x = 1\nlet y = -x\nlet z = y + 1\n").is_ok());
}

#[test]
fn identifier_use_before_any_declaration_fails() {
    let e = check_src("let x = y\n").unwrap_err();
    assert_eq!(e.id, ErrorCode::VariableNotFound);
}

#[test]
fn inner_blocks_see_outer_bindings() {
    assert!(check_src("let b = true\nif b { let c = b }\n").is_ok());
}

#[test]
fn function_return_type_is_enforced() {
    assert!(check_src("func f(): int32 { return 1 }\n").is_ok());
    let e = check_src("func g() { return 1 }\n").unwrap_err();
    assert_eq!(e.id, ErrorCode::TypeMismatch);
    let e = check_src("func h(): int32 { return\n}\n").unwrap_err();
    assert_eq!(e.id, ErrorCode::TypeMismatch);
    assert!(check_src("func k() { return\n}\n").is_ok());
}

#[test]
fn function_parameters_arrive_typed() {
    assert!(check_src("func f(a: int32): int32 { return a + 1 }\n").is_ok());
    let e = check_src("func f(a: bool): int32 { return a }\n").unwrap_err();
    assert_eq!(e.id, ErrorCode::TypeMismatch);
}

#[test]
fn unknown_parameter_type_is_rejected() {
    let e = check_src("func f(a: wat) { }\n").unwrap_err();
    assert_eq!(e.id, ErrorCode::Unknown);
}

#[test]
fn return_type_does_not_leak_out_of_a_function() {
    // A top-level return with a value has no declared return type to meet.
    let e = check_src("func f(): int32 { return 1 }\nreturn 1\n").unwrap_err();
    assert_eq!(e.id, ErrorCode::TypeMismatch);
}

#[test]
fn continue_checks_as_a_statement() {
    assert!(check_src("let b = true\nwhile b { continue }\n").is_ok());
}
