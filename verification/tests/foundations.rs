use frontlang::error::{size, Error, ErrorCode};
use frontlang::location::Location;
use frontlang::scope::ScopeTree;
use frontlang::text::{decimal_string, string_from_chars};
use frontlang::tokens::{Token, Type};
use frontlang::types::{Array, Bool, DataType, Float, Int, IntegralSize, Uint, FloatingSize};

#[test]
fn wildcard_width_equals_any_width_both_ways() {
    let wild = DataType::Int(Int { size: None });
    let concrete = Int::new(IntegralSize::Int64);
    assert!(wild.eq(&concrete));
    assert!(concrete.eq(&wild));

    let uwild = DataType::Uint(Uint { size: None });
    assert!(uwild.eq(&Uint::new(IntegralSize::Int8)));
    assert!(Uint::new(IntegralSize::Int8).eq(&uwild));

    let fwild = DataType::Float(Float { size: None });
    assert!(fwild.eq(&Float::new(FloatingSize::Float16)));
    assert!(Float::new(FloatingSize::Float16).eq(&fwild));

    let awild = DataType::Array(Array { typ: None });
    let aconc = Array::new(Box::new(Int::new(IntegralSize::Int32)));
    assert!(awild.eq(&aconc));
    assert!(aconc.eq(&awild));
}

#[test]
fn concrete_types_compare_by_structure() {
    assert!(Int::new(IntegralSize::Int32).eq(&Int::new(IntegralSize::Int32)));
    assert!(!Int::new(IntegralSize::Int8).eq(&Int::new(IntegralSize::Int16)));
    assert!(!Int::new(IntegralSize::Int32).eq(&Uint::new(IntegralSize::Int32)));
    assert!(!Int::new(IntegralSize::Int32).eq(&Bool::new()));
    assert!(Bool::new().eq(&Bool::new()));
    let a1 = Array::new(Box::new(Int::new(IntegralSize::Int32)));
    let a2 = Array::new(Box::new(Bool::new()));
    assert!(!a1.eq(&a2));
    assert!(a1.eq(&Array::new(Box::new(Int::new(IntegralSize::Int32)))));
}

#[test]
fn type_names_parse_and_render() {
    let cases = [
        ("int8", true),
        ("int128", true),
        ("uint64", true),
        ("float16", true),
        ("bool", true),
        ("int32[]", true),
        ("int32[][]", true),
        ("int12", false),
        ("uint", false),
        ("float", false),
        ("boolean", false),
        ("[]", false),
        ("", false),
    ];
    for (name, ok) in cases {
        let parsed = DataType::from(&name.to_string());
        assert_eq!(parsed.is_some(), ok, "{}", name);
        if let Some(t) = parsed {
            assert_eq!(t.to_string(), name, "round trip of {}", name);
        }
    }
    assert!(matches!(
        DataType::from(&"int32".to_string()),
        Some(DataType::Int(Int { size: Some(IntegralSize::Int32) }))
    ));
}

#[test]
fn shadowing_resolves_to_the_inner_binding() {
    let mut tree = ScopeTree::new();
    tree.declare(0, "x".to_string());
    // Declared but untyped: resolution does not find it yet.
    assert_eq!(tree.get(0, &"x".to_string()).unwrap_err(), ErrorCode::VariableNotFound);
    assert!(tree.set(0, &"x".to_string(), Int::new(IntegralSize::Int32)).is_none());
    let outer = tree.get(0, &"x".to_string()).unwrap();
    assert_eq!(outer.id, 0);

    let child = tree.child(0);
    tree.declare(child, "x".to_string());
    // An untyped inner shadow does not hide the outer typed binding.
    let seen = tree.get(child, &"x".to_string()).unwrap();
    assert_eq!(seen.id, 0);

    // Once the inner binding is typed, it wins inside the block...
    assert!(tree.set(child, &"x".to_string(), Bool::new()).is_none());
    let inner = tree.get(child, &"x".to_string()).unwrap();
    assert_eq!(inner.id, 1);
    assert!(matches!(inner.typ, Some(DataType::Bool(_))));

    // ...and the outer scope still resolves to the outer binding.
    let outer_again = tree.get(0, &"x".to_string()).unwrap();
    assert_eq!(outer_again.id, 0);
    assert!(matches!(outer_again.typ, Some(DataType::Int(_))));

    // A name no ancestor holds fails.
    assert_eq!(tree.get(child, &"y".to_string()).unwrap_err(), ErrorCode::VariableNotFound);
    assert_eq!(tree.set(child, &"y".to_string(), Bool::new()), Some(ErrorCode::VariableNotFound));
}

#[test]
fn redeclaration_in_one_scope_shadows() {
    let mut tree = ScopeTree::new();
    tree.declare(0, "x".to_string());
    tree.set(0, &"x".to_string(), Int::new(IntegralSize::Int32));
    tree.declare(0, "x".to_string());
    // The later, untyped binding shadows within the scope, and falls back
    // to nothing above it.
    assert_eq!(tree.get(0, &"x".to_string()).unwrap_err(), ErrorCode::VariableNotFound);
    tree.set(0, &"x".to_string(), Bool::new());
    let v = tree.get(0, &"x".to_string()).unwrap();
    assert_eq!(v.id, 1);
}

#[test]
fn parameters_bind_already_typed() {
    let mut tree = ScopeTree::new();
    let body = tree.child(0);
    tree.param(body, "a".to_string(), Int::new(IntegralSize::Int32));
    let v = tree.get(body, &"a".to_string()).unwrap();
    assert_eq!(v.id, 0);
    assert!(matches!(v.typ, Some(DataType::Int(_))));
}

#[test]
fn locations_advance_within_a_line() {
    let mut loc = Location::new(2, 3, 10);
    let after = loc.shift(4);
    assert_eq!(after, Location { row: 2, col: 7, idx: 14 });
    let after = loc.next();
    assert_eq!(after, Location { row: 2, col: 8, idx: 15 });
    assert_eq!(Location::empty(), Location { row: 0, col: 0, idx: 0 });
}

#[test]
fn tokens_measure_their_spans() {
    let t = Token::new(
        Location { row: 0, col: 2, idx: 2 },
        Location { row: 0, col: 5, idx: 5 },
        Type::Let,
    );
    assert_eq!(t.size, 3);
    let e = Token::empty();
    assert!(matches!(e.typ, Type::EOF));
    assert_eq!(e.size, 0);
    let o = Token::open(Location { row: 1, col: 0, idx: 9 }, Type::Comma, 1);
    assert_eq!(o.start, o.end);
    assert_eq!(o.size, 1);
}

#[test]
fn decimal_rendering_is_exact() {
    assert_eq!(decimal_string(0), "0");
    assert_eq!(decimal_string(7), "7");
    assert_eq!(decimal_string(1234), "1234");
    assert_eq!(decimal_string(u32::MAX), "4294967295");
    assert_eq!(size(1), 1);
    assert_eq!(size(10), 2);
    assert_eq!(size(4294967295), 10);
}

#[test]
fn strings_rebuild_from_characters() {
    let chars: Vec<char> = vec!['h', 'i', ' ', '!'];
    assert_eq!(string_from_chars(&chars), "hi !");
    assert_eq!(string_from_chars(&Vec::new()), "");
}

#[test]
fn renderer_lays_out_one_line_diagnostics() {
    let e = Error::new(
        vec!["let x = 1".to_string()],
        "boom".to_string(),
        Location { row: 0, col: 4, idx: 4 },
        Location { row: 0, col: 5, idx: 5 },
        ErrorCode::TypeMismatch,
    );
    assert_eq!(e.render(), "E0006 TypeMismatch:\n1. let x = 1\n       ^\nboom (1:5)\n");
}

#[test]
fn renderer_shows_at_most_five_lines_with_aligned_numbers() {
    let lines: Vec<String> = (0..10).map(|i| format!("a{}", i)).collect();
    let e = Error::new(
        lines,
        "msg".to_string(),
        Location { row: 9, col: 0, idx: 27 },
        Location { row: 9, col: 1, idx: 28 },
        ErrorCode::VariableNotFound,
    );
    let expected = "E0007 VariableNotFound:\n\
        6.  a5\n\
        7.  a6\n\
        8.  a7\n\
        9.  a8\n\
        10. a9\n\
        \u{20}   ^\n\
        msg (10:1)\n";
    assert_eq!(e.render(), expected);
}

#[test]
fn renderer_underlines_to_the_end_of_the_start_line_for_multiline_spans() {
    // Span from (0,4) into the next line: the carets run to the end of the
    // first line.
    let e = Error::new(
        vec!["let x = 1".to_string(), "next".to_string()],
        "m".to_string(),
        Location { row: 0, col: 4, idx: 4 },
        Location { row: 1, col: 2, idx: 12 },
        ErrorCode::Unknown,
    );
    // The start line spans offsets 0..9, newline at 9: carets 4..9.
    assert_eq!(e.render(), "E0000 Unknown:\n1. let x = 1\n       ^^^^^\nm (1:5)\n");
}

#[test]
fn error_codes_number_the_taxonomy() {
    assert_eq!(ErrorCode::Unknown.code(), 0);
    assert_eq!(ErrorCode::UnexpectedToken.code(), 1);
    assert_eq!(ErrorCode::IncorrectParsingType.code(), 2);
    assert_eq!(ErrorCode::InvalidStatement.code(), 3);
    assert_eq!(ErrorCode::InvalidExpression.code(), 4);
    assert_eq!(ErrorCode::ReservedNameUsed.code(), 5);
    assert_eq!(ErrorCode::TypeMismatch.code(), 6);
    assert_eq!(ErrorCode::VariableNotFound.code(), 7);
    assert_eq!(ErrorCode::TypeMismatch.name(), "TypeMismatch");
}
