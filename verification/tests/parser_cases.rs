use pebbles::ast::{AssignTarget, BinOp, Expr, Item, Pattern, Stmt, Type};
use pebbles::lexer::{Lexer, Token};
use pebbles::parser::{expr_to_assign_target, ParseError, Parser};

fn parse_src(src: &str) -> Result<Vec<Item>, ParseError> {
    let mut lx = Lexer::new(src);
    let toks = lx.tokenize();
    let mut p = Parser::new(toks);
    p.parse()
}

fn body_of_main(src: &str) -> Vec<Stmt> {
    let items = parse_src(src).expect("parse");
    match items.into_iter().next() {
        Some(Item::Fn(f)) => f.body,
        other => panic!("expected a function, found {:?}", other),
    }
}

#[test]
fn parses_function_with_params_and_return_type() {
    let items = parse_src("fn add(a: i32, mut b: i64) -> i64 { return b }").expect("parse");
    assert_eq!(items.len(), 1);
    match &items[0] {
        Item::Fn(f) => {
            assert_eq!(f.name, "add");
            assert_eq!(f.params.len(), 2);
            assert!(matches!(f.params[0].ty, Type::I32));
            assert!(!f.params[0].mutable);
            assert!(f.params[1].mutable);
            assert!(matches!(f.ret, Type::I64));
            assert!(matches!(f.body[0], Stmt::Return { value: Some(Expr::Ident(_, 1)), line: 1 }));
        }
        other => panic!("unexpected {:?}", other),
    }
}

#[test]
fn parses_struct_fields_with_separators() {
    let items = parse_src("struct P { x: i32; y: [f64], z: ?str }").expect("parse");
    match &items[0] {
        Item::Struct(s) => {
            assert_eq!(s.name, "P");
            assert_eq!(s.fields.len(), 3);
            assert!(matches!(s.fields[1].ty, Type::Array(_)));
            assert!(matches!(s.fields[2].ty, Type::Optional(_)));
        }
        other => panic!("unexpected {:?}", other),
    }
}

#[test]
fn operator_precedence_and_left_associativity() {
    let body = body_of_main("fn main() { let x = 1 + 2 * 3 - 4 }");
    match &body[0] {
        Stmt::Let { value: Expr::BinOp { op: BinOp::Sub, left, .. }, .. } => {
            assert!(matches!(**left, Expr::BinOp { op: BinOp::Add, .. }));
        }
        other => panic!("unexpected {:?}", other),
    }
}

#[test]
fn compound_assignment_desugars() {
    let body = body_of_main("fn main() { let mut i = 0\n i += 2 }");
    match &body[1] {
        Stmt::Assign { target: AssignTarget::Ident(n, _), value: Expr::BinOp { op: BinOp::Add, .. }, line } => {
            assert_eq!(n, "i");
            assert_eq!(*line, 2);
        }
        other => panic!("unexpected {:?}", other),
    }
}

#[test]
fn for_over_inclusive_range() {
    let body = body_of_main("fn main() { for i in 0..=10 { print(i) } }");
    match &body[0] {
        Stmt::For { var, iter: Expr::Range { inclusive, .. }, body, .. } => {
            assert_eq!(var, "i");
            assert!(*inclusive);
            assert_eq!(body.len(), 1);
        }
        other => panic!("unexpected {:?}", other),
    }
}

#[test]
fn match_with_tuple_and_wildcard_patterns() {
    let body = body_of_main("fn main() { match (a, b) { (true, false) => print(1)\n _ => { print(2) } } }");
    match &body[0] {
        Stmt::Expr(Expr::Match { arms, .. }) => {
            assert_eq!(arms.len(), 2);
            assert!(matches!(arms[0].pattern, Pattern::Tuple(_)));
            assert!(matches!(arms[1].pattern, Pattern::Wildcard));
        }
        other => panic!("unexpected {:?}", other),
    }
}

#[test]
fn struct_literal_and_method_call() {
    let body = body_of_main("fn main() { let p = Point { x: 1, y: 2 }\n p.move_by(3) }");
    assert!(matches!(&body[0], Stmt::Let { value: Expr::StructLit { fields, .. }, .. } if fields.len() == 2));
    assert!(matches!(&body[1], Stmt::Expr(Expr::MethodCall { args, .. }) if args.len() == 1));
}

#[test]
fn if_else_if_chain() {
    let body = body_of_main("fn main() { if x > 1 { a() } else if x == 1 { b() } else { c() } }");
    match &body[0] {
        Stmt::Expr(Expr::If { else_: Some(e), .. }) => {
            assert!(matches!(e[0], Stmt::Expr(Expr::If { .. })));
        }
        other => panic!("unexpected {:?}", other),
    }
}

#[test]
fn missing_identifier_is_reported_with_line() {
    let err = parse_src("fn 1() {}").unwrap_err();
    assert_eq!(err.message, "expected identifier, found Int(1)");
    assert_eq!(err.line, 1);
}

#[test]
fn unknown_top_level_item_is_reported() {
    let err = parse_src("\n\nlet x = 1").unwrap_err();
    assert_eq!(err.message, "expected top-level item (fn, struct, impl), found Let");
    assert_eq!(err.line, 3);
}

#[test]
fn expected_token_error_names_both_tokens() {
    let err = parse_src("fn f( {").unwrap_err();
    assert_eq!(err.line, 1);
    assert!(err.message.starts_with("expected "));
}

#[test]
fn invalid_assignment_target_is_rejected() {
    let err = parse_src("fn main() { f() = 2 }").unwrap_err();
    assert_eq!(err.message, "invalid assignment target");
}

#[test]
fn statement_starting_with_a_literal_is_an_expression() {
    // `1` is a statement of its own; the `=` after it starts no expression
    let err = parse_src("fn main() { 1 = 2 }").unwrap_err();
    assert_eq!(err.message, "unexpected token in expression: Assign");
}

#[test]
fn self_names_the_receiver_in_a_method_body() {
    let items = parse_src("impl P { fn get(self) -> i32 { return self.x } }").unwrap();
    match &items[0] {
        Item::Impl(imp) => match &imp.methods[0].body[0] {
            Stmt::Return { value: Some(Expr::FieldAccess { obj, field, .. }), .. } => {
                assert!(matches!(&**obj, Expr::Ident(n, _) if n == "self"));
                assert_eq!(field, "x");
            },
            other => panic!("unexpected statement {:?}", other),
        },
        other => panic!("unexpected item {:?}", other),
    }
}

#[test]
fn only_names_fields_and_indexes_are_targets() {
    assert!(expr_to_assign_target(Expr::Ident("x".into(), 4)).is_some());
    assert!(expr_to_assign_target(Expr::Int(1, 4)).is_none());
    let field = Expr::FieldAccess { obj: Box::new(Expr::Ident("p".into(), 1)), field: "x".into(), line: 1 };
    assert!(matches!(expr_to_assign_target(field), Some(AssignTarget::Field { .. })));
}

#[test]
fn parser_on_hand_written_tokens() {
    let toks = vec![(Token::Fn, 1), (Token::Ident("f".into()), 1), (Token::LParen, 1), (Token::RParen, 1),
        (Token::LBrace, 1), (Token::RBrace, 1), (Token::EOF, 1)];
    let items = Parser::new(toks).parse().expect("parse");
    assert!(matches!(&items[0], Item::Fn(f) if f.body.is_empty() && matches!(f.ret, Type::Void)));
}

#[test]
fn error_text_shows_tokens_as_debug_does() {
    let toks = vec![(Token::Fn, 1), (Token::StringLit("a\"b\n".to_string()), 1), (Token::EOF, 1)];
    let err = Parser::new(toks).parse().expect_err("a string is no name");
    assert_eq!(err.message, "expected identifier, found StringLit(\"a\\\"b\\n\")");
    let toks = vec![
        (Token::Fn, 2), (Token::Ident("f".to_string()), 2), (Token::LParen, 2),
        (Token::Ident("a".to_string()), 2), (Token::Colon, 2), (Token::Int(-3), 2), (Token::EOF, 2),
    ];
    let err = Parser::new(toks).parse().expect_err("a number is no type");
    assert_eq!(err.line, 2);
    assert_eq!(err.message, "expected type, found Int(-3)");
}

#[test]
fn float_tokens_show_the_number_in_errors() {
    let err = parse_src("fn 001.250() {}").unwrap_err();
    assert_eq!(err.message, "expected identifier, found Float(1.25)");
    let err = parse_src("fn 0.50() {}").unwrap_err();
    assert_eq!(err.message, "expected identifier, found Float(0.5)");
    let err = parse_src("fn 3.0() {}").unwrap_err();
    assert_eq!(err.message, "expected identifier, found Float(3.0)");
}
