use pebbles::ast::{BinOp, Expr, Item, Type};
use pebbles::lexer::Lexer;
use pebbles::parser::Parser;
use pebbles::typeck::{type_eq, usize_text, TypeChecker, TypeError};

fn items_of(src: &str) -> Vec<Item> {
    let mut lx = Lexer::new(src);
    let toks = lx.tokenize();
    Parser::new(toks).parse().expect("parse")
}

fn check_src(src: &str) -> Result<(), TypeError> {
    let items = items_of(src);
    let mut tc = TypeChecker::new();
    tc.check(&items)
}

fn check_err(src: &str) -> TypeError {
    check_src(src).expect_err("expected a type error")
}

#[test]
fn readme_fizzbuzz_example_checks() {
    let src = "struct Config {\n limit: i32\n fizz: str\n buzz: str\n}\n\
        fn fizzbuzz(cfg: Config) {\n for i in 1..=cfg.limit {\n let f = i % 3 == 0\n let b = i % 5 == 0\n\
        match (f, b) {\n (true, true) => print(cfg.fizz + cfg.buzz)\n (true, false) => print(cfg.fizz)\n\
        (false, true) => print(cfg.buzz)\n _ => print(str(i))\n }\n }\n}\n\
        fn main() {\n let cfg = Config { limit: 30, fizz: \"Fizz\", buzz: \"Buzz\" }\n fizzbuzz(cfg)\n}\n";
    assert!(check_src(src).is_ok());
}

#[test]
fn immutable_variable_cannot_be_assigned() {
    let e = check_err("fn main() {\n let x = 10\n x = 11\n}");
    assert_eq!(e.message, "cannot assign to immutable variable");
    assert_eq!(e.line, 3);
}

#[test]
fn mutable_variable_can_be_assigned() {
    assert!(check_src("fn main() { let mut count = 0\n count += 1 }").is_ok());
}

#[test]
fn numeric_types_need_an_explicit_cast() {
    let e = check_err("fn main() { let x: i32 = 5\n let y: f64 = x }");
    assert_eq!(e.message, "cannot assign I32 to F64");
    assert!(check_src("fn main() { let x: i32 = 5\n let y = x as f64 }").is_ok());
}

#[test]
fn optionals_accept_none_and_values() {
    assert!(check_src("fn main() { let maybe: ?i32 = none\n let val: ?i32 = 42 }").is_ok());
}

#[test]
fn undefined_variable_is_reported() {
    let e = check_err("fn main() {\n\n print(y) }");
    assert_eq!(e.message, "undefined variable 'y'");
    assert_eq!(e.line, 3);
}

#[test]
fn duplicate_function_is_reported() {
    let e = check_err("fn f() {}\nfn f() {}");
    assert_eq!(e.message, "function 'f' already defined");
    assert_eq!(e.line, 2);
}

#[test]
fn argument_count_mismatch_is_reported() {
    let e = check_err("fn f(a: i32) {}\nfn main() { f(1, 2) }");
    assert_eq!(e.message, "expected 1 argument(s), got 2");
}

#[test]
fn return_type_is_checked() {
    let e = check_err("fn f() -> i32 { return true }");
    assert_eq!(e.message, "cannot assign Bool to I32");
    assert!(check_src("fn f() -> i32 { return 1 }").is_ok());
}

#[test]
fn missing_struct_field_is_reported() {
    let e = check_err("struct P { x: i32\n y: i32 }\nfn main() { let p = P { x: 1 } }");
    assert_eq!(e.message, "missing field 'y' in 'P' literal");
}

#[test]
fn unknown_struct_field_is_reported() {
    let e = check_err("struct P { x: i32 }\nfn main() { let p = P { x: 1, z: 2 } }");
    assert_eq!(e.message, "unknown field 'z' in struct 'P'");
}

#[test]
fn impl_for_unknown_struct_is_reported() {
    let e = check_err("impl Q { fn f(self) {} }");
    assert_eq!(e.message, "impl for unknown struct 'Q'");
}

#[test]
fn push_needs_a_mutable_array() {
    let e = check_err("fn main() { let a = [1, 2]\n a.push(3) }");
    assert_eq!(e.message, "push() requires a mutable array");
    assert!(check_src("fn main() { let mut a = [1, 2]\n a.push(3) }").is_ok());
}

#[test]
fn mismatched_array_elements_are_reported() {
    let e = check_err("fn main() { let a = [1, true] }");
    assert_eq!(e.message, "type mismatch: Bool vs I32");
}

#[test]
fn string_concatenation_is_allowed() {
    assert!(check_src("fn main() { let s = \"a\" + \"b\" }").is_ok());
    let e = check_err("fn main() { let s = true + 1 }");
    assert_eq!(e.message, "expected numeric type, got Bool");
}

#[test]
fn while_condition_must_be_bool() {
    let e = check_err("fn main() { while 1 { } }");
    assert_eq!(e.message, "expected Bool, got I32");
}

#[test]
fn tuple_pattern_length_is_checked() {
    let e = check_err("fn main() { match (1, 2) { (a, b, c) => print(\"x\") } }");
    assert_eq!(e.message, "tuple pattern length mismatch: 3 vs 2");
}

#[test]
fn infer_expr_of_literals_and_operators() {
    let tc = TypeChecker::new();
    assert!(matches!(tc.infer_expr(&Expr::Int(1, 1)), Ok(Type::I32)));
    assert!(matches!(tc.infer_expr(&Expr::NoneLit(1)), Ok(Type::Optional(_))));
    let cmp = Expr::BinOp { op: BinOp::Lt, left: Box::new(Expr::Int(1, 1)), right: Box::new(Expr::Int(2, 1)), line: 1 };
    assert!(matches!(tc.infer_expr(&cmp), Ok(Type::Bool)));
    let e = tc.infer_expr(&Expr::Ident("nope".into(), 7)).unwrap_err();
    assert_eq!(e.message, "undefined variable 'nope'");
    assert_eq!(e.line, 7);
}

#[test]
fn method_call_checks_argument_types() {
    let src = "struct P { x: i32 }\nimpl P { fn add(mut self, d: i32) { let e = d + 1 } }\n\
        fn main() { let mut p = P { x: 1 }\n p.add(true) }";
    assert_eq!(check_err(src).message, "cannot assign Bool to I32");
}

#[test]
fn checker_can_be_reused_after_success() {
    let items = items_of("fn main() { let x = 1 }");
    let mut tc = TypeChecker::new();
    assert!(tc.check(&items).is_ok());
    // the first pass registered `main`: checking the same items again reports it
    let e = tc.check(&items).unwrap_err();
    assert_eq!(e.message, "function 'main' already defined");
}

#[test]
fn display_text_of_a_type_error() {
    let e = check_err("fn main() {\n x = 1 }");
    assert_eq!(e.to_display_string(), "type error on line 2: undefined variable 'x'");
}

#[test]
fn decimal_text_of_numbers() {
    assert_eq!(usize_text(0), "0");
    assert_eq!(usize_text(7), "7");
    assert_eq!(usize_text(1024), "1024");
}

#[test]
fn structural_type_equality() {
    let a = Type::Tuple(vec![Type::I32, Type::Array(Box::new(Type::Str))]);
    let b = Type::Tuple(vec![Type::I32, Type::Array(Box::new(Type::Str))]);
    let c = Type::Tuple(vec![Type::I32, Type::Array(Box::new(Type::Bool))]);
    assert!(type_eq(&a, &b));
    assert!(!type_eq(&a, &c));
    assert!(type_eq(&Type::Named("P".into()), &Type::Named("P".into())));
    assert!(!type_eq(&Type::Named("P".into()), &Type::Named("Q".into())));
}

#[test]
fn locals_of_checked_functions_are_gone_afterwards() {
    let items = items_of("fn main() { let x = 1 }");
    let mut tc = TypeChecker::new();
    assert!(tc.check(&items).is_ok());
    let e = tc.infer_expr(&Expr::Ident("x".into(), 9)).unwrap_err();
    assert_eq!(e.message, "undefined variable 'x'");
}

#[test]
fn signatures_collected_by_a_check_stay_known() {
    let items = items_of("fn five() -> i64 { return 5 as i64 }");
    let mut tc = TypeChecker::new();
    assert!(tc.check(&items).is_ok());
    let call = Expr::Call { name: "five".into(), args: vec![], line: 1 };
    assert!(matches!(tc.infer_expr(&call), Ok(Type::I64)));
}

#[test]
fn print_takes_any_value() {
    assert!(check_src("fn main() {\n print(42)\n print(true)\n print(\"x\")\n}\n").is_ok());
    let e = check_err("fn main() {\n print(1, 2)\n}\n");
    assert_eq!(e.message, "print() takes exactly 1 argument");
}

#[test]
fn optional_can_be_compared_with_none() {
    assert!(check_src("fn main() {\n let val: ?i32 = 42\n if val != none {\n print(val)\n }\n let same = none == val\n}\n").is_ok());
    let e = check_err("fn main() {\n let x = 1\n let b = x == none\n}\n");
    assert_eq!(e.message, "type mismatch: I32 vs Optional(Void)");
}

#[test]
fn names_declared_in_a_block_are_gone_after_it() {
    let e = check_err("fn main() {\n if true {\n let x = 1\n }\n print(x)\n}\n");
    assert_eq!(e.message, "undefined variable 'x'");
}

#[test]
fn type_error_text_shows_types_as_debug_does() {
    let e = check_err("fn main() {\n let t: ?[bool] = 1\n}\n");
    assert_eq!(e.message, "cannot assign I32 to Optional(Array(Bool))");
    let e = check_err("struct Point {\n x: i32\n}\nfn main() {\n let p: Point = 1\n}\n");
    assert_eq!(e.message, "cannot assign I32 to Named(\"Point\")");
}

#[test]
fn methods_read_fields_through_self() {
    let src = "struct P { x: i32 } impl P { fn get(self) -> i32 { return self.x } } fn main() { let p = P { x: 3 }; print(p.get()) }";
    assert!(check_src(src).is_ok());
}
