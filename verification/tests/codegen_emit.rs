use inkwell::context::Context;
use pebbles::ast::Item;
use pebbles::codegen::Codegen;
use pebbles::lexer::Lexer;
use pebbles::parser::Parser;

fn items_of(src: &str) -> Vec<Item> {
    let mut lx = Lexer::new(src);
    let toks = lx.tokenize();
    Parser::new(toks).parse().expect("parse")
}

/// Compiles `src`; on success the module must pass LLVM's verifier.
fn compile(src: &str) -> Result<(), String> {
    let items = items_of(src);
    let context = Context::create();
    let mut cg = Codegen::new(&context, "test");
    cg.compile(&items)?;
    if let Err(e) = cg.module().verify() {
        panic!("invalid module: {}", e.to_string());
    }
    Ok(())
}

fn function_names(src: &str) -> Vec<String> {
    let items = items_of(src);
    let context = Context::create();
    let mut cg = Codegen::new(&context, "test");
    cg.compile(&items).expect("compile");
    cg.module()
        .get_functions()
        .map(|f| f.get_name().to_str().unwrap().to_string())
        .collect()
}

#[test]
fn greeting_program_compiles() {
    let src = "fn greet(name: str) {\n    print(\"hello, \" + name)\n}\n\nfn main() {\n    greet(\"world\")\n}\n";
    assert_eq!(compile(src), Ok(()));
}

#[test]
fn fizzbuzz_program_compiles() {
    let src = "struct Config {\n    limit: i32\n    fizz:  str\n    buzz:  str\n}\n\n\
fn fizzbuzz(cfg: Config) {\n    for i in 1..=cfg.limit {\n        let f = i % 3 == 0\n        let b = i % 5 == 0\n\n\
        match (f, b) {\n            (true,  true)  => print(cfg.fizz + cfg.buzz)\n            (true,  false) => print(cfg.fizz)\n\
            (false, true)  => print(cfg.buzz)\n            _              => print(str(i))\n        }\n    }\n}\n\n\
fn main() {\n    let cfg = Config { limit: 30, fizz: \"Fizz\", buzz: \"Buzz\" }\n    fizzbuzz(cfg)\n}\n";
    assert_eq!(compile(src), Ok(()));
}

#[test]
fn loops_arrays_and_optionals_compile() {
    let src = "fn main() {\n    let mut xs = [1, 2, 3]\n    xs.push(4)\n    let n = xs.length\n    let mut i = 0\n\
    while i < n {\n        if xs[i] == 2 {\n            break\n        }\n        i += 1\n    }\n\
    for x in xs {\n        print(str(x))\n    }\n    let found = xs.contains(3)\n    let maybe: ?i32 = none\n\
    if maybe == none {\n        print(\"none\")\n    }\n    let t = (1, true)\n    let same = t == (1, true)\n}\n";
    assert_eq!(compile(src), Ok(()));
}

#[test]
fn floats_and_casts_compile() {
    let src = "fn main() {\n    let x: i32 = 5\n    let y = x as f64\n    let z = sqrt(y * 2.5)\n    let w = z as i64\n    let back = w as i32\n}\n";
    assert_eq!(compile(src), Ok(()));
}

#[test]
fn functions_methods_and_runtime_are_declared() {
    let names = function_names("struct P {\n    x: i32\n}\nimpl P {\n    fn get(self) -> i32 {\n        return 1\n    }\n}\nfn main() {\n}\n");
    assert!(names.contains(&"main".to_string()));
    assert!(names.contains(&"P__get".to_string()));
    assert!(names.contains(&"pebbles_print_str".to_string()));
    assert!(names.contains(&"pebbles_array_new".to_string()));
    assert!(names.contains(&"pebbles_str_eq".to_string()));
}

#[test]
fn struct_pass_error_comes_first() {
    let src = "fn f() {\n}\nfn f() {\n}\nstruct P {\n    x: i32\n}\nstruct P {\n    y: i32\n}\n";
    assert_eq!(compile(src), Err("duplicate struct 'P'".to_string()));
}

#[test]
fn signature_pass_error() {
    let src = "fn f() {\n}\nfn f() {\n}\n";
    assert_eq!(compile(src), Err("function 'f' already defined".to_string()));
}

#[test]
fn missing_return_is_reported() {
    let src = "fn f() -> i32 {\n    let x = 1\n}\n";
    assert_eq!(compile(src), Err("missing return in function 'f'".to_string()));
}

#[test]
fn break_outside_loop_is_reported() {
    let src = "fn main() {\n    break\n}\n";
    assert_eq!(compile(src), Err("break outside loop".to_string()));
}

#[test]
fn unsupported_str_conversion_is_reported() {
    let src = "fn main() {\n    let s = str(1.5)\n}\n";
    assert_eq!(compile(src), Err("str() only supports i32, bool and str for now".to_string()));
}

#[test]
fn unknown_function_is_reported() {
    let src = "fn main() {\n    nothing(1)\n}\n";
    assert_eq!(compile(src), Err("unknown function 'nothing'".to_string()));
}

#[test]
fn none_needs_an_optional_context() {
    let src = "fn main() {\n    let x: i32 = none\n}\n";
    assert_eq!(compile(src), Err("none requires optional type".to_string()));
}

#[test]
fn if_with_value_needs_else() {
    let src = "fn main() {\n    let x: i32 = if true {\n        1\n    }\n}\n";
    assert_eq!(compile(src), Err("if expression with value requires else".to_string()));
}

#[test]
fn codegen_signature_pass_matches_the_tables() {
    let items = items_of("fn f(a: i32) -> i32 {\n    return a\n}\nfn f() {\n}\n");
    let context = Context::create();
    let mut cg = Codegen::new(&context, "test");
    assert_eq!(cg.collect_signatures(&items), Err("function 'f' already defined".to_string()));
    let items = items_of("fn g() {\n}\n");
    let mut cg = Codegen::new(&context, "test2");
    assert_eq!(cg.collect_signatures(&items), Ok(()));
}

#[test]
fn last_expression_is_the_return_value() {
    let src = "fn mul(a: i32, b: i32) -> i32 {\n    a * b\n}\nfn main() {\n    print(str(mul(2, 3)))\n}\n";
    assert_eq!(compile(src), Ok(()));
}

#[test]
fn print_and_str_take_ints_bools_and_strings() {
    let src = "fn main() {\n    print(42)\n    print(true)\n    print(\"x\")\n    let s = str(false)\n}\n";
    assert_eq!(compile(src), Ok(()));
}

#[test]
fn optional_compares_with_none() {
    let src = "fn main() {\n    let val: ?i32 = 42\n    if val != none {\n        print(\"some\")\n    }\n}\n";
    assert_eq!(compile(src), Ok(()));
}

fn ir_of(src: &str) -> String {
    let items = items_of(src);
    let context = Context::create();
    let mut cg = Codegen::new(&context, "test");
    cg.compile(&items).expect("compile");
    cg.module().print_to_string().to_string()
}

#[test]
fn trailing_product_is_returned() {
    let ir = ir_of("fn mul(a: i32, b: i32) -> i32 {\n    a * b\n}\nfn main() {\n}\n");
    assert!(ir.contains("%imul = mul i32 %a"), "{}", ir);
    assert!(ir.contains("ret i32 %imul"), "{}", ir);
}

#[test]
fn subtraction_keeps_operand_order() {
    let ir = ir_of("fn sub(a: i32, b: i32) -> i32 {\n    a - b\n}\nfn main() {\n}\n");
    assert!(ir.contains("%isub = sub i32 %a, %b") || ir.contains("%isub = sub i32 %a1, %b2"), "{}", ir);
}

#[test]
fn range_loop_picks_its_test_by_the_inclusive_flag() {
    let ir = ir_of("fn main() {\n    for i in 0..3 {\n        print(str(i))\n    }\n}\n");
    assert!(ir.contains("icmp sle i32"), "{}", ir);
    assert!(ir.contains("icmp slt i32"), "{}", ir);
    assert!(ir.contains("select i1 false, i1 %cmple, i1 %cmplt"), "{}", ir);
    let ir = ir_of("fn main() {\n    for i in 0..=3 {\n        print(str(i))\n    }\n}\n");
    assert!(ir.contains("select i1 true, i1 %cmple, i1 %cmplt"), "{}", ir);
}

#[test]
fn optional_inequality_with_none_in_a_let() {
    let src = "fn main() {\n    let val: ?i32 = 42\n    let present = val != none\n    if present {\n        print(\"some\")\n    }\n}\n";
    assert_eq!(compile(src), Ok(()));
}

#[test]
fn method_reads_a_field_through_self() {
    let src = "struct P {\n    x: i32\n}\nimpl P {\n    fn get(self) -> i32 {\n        return self.x\n    }\n}\nfn main() {\n    let p = P { x: 1 }\n    print(str(p.get()))\n}\n";
    assert_eq!(compile(src), Ok(()));
}

#[test]
fn match_tests_arms_in_order_on_one_subject() {
    let ir = ir_of("fn main() {\n    let n = 2\n    match n {\n        1 => print(\"one\")\n        2 => print(\"two\")\n        _ => print(\"many\")\n    }\n}\n");
    let tests: Vec<&str> = ir.lines().filter(|l| l.contains("icmp eq i32")).collect();
    assert_eq!(tests.len(), 2, "{}", ir);
    assert!(tests[0].trim_end().ends_with(", 1"), "{}", ir);
    assert!(tests[1].trim_end().ends_with(", 2"), "{}", ir);
    let loads = ir.lines().filter(|l| l.contains("load i32, i32* %n,")).count();
    assert_eq!(loads, 1, "{}", ir);
}

#[test]
fn str_of_a_bool_picks_between_true_and_false() {
    let ir = ir_of("fn main() {\n    let b = 1 < 2\n    print(str(b))\n}\n");
    assert!(ir.contains("c\"true\\00\""), "{}", ir);
    assert!(ir.contains("c\"false\\00\""), "{}", ir);
    assert!(ir.contains("select i1 %b"), "{}", ir);
}
