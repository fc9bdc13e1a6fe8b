use pebbles::ast::{BinOp, Expr, Item, Type};
use pebbles::codegen::{BinOpPlan, CastPlan, CodegenTables, MachineType};
use pebbles::lexer::Lexer;
use pebbles::parser::Parser;
use pebbles::typeck::{type_eq, TypeChecker};

fn items_of(src: &str) -> Vec<Item> {
    let mut lx = Lexer::new(src);
    let toks = lx.tokenize();
    Parser::new(toks).parse().expect("parse")
}

fn tables_for(src: &str) -> CodegenTables {
    let items = items_of(src);
    let mut t = CodegenTables::new();
    t.collect_structs(&items).expect("structs");
    t.collect_signatures(&items).expect("signatures");
    t
}

#[test]
fn builtins_and_functions_are_recorded() {
    let t = tables_for("fn add(a: i32, b: i32) -> i32 { return a + b }");
    let add = t.sig(&"add".to_string()).expect("add");
    assert_eq!(add.params.len(), 2);
    assert!(matches!(add.ret, Type::I32));
    assert!(matches!(t.sig(&"sqrt".to_string()).unwrap().ret, Type::F64));
    assert!(t.sig(&"str".to_string()).is_none());
}

#[test]
fn methods_are_recorded_under_mangled_names() {
    let t = tables_for("struct P { x: i32 }\nimpl P { fn get(self) -> i32 { return 1 } }");
    let sig = t.sig(&"P__get".to_string()).expect("P__get");
    // the receiver is a parameter here
    assert_eq!(sig.params.len(), 1);
    assert!(matches!(sig.params[0], Type::SelfType));
    let info = t.struct_info(&"P".to_string()).expect("P");
    assert_eq!(info.methods.len(), 1);
    assert_eq!(info.fields[0].0, "x");
}

#[test]
fn duplicate_struct_is_refused() {
    let items = items_of("struct P { x: i32 }\nstruct P { y: i32 }");
    let mut t = CodegenTables::new();
    assert_eq!(t.collect_structs(&items).unwrap_err(), "duplicate struct 'P'");
}

#[test]
fn duplicate_function_is_refused() {
    let items = items_of("fn f() {}\nfn f() {}");
    let mut t = CodegenTables::new();
    assert_eq!(t.collect_signatures(&items).unwrap_err(), "function 'f' already defined");
}

#[test]
fn impl_for_unknown_struct_is_refused() {
    let items = items_of("impl Q { fn f(self) {} }");
    let mut t = CodegenTables::new();
    assert_eq!(t.collect_signatures(&items).unwrap_err(), "impl for unknown struct 'Q'");
}

#[test]
fn expression_types_for_code_generation() {
    let mut t = tables_for("struct P { x: i32 }\nfn f() -> str { return \"a\" }");
    t.push_scope();
    t.bind_var_type(&"p".to_string(), Type::Named("P".into()));
    let field = Expr::FieldAccess { obj: Box::new(Expr::Ident("p".into(), 1)), field: "x".into(), line: 1 };
    assert!(matches!(t.infer_expr_type(&field), Ok(Type::I32)));
    let call = Expr::Call { name: "f".into(), args: vec![], line: 1 };
    assert!(matches!(t.infer_expr_type(&call), Ok(Type::Str)));
    let cmp = Expr::BinOp { op: BinOp::Eq, left: Box::new(Expr::Int(1, 1)), right: Box::new(Expr::Int(2, 1)), line: 1 };
    assert!(matches!(t.infer_expr_type(&cmp), Ok(Type::Bool)));
    let bad = Expr::BinOp { op: BinOp::Add, left: Box::new(Expr::Int(1, 1)), right: Box::new(Expr::Bool(true, 1)), line: 1 };
    assert_eq!(t.infer_expr_type(&bad).unwrap_err(), "binop type mismatch");
    t.pop_scope();
    assert_eq!(t.infer_expr_type(&Expr::Ident("p".into(), 1)).unwrap_err(), "undefined variable 'p'");
}

#[test]
fn inner_scopes_shadow_outer_ones() {
    let mut t = CodegenTables::new();
    t.push_scope();
    t.bind_var_type(&"x".to_string(), Type::I32);
    t.push_scope();
    t.bind_var_type(&"x".to_string(), Type::Str);
    assert!(matches!(t.lookup_var_type(&"x".to_string()), Ok(Type::Str)));
    t.pop_scope();
    assert!(matches!(t.lookup_var_type(&"x".to_string()), Ok(Type::I32)));
}

#[test]
fn machine_types_of_pebble_types() {
    let t = CodegenTables::new();
    assert!(matches!(t.machine_type(&Type::Bool, None), MachineType::I1));
    assert!(matches!(t.machine_type(&Type::Str, None), MachineType::BytePtr));
    assert!(matches!(t.machine_type(&Type::Array(Box::new(Type::I32)), None), MachineType::ArrayHeader));
    match t.machine_type(&Type::SelfType, Some(&"P".to_string())) {
        MachineType::NamedStruct(n) => assert_eq!(n, "P"),
        other => panic!("unexpected {:?}", other),
    }
    match t.machine_type(&Type::Tuple(vec![Type::I64, Type::Optional(Box::new(Type::F64))]), None) {
        MachineType::TupleStruct(v) => {
            assert_eq!(v.len(), 2);
            assert!(matches!(v[1], MachineType::OptionalStruct(_)));
        }
        other => panic!("unexpected {:?}", other),
    }
}

#[test]
fn binary_operation_plans() {
    let t = CodegenTables::new();
    assert_eq!(t.binop_plan(BinOp::Add, &Type::F64), BinOpPlan::FloatArith(BinOp::Add));
    assert_eq!(t.binop_plan(BinOp::Add, &Type::Str), BinOpPlan::StrConcat);
    assert_eq!(t.binop_plan(BinOp::Sub, &Type::Str), BinOpPlan::IntArith(BinOp::Sub));
    assert_eq!(t.binop_plan(BinOp::Mod, &Type::I64), BinOpPlan::IntArith(BinOp::Mod));
    assert_eq!(t.binop_plan(BinOp::NotEq, &Type::Str), BinOpPlan::StrEq { negate: true });
    assert_eq!(
        t.binop_plan(BinOp::Eq, &Type::Tuple(vec![Type::I32])),
        BinOpPlan::StructuralEq { negate: false }
    );
    assert_eq!(t.binop_plan(BinOp::Lt, &Type::Str), BinOpPlan::IntCompare(BinOp::Lt));
    assert_eq!(t.binop_plan(BinOp::GtEq, &Type::F64), BinOpPlan::FloatCompare(BinOp::GtEq));
    assert_eq!(t.binop_plan(BinOp::Or, &Type::Bool), BinOpPlan::Logic(BinOp::Or));
}

#[test]
fn cast_plans_and_unsupported_casts() {
    let t = CodegenTables::new();
    assert_eq!(t.cast_plan(&Type::I64, &Type::F64).unwrap(), CastPlan::IntToFloat);
    assert_eq!(t.cast_plan(&Type::F64, &Type::I32).unwrap(), CastPlan::FloatToI32);
    assert_eq!(t.cast_plan(&Type::I32, &Type::I64).unwrap(), CastPlan::WidenToI64);
    assert_eq!(t.cast_plan(&Type::I64, &Type::I32).unwrap(), CastPlan::NarrowToI32);
    assert_eq!(t.cast_plan(&Type::Bool, &Type::I32).unwrap_err(), "unsupported cast Bool -> I32");
}

#[test]
fn plain_expression_types_agree_with_the_checker() {
    let int = |n: i64| Expr::Int(n, 1);
    let bin = |op: BinOp, l: Expr, r: Expr| Expr::BinOp { op, left: Box::new(l), right: Box::new(r), line: 1 };
    let e = Expr::Tuple(
        vec![
            bin(BinOp::Add, int(1), int(2)),
            Expr::Array(vec![Expr::Float("1.5".into(), 1), Expr::Float("2.5".into(), 1)], 1),
            bin(BinOp::Add, Expr::Str("a".into(), 1), Expr::Str("b".into(), 1)),
            Expr::Cast { expr: Box::new(int(3)), ty: Type::F64, line: 1 },
            bin(BinOp::Eq, Expr::NoneLit(1), Expr::NoneLit(1)),
            bin(BinOp::Lt, int(1), int(2)),
        ],
        1,
    );
    let checked = TypeChecker::new().infer_expr(&e).expect("checks");
    let generated = CodegenTables::new().infer_expr_type(&e).expect("infers");
    assert!(type_eq(&checked, &generated));
    assert!(matches!(generated, Type::Tuple(ref ts) if ts.len() == 6));
}
