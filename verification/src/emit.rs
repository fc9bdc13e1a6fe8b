//! LLVM code generation: lowers a checked program to an LLVM module through
//! `inkwell`. The choices (which type, which operation, which runtime call,
//! which error) are made here; every LLVM call goes through `crate::llvm`.
use vstd::prelude::*;

use inkwell::basic_block::BasicBlock;
use inkwell::builder::{Builder, BuilderError};
use inkwell::context::Context;
use inkwell::module::Module;
use inkwell::types::{BasicTypeEnum, StructType};
use inkwell::values::{BasicValueEnum, FloatValue, FunctionValue, IntValue, PointerValue, StructValue};

use crate::ast::{AssignTarget, BinOp, Expr, FnDef, Item, Param, Pattern, Stmt, Type, UnaryOp};
use crate::codegen::{msg3, same_name, BinOpPlan, CastPlan, CgEnv, CodegenTables, MachineType};
use crate::llvm;
use crate::llvm::{FloatRel, IntRel};
use crate::typeck::usize_text;
use crate::typing::find_last;
use crate::codegen::{cg_type, cg_types, mangled, binop_plan_of, cast_plan_of};
use crate::ast::{SpecExpr, SpecPattern, SpecType, spec_types, spec_patterns, spec_field_pats, spec_arms};
use crate::typing::find_first;

verus! {

/// An operation code generation asks LLVM for, as the generator's log
/// records it: constants, arithmetic, comparisons, logic, casts and calls of
/// the runtime.
pub enum Op {
    /// an `i32` constant of this value
    ConstInt(i64),
    /// a one-bit constant
    ConstBool(bool),
    /// an `f64` constant of the number this text denotes (zero if none)
    ConstFloat(Seq<char>),
    /// a pointer to a global string of this text
    ConstStr(Seq<char>),
    /// an optional whose present flag is false
    MakeNone,
    /// signed integer `+ - * / %`
    IntArith(BinOp),
    /// floating-point `+ - * / %`
    FloatArith(BinOp),
    /// an integer comparison
    IntCompare(IntRel),
    /// an ordered floating-point comparison
    FloatCompare(FloatRel),
    And,
    Or,
    Not,
    IntNeg,
    FloatNeg,
    /// a numeric conversion
    Cast(CastPlan),
    /// a call of the runtime function of this name
    Call(Seq<char>),
    /// a loop over a range, recorded once its code is complete: the counter
    /// `var` starts at `start`, the body runs while `test` holds, and `step`
    /// is the counter's next value
    CountLoop { var: Seq<char>, start: Term, test: Term, step: Term },
    /// a loop over an array, recorded once its code is complete: the index
    /// starts at `start`, while `test` holds `elem` is stored in `var` and the
    /// body runs, and `step` is the index's next value
    EachLoop { var: Seq<char>, start: Term, test: Term, elem: Term, step: Term },
    /// a match, recorded once its code is complete: the subject, of type `ty`,
    /// is generated once; then the arms' conditions `tests` are tested in
    /// order, and the body of the first arm whose condition holds runs in a
    /// scope of its own where the variables `binds` of that arm are bound
    Match { subject: Term, ty: SpecType, tests: Seq<Term>, binds: Seq<Seq<(Seq<char>, Term, SpecType)>> },
    /// a `ret` of the value of this term (made a present optional where the
    /// function's result is optional and the value is not)
    Ret(Term),
}

/// What a generated value computes, written over the values it was made from.
pub enum Term {
    /// the value of the variable of this name, loaded from its slot
    Var(Seq<char>),
    /// the value generated for an expression whose parts the terms do not
    /// follow (calls, blocks, aggregates)
    Of(SpecExpr),
    Int(i64),
    Bool(bool),
    /// the `f64` number this text denotes
    Float(Seq<char>),
    /// a pointer to a global string of this text
    Str(Seq<char>),
    /// an optional whose present flag is false
    NoneVal,
    /// field `i` of an aggregate: a tuple element, a struct field, the flag
    /// (0) or payload (1) of an optional, a range's start, end or flag
    Field(Box<Term>, u32),
    /// `l op r` on integers: `add`, `sub`, `mul`, `sdiv` (signed division,
    /// rounding toward zero) and `srem` (signed remainder) for `+ - * / %`
    IntArith(BinOp, Box<Term>, Box<Term>),
    /// `l op r` on doubles: `fadd`, `fsub`, `fmul`, `fdiv`, `frem`
    FloatArith(BinOp, Box<Term>, Box<Term>),
    /// `icmp` of `l` with `r` under the relation
    IntCompare(IntRel, Box<Term>, Box<Term>),
    /// ordered `fcmp` of `l` with `r` under the relation
    FloatCompare(FloatRel, Box<Term>, Box<Term>),
    And(Box<Term>, Box<Term>),
    Or(Box<Term>, Box<Term>),
    Not(Box<Term>),
    IntNeg(Box<Term>),
    FloatNeg(Box<Term>),
    Cast(CastPlan, Box<Term>),
    /// a call of the runtime function of this name on these arguments
    Call(Seq<char>, Seq<Term>),
    /// the number of elements of an array
    Len(Box<Term>),
    /// the element of an array at an index
    Elem(Box<Term>, Box<Term>),
    /// the index of the loop being generated, loaded from its slot
    LoopIndex,
    /// a value of the generator's own bookkeeping: an address, a size, a flag
    /// kept in a stack slot
    Machine,
    /// `if c { a } else { b }`
    Select(Box<Term>, Box<Term>, Box<Term>),
    /// whether two arrays have equal lengths and, index by index from 0,
    /// elements equal as values of this type
    ArrayEq(SpecType, Box<Term>, Box<Term>),
}

/// Field `i` of the aggregate `a`.
pub open spec fn field(a: Term, i: int) -> Term {
    Term::Field(Box::new(a), i as u32)
}

/// `a && b`, left operand first.
pub open spec fn and_t(a: Term, b: Term) -> Term {
    Term::And(Box::new(a), Box::new(b))
}

/// The conjunction `true && c0 && c1 && ...` of the terms in order.
pub open spec fn and_all(ts: Seq<Term>) -> Term
    decreases ts.len(),
{
    if ts.len() == 0 {
        Term::Bool(true)
    } else {
        and_t(and_all(ts.drop_last()), ts.last())
    }
}

/// The types of a struct's fields, in order.
pub open spec fn field_types(fields: Seq<(Seq<char>, SpecType)>) -> Seq<SpecType> {
    fields.map_values(|p: (Seq<char>, SpecType)| p.1)
}

/// Equality of two values `a` and `b` of type `ty`, as it is generated: integer
/// and boolean `==`, ordered float `==`, the runtime's string equality; for
/// ranges, tuples and structs every field equal; for optionals both absent or
/// both present with equal payloads; arrays by `ArrayEq`. `depth` is how many
/// struct types deep the comparison may still go.
pub open spec fn eq_term(env: CgEnv, ty: SpecType, a: Term, b: Term, depth: nat) -> Term
    decreases depth, ty, 0nat,
{
    match ty {
        SpecType::I32 | SpecType::I64 | SpecType::Bool => Term::IntCompare(IntRel::Eq, Box::new(a), Box::new(b)),
        SpecType::F64 => Term::FloatCompare(FloatRel::Oeq, Box::new(a), Box::new(b)),
        SpecType::Str => Term::Call("pebbles_str_eq"@, seq![a, b]),
        SpecType::Range => and_all(seq![
            Term::IntCompare(IntRel::Eq, Box::new(field(a, 0)), Box::new(field(b, 0))),
            Term::IntCompare(IntRel::Eq, Box::new(field(a, 1)), Box::new(field(b, 1))),
            Term::IntCompare(IntRel::Eq, Box::new(field(a, 2)), Box::new(field(b, 2))),
        ]),
        SpecType::Tuple(elems) => eq_list(env, elems, a, b, depth, elems.len()),
        SpecType::Optional(inner) => Term::Or(
            Box::new(and_t(Term::Not(Box::new(field(a, 0))), Term::Not(Box::new(field(b, 0))))),
            Box::new(and_t(
                and_t(field(a, 0), field(b, 0)),
                if *inner == SpecType::Void {
                    Term::Bool(true)
                } else {
                    eq_term(env, *inner, field(a, 1), field(b, 1), depth)
                },
            )),
        ),
        SpecType::Named(n) => match find_last(env.structs, n) {
            Some(info) => if depth == 0 {
                Term::Bool(false)
            } else {
                eq_list(env, field_types(info.fields), a, b, (depth - 1) as nat, info.fields.len())
            },
            None => Term::Bool(false),
        },
        SpecType::Array(inner) => Term::ArrayEq(*inner, Box::new(a), Box::new(b)),
        SpecType::Void | SpecType::SelfType => Term::Bool(false),
    }
}

/// `true && eq(field 0) && ... && eq(field n-1)` for aggregates whose fields
/// have the types `tys`.
pub open spec fn eq_list(env: CgEnv, tys: Seq<SpecType>, a: Term, b: Term, depth: nat, n: nat) -> Term
    decreases depth, tys, n,
{
    if n == 0 || n > tys.len() {
        Term::Bool(true)
    } else {
        and_t(
            eq_list(env, tys, a, b, depth, (n - 1) as nat),
            eq_term(env, tys[n - 1], field(a, n - 1), field(b, n - 1), depth),
        )
    }
}

/// The term a binary operation on `a` and `b` computes, left operand of type `ty`.
pub open spec fn binop_term(env: CgEnv, op: BinOp, ty: SpecType, a: Term, b: Term) -> Term {
    match binop_plan_of(op, ty) {
        BinOpPlan::FloatArith(o) => Term::FloatArith(o, Box::new(a), Box::new(b)),
        BinOpPlan::IntArith(o) => Term::IntArith(o, Box::new(a), Box::new(b)),
        BinOpPlan::StrConcat => Term::Call("pebbles_str_concat"@, seq![a, b]),
        BinOpPlan::StructuralEq { negate } => if negate {
            Term::Not(Box::new(eq_term(env, ty, a, b, env.structs.len())))
        } else {
            eq_term(env, ty, a, b, env.structs.len())
        },
        BinOpPlan::StrEq { negate } => if negate {
            Term::Not(Box::new(Term::Call("pebbles_str_eq"@, seq![a, b])))
        } else {
            Term::Call("pebbles_str_eq"@, seq![a, b])
        },
        BinOpPlan::FloatCompare(o) => Term::FloatCompare(float_rel_of(o), Box::new(a), Box::new(b)),
        BinOpPlan::IntCompare(o) => Term::IntCompare(int_rel_of(o), Box::new(a), Box::new(b)),
        BinOpPlan::Logic(o) => if o == BinOp::And {
            and_t(a, b)
        } else {
            Term::Or(Box::new(a), Box::new(b))
        },
    }
}

/// The slot of the last of the first `k` fields named `name`.
pub open spec fn last_slot(fs: Seq<(Seq<char>, SpecType)>, name: Seq<char>, k: int) -> Option<int>
    decreases k,
{
    if k <= 0 || k > fs.len() {
        None
    } else if fs[k - 1].0 == name {
        Some(k - 1)
    } else {
        last_slot(fs, name, k - 1)
    }
}

/// The condition under which a value `v` of type `ty` matches pattern `p`:
/// `true` for a wildcard or a binding, equality with a literal, a cleared
/// present flag for `none`, and for tuple and struct patterns the
/// conjunction, left to right, of the conditions of the parts.
pub open spec fn pat_term(env: CgEnv, p: SpecPattern, v: Term, ty: SpecType) -> Term
    decreases p, 0nat,
{
    match p {
        SpecPattern::Wildcard | SpecPattern::Binding(_) => Term::Bool(true),
        SpecPattern::Int(n) => Term::IntCompare(IntRel::Eq, Box::new(v), Box::new(Term::Int(n))),
        SpecPattern::Bool(b) => Term::IntCompare(IntRel::Eq, Box::new(v), Box::new(Term::Bool(b))),
        SpecPattern::Float(t) => Term::FloatCompare(FloatRel::Oeq, Box::new(v), Box::new(Term::Float(t))),
        SpecPattern::Str(t) => Term::Call("pebbles_str_eq"@, seq![v, Term::Str(t)]),
        SpecPattern::NoneLit => Term::IntCompare(IntRel::Eq, Box::new(field(v, 0)), Box::new(Term::Bool(false))),
        SpecPattern::Tuple(pats) => match ty {
            SpecType::Tuple(ts) => pat_list(env, pats, ts, v, pats.len()),
            _ => Term::Bool(false),
        },
        SpecPattern::Struct { name, fields } => match find_last(env.structs, name) {
            Some(info) => pat_fields(env, fields, info.fields, v, fields.len()),
            None => Term::Bool(false),
        },
    }
}

/// The conditions of the first `n` element patterns, joined by `&&`.
pub open spec fn pat_list(env: CgEnv, pats: Seq<SpecPattern>, ts: Seq<SpecType>, v: Term, n: nat) -> Term
    decreases pats, n,
{
    if n == 0 || n > pats.len() {
        Term::Bool(true)
    } else {
        and_t(pat_list(env, pats, ts, v, (n - 1) as nat), pat_term(env, pats[n - 1], field(v, n - 1), ts[n - 1]))
    }
}

/// The conditions of the first `n` field patterns, each on the struct's last
/// field of its name, joined by `&&`.
pub open spec fn pat_fields(env: CgEnv, fields: Seq<(Seq<char>, SpecPattern)>, info: Seq<(Seq<char>, SpecType)>, v: Term, n: nat) -> Term
    decreases fields, n,
{
    if n == 0 || n > fields.len() {
        Term::Bool(true)
    } else {
        and_t(
            pat_fields(env, fields, info, v, (n - 1) as nat),
            match last_slot(info, fields[n - 1].0, info.len() as int) {
                Some(k) => pat_term(env, fields[n - 1].1, field(v, k), info[k].1),
                None => Term::Bool(false),
            },
        )
    }
}

/// The variables pattern `p` binds on a value `v` of type `ty`, left to right,
/// each with the term of its value and its type.
pub open spec fn pat_binds(env: CgEnv, p: SpecPattern, v: Term, ty: SpecType) -> Seq<(Seq<char>, Term, SpecType)>
    decreases p, 0nat,
{
    match p {
        SpecPattern::Binding(name) => seq![(name, v, ty)],
        SpecPattern::Tuple(pats) => match ty {
            SpecType::Tuple(ts) => binds_list(env, pats, ts, v, pats.len()),
            _ => Seq::empty(),
        },
        SpecPattern::Struct { name, fields } => match find_last(env.structs, name) {
            Some(info) => binds_fields(env, fields, info.fields, v, fields.len()),
            None => Seq::empty(),
        },
        _ => Seq::empty(),
    }
}

pub open spec fn binds_list(env: CgEnv, pats: Seq<SpecPattern>, ts: Seq<SpecType>, v: Term, n: nat) -> Seq<(Seq<char>, Term, SpecType)>
    decreases pats, n,
{
    if n == 0 || n > pats.len() {
        Seq::empty()
    } else {
        binds_list(env, pats, ts, v, (n - 1) as nat) + pat_binds(env, pats[n - 1], field(v, n - 1), ts[n - 1])
    }
}

pub open spec fn binds_fields(env: CgEnv, fields: Seq<(Seq<char>, SpecPattern)>, info: Seq<(Seq<char>, SpecType)>, v: Term, n: nat) -> Seq<(Seq<char>, Term, SpecType)>
    decreases fields, n,
{
    if n == 0 || n > fields.len() {
        Seq::empty()
    } else {
        binds_fields(env, fields, info, v, (n - 1) as nat) + match last_slot(info, fields[n - 1].0, info.len() as int) {
            Some(k) => pat_binds(env, fields[n - 1].1, field(v, k), info[k].1),
            None => Seq::empty(),
        }
    }
}

/// The names, value terms and types of a list of bindings.
spec fn binds_view<'ctx>(b: Seq<(String, Traced<BasicValueEnum<'ctx>>, Type)>) -> Seq<(Seq<char>, Term, SpecType)> {
    b.map_values(|x: (String, Traced<BasicValueEnum<'ctx>>, Type)| (x.0@, x.1.t@, x.2@))
}

/// The term the value generated for `e` computes: literals and variables,
/// and operators, negation and casts over the terms of their operands; any
/// other expression is `Of(e)`.
pub open spec fn expr_term(env: CgEnv, e: SpecExpr) -> Term
    decreases e,
{
    match e {
        SpecExpr::Int(n, _) => Term::Int(n),
        SpecExpr::Float(t, _) => Term::Float(t),
        SpecExpr::Bool(b, _) => Term::Bool(b),
        SpecExpr::Str(t, _) => Term::Str(t),
        SpecExpr::NoneLit(_) => Term::NoneVal,
        SpecExpr::Ident(name, _) => Term::Var(name),
        SpecExpr::BinOp { op, left, right, .. } => binop_term(env, op, cg_type(env, *left)->Ok_0, expr_term(env, *left), expr_term(env, *right)),
        SpecExpr::UnaryOp { op, operand, .. } => match op {
            UnaryOp::Not => Term::Not(Box::new(expr_term(env, *operand))),
            UnaryOp::Neg => if cg_type(env, *operand) == Ok::<SpecType, Seq<char>>(SpecType::F64) {
                Term::FloatNeg(Box::new(expr_term(env, *operand)))
            } else {
                Term::IntNeg(Box::new(expr_term(env, *operand)))
            },
        },
        SpecExpr::Cast { expr: inner, ty, .. } => Term::Cast(cast_plan_of(cg_type(env, *inner)->Ok_0, ty)->0, Box::new(expr_term(env, *inner))),
        SpecExpr::Call { name, args, .. } => if name == "str"@ && args.len() > 0 {
            text_term(cg_type(env, args[0])->Ok_0, expr_term(env, args[0]))
        } else {
            Term::Of(e)
        },
        _ => Term::Of(e),
    }
}

/// The text `str` and `print` make of a value `v` of type `ty`: a string as
/// it is, an `i32` through the runtime's conversion, a `bool` as `"true"` or
/// `"false"`.
pub open spec fn text_term(ty: SpecType, v: Term) -> Term {
    match ty {
        SpecType::Str => v,
        SpecType::I32 => Term::Call("pebbles_str_i32"@, seq![v]),
        _ => Term::Select(Box::new(v), Box::new(Term::Str("true"@)), Box::new(Term::Str("false"@))),
    }
}

/// The record of a loop over the range `it` with counter `var`: from field 0
/// of the range, while the counter is `<=` field 1 where field 2 (inclusive)
/// is set and `<` it otherwise, stepping by 1.
pub open spec fn range_loop(var: Seq<char>, it: Term) -> Op {
    Op::CountLoop {
        var,
        start: field(it, 0),
        test: Term::Select(
            Box::new(field(it, 2)),
            Box::new(Term::IntCompare(IntRel::Sle, Box::new(Term::Var(var)), Box::new(field(it, 1)))),
            Box::new(Term::IntCompare(IntRel::Slt, Box::new(Term::Var(var)), Box::new(field(it, 1)))),
        ),
        step: Term::IntArith(BinOp::Add, Box::new(Term::Var(var)), Box::new(Term::Int(1))),
    }
}

/// The record of a loop over the array `arr` binding `var`: the index from 0
/// while it is `<` the array's length, each element in turn, stepping by 1.
pub open spec fn array_loop(var: Seq<char>, arr: Term) -> Op {
    Op::EachLoop {
        var,
        start: Term::Int(0),
        test: Term::IntCompare(IntRel::Slt, Box::new(Term::LoopIndex), Box::new(Term::Len(Box::new(arr)))),
        elem: Term::Elem(Box::new(arr), Box::new(Term::LoopIndex)),
        step: Term::IntArith(BinOp::Add, Box::new(Term::LoopIndex), Box::new(Term::Int(1))),
    }
}

/// The record of the match expression `e` whose subject has type `ty`.
pub open spec fn match_record(env: CgEnv, e: SpecExpr, ty: SpecType) -> Op {
    match e {
        SpecExpr::Match { subject, arms, .. } => Op::Match {
            subject: expr_term(env, *subject),
            ty,
            tests: Seq::new(arms.len(), |i: int| pat_term(env, arms[i].pattern, expr_term(env, *subject), ty)),
            binds: Seq::new(arms.len(), |i: int| pat_binds(env, arms[i].pattern, expr_term(env, *subject), ty)),
        },
        _ => Op::MakeNone,
    }
}

/// Whether equality of values of type `ty` is refused whatever LLVM does:
/// `void` or `Self` where values are compared, a struct that is unknown or
/// nested deeper than `depth`, an array compared outside a function.
pub open spec fn eq_refused(env: CgEnv, ty: SpecType, depth: nat, in_fn: bool) -> bool
    decreases depth, ty, 0nat,
{
    match ty {
        SpecType::Void | SpecType::SelfType => true,
        SpecType::Tuple(elems) => eq_refused_list(env, elems, depth, in_fn, elems.len()),
        SpecType::Optional(inner) => *inner != SpecType::Void && eq_refused(env, *inner, depth, in_fn),
        SpecType::Named(n) => match find_last(env.structs, n) {
            None => true,
            Some(info) => depth == 0 || eq_refused_list(env, field_types(info.fields), (depth - 1) as nat, in_fn, info.fields.len()),
        },
        SpecType::Array(inner) => !in_fn || eq_refused(env, *inner, depth, in_fn),
        _ => false,
    }
}

/// Whether equality is refused for one of the first `n` types.
pub open spec fn eq_refused_list(env: CgEnv, tys: Seq<SpecType>, depth: nat, in_fn: bool, n: nat) -> bool
    decreases depth, tys, n,
{
    if n == 0 || n > tys.len() {
        false
    } else {
        eq_refused_list(env, tys, depth, in_fn, (n - 1) as nat) || eq_refused(env, tys[n - 1], depth, in_fn)
    }
}

proof fn lemma_refused_in_list(env: CgEnv, tys: Seq<SpecType>, depth: nat, in_fn: bool, k: nat, n: nat)
    requires
        k < n <= tys.len(),
        eq_refused(env, tys[k as int], depth, in_fn),
    ensures
        eq_refused_list(env, tys, depth, in_fn, n),
    decreases n,
{
    if k + 1 < n {
        lemma_refused_in_list(env, tys, depth, in_fn, k, (n - 1) as nat);
    }
}

/// Whether matching pattern `p` against a value of type `ty` is refused
/// whatever LLVM does: `none` against a value that is not optional, a tuple
/// pattern against a value that is not a tuple or with more elements than it,
/// a struct pattern naming an unknown struct or field; or a part that is.
pub open spec fn pat_refused(env: CgEnv, p: SpecPattern, ty: SpecType) -> bool
    decreases p, 0nat,
{
    match p {
        SpecPattern::NoneLit => !(ty is Optional),
        SpecPattern::Tuple(pats) => match ty {
            SpecType::Tuple(ts) => pat_refused_list(env, pats, ts, pats.len()),
            _ => true,
        },
        SpecPattern::Struct { name, fields } => match find_last(env.structs, name) {
            Some(info) => pat_refused_fields(env, fields, info.fields, fields.len()),
            None => true,
        },
        _ => false,
    }
}

/// Whether one of the first `n` element patterns is refused.
pub open spec fn pat_refused_list(env: CgEnv, pats: Seq<SpecPattern>, ts: Seq<SpecType>, n: nat) -> bool
    decreases pats, n,
{
    if n == 0 || n > pats.len() {
        false
    } else {
        pat_refused_list(env, pats, ts, (n - 1) as nat) || n - 1 >= ts.len() || pat_refused(env, pats[n - 1], ts[n - 1])
    }
}

/// Whether one of the first `n` field patterns is refused.
pub open spec fn pat_refused_fields(env: CgEnv, fields: Seq<(Seq<char>, SpecPattern)>, info: Seq<(Seq<char>, SpecType)>, n: nat) -> bool
    decreases fields, n,
{
    if n == 0 || n > fields.len() {
        false
    } else {
        pat_refused_fields(env, fields, info, (n - 1) as nat) || match last_slot(info, fields[n - 1].0, info.len() as int) {
            None => true,
            Some(k) => pat_refused(env, fields[n - 1].1, info[k].1),
        }
    }
}

proof fn lemma_pat_list_has(env: CgEnv, pats: Seq<SpecPattern>, ts: Seq<SpecType>, k: nat, n: nat)
    requires
        k < n <= pats.len(),
        k >= ts.len() || pat_refused(env, pats[k as int], ts[k as int]),
    ensures
        pat_refused_list(env, pats, ts, n),
    decreases n,
{
    if k + 1 < n {
        lemma_pat_list_has(env, pats, ts, k, (n - 1) as nat);
    }
}

proof fn lemma_pat_fields_has(env: CgEnv, fields: Seq<(Seq<char>, SpecPattern)>, info: Seq<(Seq<char>, SpecType)>, k: nat, n: nat)
    requires
        k < n <= fields.len(),
        match last_slot(info, fields[k as int].0, info.len() as int) {
            None => true,
            Some(j) => pat_refused(env, fields[k as int].1, info[j].1),
        },
    ensures
        pat_refused_fields(env, fields, info, n),
    decreases n,
{
    if k + 1 < n {
        lemma_pat_fields_has(env, fields, info, k, (n - 1) as nat);
    }
}

/// On `i32` operands each arithmetic and ordering operator generates the
/// integer operation of its own name over the operands' terms, left operand
/// first: `+` `add`, `-` `sub`, `*` `mul`, `/` `sdiv`, `%` `srem`, and `<`
/// `>` `<=` `>=` the signed comparisons `slt` `sgt` `sle` `sge`.
pub proof fn law_i32_operators(env: CgEnv, a: SpecExpr, b: SpecExpr, line: usize)
    requires
        cg_type(env, a) == Ok::<SpecType, Seq<char>>(SpecType::I32),
    ensures
        expr_term(env, SpecExpr::BinOp { op: BinOp::Add, left: Box::new(a), right: Box::new(b), line }) == Term::IntArith(BinOp::Add, Box::new(expr_term(env, a)), Box::new(expr_term(env, b))),
        expr_term(env, SpecExpr::BinOp { op: BinOp::Sub, left: Box::new(a), right: Box::new(b), line }) == Term::IntArith(BinOp::Sub, Box::new(expr_term(env, a)), Box::new(expr_term(env, b))),
        expr_term(env, SpecExpr::BinOp { op: BinOp::Mul, left: Box::new(a), right: Box::new(b), line }) == Term::IntArith(BinOp::Mul, Box::new(expr_term(env, a)), Box::new(expr_term(env, b))),
        expr_term(env, SpecExpr::BinOp { op: BinOp::Div, left: Box::new(a), right: Box::new(b), line }) == Term::IntArith(BinOp::Div, Box::new(expr_term(env, a)), Box::new(expr_term(env, b))),
        expr_term(env, SpecExpr::BinOp { op: BinOp::Mod, left: Box::new(a), right: Box::new(b), line }) == Term::IntArith(BinOp::Mod, Box::new(expr_term(env, a)), Box::new(expr_term(env, b))),
        expr_term(env, SpecExpr::BinOp { op: BinOp::Lt, left: Box::new(a), right: Box::new(b), line }) == Term::IntCompare(IntRel::Slt, Box::new(expr_term(env, a)), Box::new(expr_term(env, b))),
        expr_term(env, SpecExpr::BinOp { op: BinOp::Gt, left: Box::new(a), right: Box::new(b), line }) == Term::IntCompare(IntRel::Sgt, Box::new(expr_term(env, a)), Box::new(expr_term(env, b))),
        expr_term(env, SpecExpr::BinOp { op: BinOp::LtEq, left: Box::new(a), right: Box::new(b), line }) == Term::IntCompare(IntRel::Sle, Box::new(expr_term(env, a)), Box::new(expr_term(env, b))),
        expr_term(env, SpecExpr::BinOp { op: BinOp::GtEq, left: Box::new(a), right: Box::new(b), line }) == Term::IntCompare(IntRel::Sge, Box::new(expr_term(env, a)), Box::new(expr_term(env, b))),
{
}

/// On `f64` operands each arithmetic and ordering operator generates the
/// floating-point operation of its own name, left operand first: `+` `fadd`,
/// `-` `fsub`, `*` `fmul`, `/` `fdiv`, `%` `frem`, and `<` `>` `<=` `>=` the
/// ordered comparisons `olt` `ogt` `ole` `oge`.
pub proof fn law_f64_operators(env: CgEnv, a: SpecExpr, b: SpecExpr, line: usize)
    requires
        cg_type(env, a) == Ok::<SpecType, Seq<char>>(SpecType::F64),
    ensures
        expr_term(env, SpecExpr::BinOp { op: BinOp::Add, left: Box::new(a), right: Box::new(b), line }) == Term::FloatArith(BinOp::Add, Box::new(expr_term(env, a)), Box::new(expr_term(env, b))),
        expr_term(env, SpecExpr::BinOp { op: BinOp::Sub, left: Box::new(a), right: Box::new(b), line }) == Term::FloatArith(BinOp::Sub, Box::new(expr_term(env, a)), Box::new(expr_term(env, b))),
        expr_term(env, SpecExpr::BinOp { op: BinOp::Mul, left: Box::new(a), right: Box::new(b), line }) == Term::FloatArith(BinOp::Mul, Box::new(expr_term(env, a)), Box::new(expr_term(env, b))),
        expr_term(env, SpecExpr::BinOp { op: BinOp::Div, left: Box::new(a), right: Box::new(b), line }) == Term::FloatArith(BinOp::Div, Box::new(expr_term(env, a)), Box::new(expr_term(env, b))),
        expr_term(env, SpecExpr::BinOp { op: BinOp::Mod, left: Box::new(a), right: Box::new(b), line }) == Term::FloatArith(BinOp::Mod, Box::new(expr_term(env, a)), Box::new(expr_term(env, b))),
        expr_term(env, SpecExpr::BinOp { op: BinOp::Lt, left: Box::new(a), right: Box::new(b), line }) == Term::FloatCompare(FloatRel::Olt, Box::new(expr_term(env, a)), Box::new(expr_term(env, b))),
        expr_term(env, SpecExpr::BinOp { op: BinOp::Gt, left: Box::new(a), right: Box::new(b), line }) == Term::FloatCompare(FloatRel::Ogt, Box::new(expr_term(env, a)), Box::new(expr_term(env, b))),
        expr_term(env, SpecExpr::BinOp { op: BinOp::LtEq, left: Box::new(a), right: Box::new(b), line }) == Term::FloatCompare(FloatRel::Ole, Box::new(expr_term(env, a)), Box::new(expr_term(env, b))),
        expr_term(env, SpecExpr::BinOp { op: BinOp::GtEq, left: Box::new(a), right: Box::new(b), line }) == Term::FloatCompare(FloatRel::Oge, Box::new(expr_term(env, a)), Box::new(expr_term(env, b))),
{
}

/// An LLVM value with the term it computes.
#[derive(Clone, Copy)]
pub(crate) struct Traced<V> {
    pub(crate) v: V,
    pub(crate) t: Ghost<Term>,
}

/// A generated value with its Pebble type (no value for `void`) and the
/// term it computes.
struct CgValue<'ctx> {
    value: Option<BasicValueEnum<'ctx>>,
    ty: Type,
    t: Ghost<Term>,
}

/// The code generator: an LLVM module being filled, the LLVM struct types and
/// functions declared so far, the variables in scope, and the verified type
/// tables (signatures, struct fields, variable types).
pub struct Codegen<'ctx> {
    context: &'ctx Context,
    module: Module<'ctx>,
    builder: Builder<'ctx>,
    structs: Vec<(String, StructType<'ctx>)>,
    array_ty: StructType<'ctx>,
    functions: Vec<(String, FunctionValue<'ctx>)>,
    var_scopes: Vec<Vec<(String, PointerValue<'ctx>)>>,
    tables: CodegenTables,
    current_fn: Option<FunctionValue<'ctx>>,
    current_ret: Option<Type>,
    break_stack: Vec<BasicBlock<'ctx>>,
    continue_stack: Vec<BasicBlock<'ctx>>,
    /// the operations emitted so far
    log: Ghost<Seq<Op>>,
    /// how many LLVM calls have failed so far
    faults: Ghost<nat>,
}

/// A builder result, its error turned into the error's text.
fn bx<T>(r: Result<T, BuilderError>) -> (out: Result<T, String>)
    ensures
        r is Ok <==> out is Ok,
        r is Ok ==> out == Ok::<T, String>(r->Ok_0),
{
    match r {
        Ok(v) => Ok(v),
        Err(e) => Err(llvm::builder_error_text(e)),
    }
}

/// The value of an option, or the error `msg`.
fn need<T>(o: Option<T>, msg: &str) -> (r: Result<T, String>)
    ensures
        match o {
            Some(v) => r == Ok::<T, String>(v),
            None => r matches Err(m) && m@ == msg@,
        },
{
    match o {
        Some(v) => Ok(v),
        None => Err(String::from_str(msg)),
    }
}

fn int_of<'ctx>(v: BasicValueEnum<'ctx>) -> Result<IntValue<'ctx>, String> {
    need(llvm::as_int(v), "expected an integer value")
}

fn float_of<'ctx>(v: BasicValueEnum<'ctx>) -> Result<FloatValue<'ctx>, String> {
    need(llvm::as_float(v), "expected a floating-point value")
}

fn struct_of<'ctx>(v: BasicValueEnum<'ctx>) -> Result<StructValue<'ctx>, String> {
    need(llvm::as_struct(v), "expected a struct value")
}

fn int_basic_tr<'ctx>(x: Traced<IntValue<'ctx>>) -> (r: Traced<BasicValueEnum<'ctx>>)
    ensures
        r.t@ == x.t@,
{
    Traced { v: llvm::int_basic(x.v), t: x.t }
}

fn float_basic_tr<'ctx>(x: Traced<FloatValue<'ctx>>) -> (r: Traced<BasicValueEnum<'ctx>>)
    ensures
        r.t@ == x.t@,
{
    Traced { v: llvm::float_basic(x.v), t: x.t }
}

/// `insert_value` into a struct, keeping the struct value it gives back.
fn insert_field<'ctx>(b: &Builder<'ctx>, agg: StructValue<'ctx>, v: BasicValueEnum<'ctx>, index: u32, name: &str) -> Result<StructValue<'ctx>, String> {
    let r = bx(llvm::build_insert_value(b, agg, v, index, name))?;
    need(r, "expected a struct value")
}

/// The last entry named `name` of a list of pairs.
fn find_named<V: Copy>(v: &Vec<(String, V)>, name: &String) -> (r: Option<V>)
    ensures
        r is None <==> forall|j: int| 0 <= j < v@.len() ==> v@[j].0@ != name@,
{
    let mut i: usize = v.len();
    while i > 0
        invariant
            i <= v@.len(),
            forall|j: int| i <= j < v@.len() ==> v@[j].0@ != name@,
        decreases i,
    {
        if v[i - 1].0 == *name {
            return Some(v[i - 1].1);
        }
        i = i - 1;
    }
    None
}

impl<'ctx> Codegen<'ctx> {
    /// The type tables as the model sees them.
    pub closed spec fn env(&self) -> CgEnv {
        self.tables.env()
    }

    /// The operations emitted so far, in order.
    pub closed spec fn log(&self) -> Seq<Op> {
        self.log@
    }

    /// How many LLVM calls have failed so far: the failures no contract of
    /// this generator rules out.
    pub closed spec fn faults(&self) -> nat {
        self.faults@
    }

    /// `self` has the tables, variable scopes, loop targets and current
    /// function of `before`, and has counted at least its failures.
    pub closed spec fn quiet(&self, before: &Self) -> bool {
        &&& self.restores(before)
        &&& self.current_fn == before.current_fn
        &&& self.faults@ >= before.faults@
    }

    /// `self` has the tables, the variable scopes and the loop targets of `before`.
    pub closed spec fn restores(&self, before: &Self) -> bool {
        &&& self.env() == before.env()
        &&& self.break_stack@ == before.break_stack@
        &&& self.continue_stack@ == before.continue_stack@
    }

    /// `self` differs from `before` at most in the innermost variable scope.
    pub closed spec fn keeps_outer(&self, before: &Self) -> bool {
        &&& keeps_tables(before.env(), self.env())
        &&& self.break_stack@ == before.break_stack@
        &&& self.continue_stack@ == before.continue_stack@
        &&& self.env().type_scopes.len() == before.env().type_scopes.len()
        &&& forall|i: int| 0 <= i < before.env().type_scopes.len() - 1
            ==> #[trigger] self.env().type_scopes[i] == before.env().type_scopes[i]
    }

    /// `self` is `before` with one more variable scope, in which anything may
    /// have been bound.
    pub closed spec fn one_scope_in(&self, before: &Self) -> bool {
        &&& keeps_tables(before.env(), self.env())
        &&& self.break_stack@ == before.break_stack@
        &&& self.continue_stack@ == before.continue_stack@
        &&& self.env().type_scopes.len() == before.env().type_scopes.len() + 1
        &&& forall|i: int| 0 <= i < before.env().type_scopes.len()
            ==> #[trigger] self.env().type_scopes[i] == before.env().type_scopes[i]
    }

    /// A code generator for an empty module named `module_name`.
    pub fn new(context: &'ctx Context, module_name: &str) -> (cg: Self)
        ensures
            cg.env() == (CgEnv { sigs: Seq::empty(), structs: Seq::empty(), type_scopes: Seq::empty() }),
            cg.log() == Seq::<Op>::empty(),
    {
        let module = llvm::create_module(context, module_name);
        let builder = llvm::create_builder(context);
        let i32t = llvm::int_type_basic(llvm::i32_type(context));
        let i8ptr = llvm::pointer_type_basic(llvm::ptr_type_of(llvm::int_type_basic(llvm::i8_type(context))));
        let mut fields: Vec<BasicTypeEnum<'ctx>> = Vec::new();
        fields.push(i32t);  // len
        fields.push(i32t);  // cap
        fields.push(i8ptr);  // data
        fields.push(i32t);  // elem_size
        let array_ty = llvm::struct_type(context, &fields);
        Codegen {
            context,
            module,
            builder,
            structs: Vec::new(),
            array_ty,
            functions: Vec::new(),
            var_scopes: Vec::new(),
            tables: CodegenTables::new(),
            current_fn: None,
            current_ret: None,
            break_stack: Vec::new(),
            continue_stack: Vec::new(),
            log: Ghost(Seq::empty()),
            faults: Ghost(0),
        }
    }

    /// The module being generated.
    pub fn module(&self) -> &Module<'ctx> {
        &self.module
    }

    // ── Constants and types ──────────────────────────────────────────────────

    fn i32_const(&self, v: u64, sign_extend: bool) -> IntValue<'ctx> {
        llvm::const_int(llvm::i32_type(self.context), v, sign_extend)
    }

    fn bool_const(&self, v: bool) -> IntValue<'ctx> {
        llvm::const_int(llvm::bool_type(self.context), if v { 1 } else { 0 }, false)
    }

    /// The constant a float literal's text denotes; zero when the text does
    /// not read as a number.
    fn float_const(&self, text: &String) -> FloatValue<'ctx> {
        let t = llvm::double_type(self.context);
        match llvm::const_float_parsed(t, text.as_str()) {
            Some(c) => c,
            None => llvm::const_float_zero(t),
        }
    }

    fn byte_ptr_type(&self) -> BasicTypeEnum<'ctx> {
        llvm::pointer_type_basic(llvm::ptr_type_of(llvm::int_type_basic(llvm::i8_type(self.context))))
    }

    /// The LLVM struct type of a struct-shaped machine type.
    #[verifier::loop_isolation(false)]
    fn llvm_struct_of(&self, m: &MachineType) -> (r: Option<StructType<'ctx>>)
        ensures
            r is Some <==> (m is RangeStruct || m is ArrayHeader || m is OptionalStruct || m is TupleStruct
                || m is NamedStruct),
        decreases m, 0int,
    {
        match m {
            MachineType::RangeStruct => {
                let i32t = llvm::int_type_basic(llvm::i32_type(self.context));
                let i1t = llvm::int_type_basic(llvm::bool_type(self.context));
                let mut fields: Vec<BasicTypeEnum<'ctx>> = Vec::new();
                fields.push(i32t);
                fields.push(i32t);
                fields.push(i1t);
                Some(llvm::struct_type(self.context, &fields))
            },
            MachineType::ArrayHeader => Some(self.array_ty),
            MachineType::OptionalStruct(inner) => {
                let inner_ty = self.llvm_of(inner);
                let i1t = llvm::int_type_basic(llvm::bool_type(self.context));
                let mut fields: Vec<BasicTypeEnum<'ctx>> = Vec::new();
                fields.push(i1t);
                fields.push(inner_ty);
                Some(llvm::struct_type(self.context, &fields))
            },
            MachineType::TupleStruct(elems) => {
                let mut fields: Vec<BasicTypeEnum<'ctx>> = Vec::new();
                let mut i: usize = 0;
                while i < elems.len()
                    invariant
                        i <= elems.len(),
                    decreases elems.len() - i,
                {
                    proof {
                        assert(decreases_to!(elems => elems@));
                        assert(decreases_to!(elems@ => elems@[i as int]));
                    }
                    let t = self.llvm_of(&elems[i]);
                    fields.push(t);
                    i = i + 1;
                }
                Some(llvm::struct_type(self.context, &fields))
            },
            MachineType::NamedStruct(name) => match find_named(&self.structs, name) {
                Some(st) => Some(st),
                None => Some(llvm::opaque_struct_type(self.context, name.as_str())),
            },
            _ => None,
        }
    }

    /// The LLVM type that stands for a machine type.
    fn llvm_of(&self, m: &MachineType) -> BasicTypeEnum<'ctx>
        decreases m, 1int,
    {
        match m {
            MachineType::I32 => llvm::int_type_basic(llvm::i32_type(self.context)),
            MachineType::I64 => llvm::int_type_basic(llvm::i64_type(self.context)),
            MachineType::F64 => llvm::float_type_basic(llvm::double_type(self.context)),
            MachineType::I1 => llvm::int_type_basic(llvm::bool_type(self.context)),
            MachineType::I8 => llvm::int_type_basic(llvm::i8_type(self.context)),
            MachineType::BytePtr => self.byte_ptr_type(),
            _ => match self.llvm_struct_of(m) {
                Some(st) => llvm::struct_type_basic(st),
                None => llvm::int_type_basic(llvm::i8_type(self.context)),
            },
        }
    }

    fn llvm_type(&self, ty: &Type) -> BasicTypeEnum<'ctx> {
        let m = self.tables.machine_type(ty, None);
        self.llvm_of(&m)
    }

    fn llvm_type_with_self(&self, ty: &Type, self_type: Option<&String>) -> BasicTypeEnum<'ctx> {
        let m = self.tables.machine_type(ty, self_type);
        self.llvm_of(&m)
    }

    /// The LLVM struct type of a Pebble type whose machine type is a struct.
    fn llvm_struct_type(&self, ty: &Type) -> Result<StructType<'ctx>, String> {
        let m = self.tables.machine_type(ty, None);
        need(self.llvm_struct_of(&m), "expected a struct type")
    }

    // ── Scopes ───────────────────────────────────────────────────────────────

    fn push_scope(&mut self)
        ensures
            final(self).env() == (CgEnv { type_scopes: old(self).env().type_scopes.push(Seq::empty()), ..old(self).env() }),
            final(self).break_stack@ == old(self).break_stack@,
            final(self).continue_stack@ == old(self).continue_stack@,
            final(self).log() == old(self).log(),
    {
        self.var_scopes.push(Vec::new());
        self.tables.push_scope();
    }

    fn pop_scope(&mut self)
        ensures
            final(self).env() == (if old(self).env().type_scopes.len() == 0 {
                old(self).env()
            } else {
                CgEnv { type_scopes: old(self).env().type_scopes.drop_last(), ..old(self).env() }
            }),
            final(self).break_stack@ == old(self).break_stack@,
            final(self).continue_stack@ == old(self).continue_stack@,
            final(self).log() == old(self).log(),
    {
        let _ = self.var_scopes.pop();
        self.tables.pop_scope();
    }

    fn bind_var(&mut self, name: &String, ty: Type, ptr: PointerValue<'ctx>)
        ensures
            final(self).env() == (if old(self).env().type_scopes.len() == 0 {
                old(self).env()
            } else {
                CgEnv {
                    type_scopes: old(self).env().type_scopes.update(
                        old(self).env().type_scopes.len() - 1,
                        old(self).env().type_scopes.last().push((name@, ty@)),
                    ),
                    ..old(self).env()
                }
            }),
            final(self).break_stack@ == old(self).break_stack@,
            final(self).continue_stack@ == old(self).continue_stack@,
            final(self).log() == old(self).log(),
    {
        let n = self.var_scopes.len();
        if n > 0 {
            let mut scope = self.var_scopes.pop().unwrap();
            scope.push((name.clone(), ptr));
            self.var_scopes.push(scope);
        }
        self.tables.bind_var_type(name, ty);
    }

    fn lookup_var(&self, name: &String) -> Result<PointerValue<'ctx>, String> {
        let mut k: usize = self.var_scopes.len();
        while k > 0
            invariant
                k <= self.var_scopes@.len(),
            decreases k,
        {
            match find_named(&self.var_scopes[k - 1], name) {
                Some(p) => {
                    return Ok(p);
                },
                None => {},
            }
            k = k - 1;
        }
        Err(msg3("undefined variable '", name.as_str(), "'"))
    }

    fn function_named(&self, name: &String) -> Option<FunctionValue<'ctx>> {
        find_named(&self.functions, name)
    }



    // ── Allocation and arrays ────────────────────────────────────────────────

    /// A stack slot in the entry block of the current function.
    fn create_entry_alloca(&mut self, name: &str, ty: &Type) -> (r: Result<PointerValue<'ctx>, String>)
        ensures
            final(self).quiet(old(self)),
            final(self).log() == old(self).log(),
            (r is Err && old(self).current_fn is Some) ==> final(self).faults() > old(self).faults(),
    {
        let func = need(self.current_fn, "alloca outside function")?;
        let entry = self.lneed(llvm::first_basic_block(func), "missing entry block")?;
        let builder = llvm::create_builder(self.context);
        match llvm::first_instruction(entry) {
            Some(inst) => llvm::position_before(&builder, &inst),
            None => llvm::position_at_end(&builder, entry),
        }
        let t = self.llvm_type(ty);
        self.lx(llvm::build_alloca(&builder, t, name))
    }

    fn elem_size_value(&mut self, elem_ty: &Type) -> (r: Result<IntValue<'ctx>, String>)
        ensures
            final(self).quiet(old(self)),
            final(self).log() == old(self).log(),
            r is Err ==> final(self).faults() > old(self).faults(),
    {
        let t = self.llvm_type(elem_ty);
        let size = self.lneed(llvm::size_of(t), "size_of failed")?;
        self.lx(llvm::build_int_cast(&self.builder, size, llvm::i32_type(self.context), "elem_size"))
    }

    fn array_len_from_value(&mut self, array_val: BasicValueEnum<'ctx>) -> (r: Result<IntValue<'ctx>, String>)
        ensures
            final(self).quiet(old(self)),
            final(self).log() == old(self).log(),
            r is Err ==> final(self).faults() > old(self).faults(),
    {
        let v = self.lneed(llvm::as_struct(array_val), "expected a struct value")?;
        let len = self.lx(llvm::build_extract_value(&self.builder, v, 0, "len"))?;
        self.lneed(llvm::as_int(len), "expected an integer value")
    }

    fn array_data_ptr_from_value(&mut self, array_val: BasicValueEnum<'ctx>) -> (r: Result<PointerValue<'ctx>, String>)
        ensures
            final(self).quiet(old(self)),
            final(self).log() == old(self).log(),
            r is Err ==> final(self).faults() > old(self).faults(),
    {
        let v = self.lneed(llvm::as_struct(array_val), "expected a struct value")?;
        let data = self.lx(llvm::build_extract_value(&self.builder, v, 2, "data"))?;
        self.lneed(llvm::as_pointer(data), "expected a pointer value")
    }

    fn array_elem_ptr_from_value(&mut self, array_val: BasicValueEnum<'ctx>, idx: IntValue<'ctx>, elem_ty: &Type) -> (r: Result<PointerValue<'ctx>, String>)
        ensures
            final(self).quiet(old(self)),
            final(self).log() == old(self).log(),
            r is Err ==> final(self).faults() > old(self).faults(),
    {
        let data = self.array_data_ptr_from_value(array_val)?;
        let elem_size = self.elem_size_value(elem_ty)?;
        let idx_m = Traced { v: idx, t: Ghost(Term::Machine) };
        let size_m = Traced { v: elem_size, t: Ghost(Term::Machine) };
        let offset = self.lx(llvm::build_int_mul(&self.builder, idx_m, size_m, "ofs"))?.v;
        let i64t = llvm::i64_type(self.context);
        let wide = self.lx(llvm::build_int_s_extend(&self.builder, offset, i64t, "ofs64"))?;
        let base = self.lx(llvm::build_ptr_to_int(&self.builder, data, i64t, "base"))?;
        let base_m = Traced { v: base, t: Ghost(Term::Machine) };
        let wide_m = Traced { v: wide, t: Ghost(Term::Machine) };
        let addr = self.lx(llvm::build_int_add(&self.builder, base_m, wide_m, "addr"))?.v;
        let pty = llvm::ptr_type_of(self.llvm_type(elem_ty));
        self.lx(llvm::build_int_to_ptr(&self.builder, addr, pty, "elem_ptr"))
    }
}


/// The integer comparison emitted for a comparison operator.
pub open spec fn int_rel_of(op: BinOp) -> IntRel {
    match op {
        BinOp::Eq => IntRel::Eq,
        BinOp::NotEq => IntRel::Ne,
        BinOp::Lt => IntRel::Slt,
        BinOp::Gt => IntRel::Sgt,
        BinOp::LtEq => IntRel::Sle,
        _ => IntRel::Sge,
    }
}

/// The floating-point comparison emitted for a comparison operator.
pub open spec fn float_rel_of(op: BinOp) -> FloatRel {
    match op {
        BinOp::Eq => FloatRel::Oeq,
        BinOp::NotEq => FloatRel::One,
        BinOp::Lt => FloatRel::Olt,
        BinOp::Gt => FloatRel::Ogt,
        BinOp::LtEq => FloatRel::Ole,
        _ => FloatRel::Oge,
    }
}

/// The operations a binary operation's plan emits, for every plan but the
/// field-by-field equality of compound values.
pub open spec fn plan_ops(p: BinOpPlan) -> Seq<Op> {
    match p {
        BinOpPlan::FloatArith(o) => seq![Op::FloatArith(o)],
        BinOpPlan::IntArith(o) => seq![Op::IntArith(o)],
        BinOpPlan::StrConcat => seq![Op::Call("pebbles_str_concat"@)],
        BinOpPlan::StructuralEq { .. } => Seq::empty(),
        BinOpPlan::StrEq { negate } => if negate {
            seq![Op::Call("pebbles_str_eq"@), Op::Not]
        } else {
            seq![Op::Call("pebbles_str_eq"@)]
        },
        BinOpPlan::FloatCompare(o) => seq![Op::FloatCompare(float_rel_of(o))],
        BinOpPlan::IntCompare(o) => seq![Op::IntCompare(int_rel_of(o))],
        BinOpPlan::Logic(o) => if o == BinOp::And {
            seq![Op::And]
        } else {
            seq![Op::Or]
        },
    }
}

impl<'ctx> Codegen<'ctx> {
    /// A builder result, its error turned into the error's text and counted.
    fn lx<T>(&mut self, r: Result<T, BuilderError>) -> (out: Result<T, String>)
        ensures
            final(self).quiet(old(self)),
            final(self).log() == old(self).log(),
            r is Ok <==> out is Ok,
            r is Ok ==> out == Ok::<T, String>(r->Ok_0),
            r is Ok ==> final(self).faults() == old(self).faults(),
            r is Err ==> final(self).faults() > old(self).faults(),
    {
        match r {
            Ok(v) => Ok(v),
            Err(e) => {
                self.faults = Ghost(self.faults@ + 1);
                Err(llvm::builder_error_text(e))
            },
        }
    }

    /// What an LLVM query gave, or the error `msg`, counted.
    fn lneed<T>(&mut self, o: Option<T>, msg: &str) -> (r: Result<T, String>)
        ensures
            final(self).quiet(old(self)),
            final(self).log() == old(self).log(),
            o is Some ==> (r == Ok::<T, String>(o->0) && final(self).faults() == old(self).faults()),
            o is None ==> (r is Err && r->Err_0@ == msg@ && final(self).faults() > old(self).faults()),
    {
        match o {
            Some(v) => Ok(v),
            None => {
                self.faults = Ghost(self.faults@ + 1);
                Err(String::from_str(msg))
            },
        }
    }

    fn int_t(&mut self, x: Traced<BasicValueEnum<'ctx>>) -> (r: Result<Traced<IntValue<'ctx>>, String>)
        ensures
            final(self).quiet(old(self)),
            final(self).log() == old(self).log(),
            r is Ok ==> (r->Ok_0.t@ == x.t@ && final(self).faults() == old(self).faults()),
            r is Err ==> final(self).faults() > old(self).faults(),
    {
        let v = self.lneed(llvm::as_int(x.v), "expected an integer value")?;
        Ok(Traced { v, t: x.t })
    }

    fn float_t(&mut self, x: Traced<BasicValueEnum<'ctx>>) -> (r: Result<Traced<FloatValue<'ctx>>, String>)
        ensures
            final(self).quiet(old(self)),
            final(self).log() == old(self).log(),
            r is Ok ==> (r->Ok_0.t@ == x.t@ && final(self).faults() == old(self).faults()),
            r is Err ==> final(self).faults() > old(self).faults(),
    {
        let v = self.lneed(llvm::as_float(x.v), "expected a floating-point value")?;
        Ok(Traced { v, t: x.t })
    }

    fn struct_t(&mut self, x: Traced<BasicValueEnum<'ctx>>) -> (r: Result<Traced<StructValue<'ctx>>, String>)
        ensures
            final(self).quiet(old(self)),
            final(self).log() == old(self).log(),
            r is Ok ==> (r->Ok_0.t@ == x.t@ && final(self).faults() == old(self).faults()),
            r is Err ==> final(self).faults() > old(self).faults(),
    {
        let v = self.lneed(llvm::as_struct(x.v), "expected a struct value")?;
        Ok(Traced { v, t: x.t })
    }

    fn int_l(&mut self, v: BasicValueEnum<'ctx>) -> (r: Result<IntValue<'ctx>, String>)
        ensures
            final(self).quiet(old(self)),
            final(self).log() == old(self).log(),
            r is Err ==> final(self).faults() > old(self).faults(),
    {
        self.lneed(llvm::as_int(v), "expected an integer value")
    }

    // ── Emitting one operation ───────────────────────────────────────────────
    // Each of these makes one LLVM call, records it in the log and gives the
    // value with the term it computes.

    fn emit_const_int(&mut self, n: i64) -> (v: Traced<IntValue<'ctx>>)
        ensures
            final(self).quiet(old(self)),
            final(self).log() == old(self).log().push(Op::ConstInt(n)),
            v.t@ == Term::Int(n),
    {
        let v = self.i32_const(n as u64, true);
        self.log = Ghost(self.log@.push(Op::ConstInt(n)));
        Traced { v, t: Ghost(Term::Int(n)) }
    }

    fn emit_const_bool(&mut self, b: bool) -> (v: Traced<IntValue<'ctx>>)
        ensures
            final(self).quiet(old(self)),
            final(self).log() == old(self).log().push(Op::ConstBool(b)),
            v.t@ == Term::Bool(b),
    {
        let v = self.bool_const(b);
        self.log = Ghost(self.log@.push(Op::ConstBool(b)));
        Traced { v, t: Ghost(Term::Bool(b)) }
    }

    fn emit_const_float(&mut self, text: &String) -> (v: Traced<FloatValue<'ctx>>)
        ensures
            final(self).quiet(old(self)),
            final(self).log() == old(self).log().push(Op::ConstFloat(text@)),
            v.t@ == Term::Float(text@),
    {
        let v = self.float_const(text);
        self.log = Ghost(self.log@.push(Op::ConstFloat(text@)));
        Traced { v, t: Ghost(Term::Float(text@)) }
    }

    fn emit_const_str(&mut self, text: &str, name: &str) -> (r: Result<Traced<PointerValue<'ctx>>, String>)
        ensures
            final(self).quiet(old(self)),
            r is Err ==> final(self).faults() > old(self).faults(),
            r is Ok ==> final(self).log() == old(self).log().push(Op::ConstStr(text@)),
            r is Ok ==> r->Ok_0.t@ == Term::Str(text@),
    {
        let v = self.lx(llvm::build_global_string_ptr(&self.builder, text, name))?;
        self.log = Ghost(self.log@.push(Op::ConstStr(text@)));
        Ok(Traced { v, t: Ghost(Term::Str(text@)) })
    }

    fn emit_int_arith(&mut self, op: BinOp, l: Traced<IntValue<'ctx>>, r: Traced<IntValue<'ctx>>) -> (res: Result<Traced<IntValue<'ctx>>, String>)
        requires
            op == BinOp::Add || op == BinOp::Sub || op == BinOp::Mul || op == BinOp::Div || op == BinOp::Mod,
        ensures
            final(self).quiet(old(self)),
            res is Err ==> final(self).faults() > old(self).faults(),
            res is Ok ==> final(self).log() == old(self).log().push(Op::IntArith(op)),
            res is Ok ==> res->Ok_0.t@ == Term::IntArith(op, Box::new(l.t@), Box::new(r.t@)),
    {
        let v = match op {
            BinOp::Add => self.lx(llvm::build_int_add(&self.builder, l, r, "iadd"))?,
            BinOp::Sub => self.lx(llvm::build_int_sub(&self.builder, l, r, "isub"))?,
            BinOp::Mul => self.lx(llvm::build_int_mul(&self.builder, l, r, "imul"))?,
            BinOp::Div => self.lx(llvm::build_int_signed_div(&self.builder, l, r, "idiv"))?,
            _ => self.lx(llvm::build_int_signed_rem(&self.builder, l, r, "irem"))?,
        };
        self.log = Ghost(self.log@.push(Op::IntArith(op)));
        Ok(v)
    }

    fn emit_float_arith(&mut self, op: BinOp, l: Traced<FloatValue<'ctx>>, r: Traced<FloatValue<'ctx>>) -> (res: Result<Traced<FloatValue<'ctx>>, String>)
        requires
            op == BinOp::Add || op == BinOp::Sub || op == BinOp::Mul || op == BinOp::Div || op == BinOp::Mod,
        ensures
            final(self).quiet(old(self)),
            res is Err ==> final(self).faults() > old(self).faults(),
            res is Ok ==> final(self).log() == old(self).log().push(Op::FloatArith(op)),
            res is Ok ==> res->Ok_0.t@ == Term::FloatArith(op, Box::new(l.t@), Box::new(r.t@)),
    {
        let v = match op {
            BinOp::Add => self.lx(llvm::build_float_add(&self.builder, l, r, "fadd"))?,
            BinOp::Sub => self.lx(llvm::build_float_sub(&self.builder, l, r, "fsub"))?,
            BinOp::Mul => self.lx(llvm::build_float_mul(&self.builder, l, r, "fmul"))?,
            BinOp::Div => self.lx(llvm::build_float_div(&self.builder, l, r, "fdiv"))?,
            _ => self.lx(llvm::build_float_rem(&self.builder, l, r, "frem"))?,
        };
        self.log = Ghost(self.log@.push(Op::FloatArith(op)));
        Ok(v)
    }

    fn emit_int_compare(&mut self, rel: IntRel, l: Traced<IntValue<'ctx>>, r: Traced<IntValue<'ctx>>, name: &str) -> (res: Result<Traced<IntValue<'ctx>>, String>)
        ensures
            final(self).quiet(old(self)),
            res is Err ==> final(self).faults() > old(self).faults(),
            res is Ok ==> final(self).log() == old(self).log().push(Op::IntCompare(rel)),
            res is Ok ==> res->Ok_0.t@ == Term::IntCompare(rel, Box::new(l.t@), Box::new(r.t@)),
    {
        let v = self.lx(llvm::build_int_compare(&self.builder, rel, l, r, name))?;
        self.log = Ghost(self.log@.push(Op::IntCompare(rel)));
        Ok(v)
    }

    fn emit_float_compare(&mut self, rel: FloatRel, l: Traced<FloatValue<'ctx>>, r: Traced<FloatValue<'ctx>>, name: &str) -> (res: Result<Traced<IntValue<'ctx>>, String>)
        ensures
            final(self).quiet(old(self)),
            res is Err ==> final(self).faults() > old(self).faults(),
            res is Ok ==> final(self).log() == old(self).log().push(Op::FloatCompare(rel)),
            res is Ok ==> res->Ok_0.t@ == Term::FloatCompare(rel, Box::new(l.t@), Box::new(r.t@)),
    {
        let v = self.lx(llvm::build_float_compare(&self.builder, rel, l, r, name))?;
        self.log = Ghost(self.log@.push(Op::FloatCompare(rel)));
        Ok(v)
    }

    fn emit_and(&mut self, l: Traced<IntValue<'ctx>>, r: Traced<IntValue<'ctx>>, name: &str) -> (res: Result<Traced<IntValue<'ctx>>, String>)
        ensures
            final(self).quiet(old(self)),
            res is Err ==> final(self).faults() > old(self).faults(),
            res is Ok ==> final(self).log() == old(self).log().push(Op::And),
            res is Ok ==> res->Ok_0.t@ == and_t(l.t@, r.t@),
    {
        let v = self.lx(llvm::build_and(&self.builder, l, r, name))?;
        self.log = Ghost(self.log@.push(Op::And));
        Ok(v)
    }

    fn emit_or(&mut self, l: Traced<IntValue<'ctx>>, r: Traced<IntValue<'ctx>>, name: &str) -> (res: Result<Traced<IntValue<'ctx>>, String>)
        ensures
            final(self).quiet(old(self)),
            res is Err ==> final(self).faults() > old(self).faults(),
            res is Ok ==> final(self).log() == old(self).log().push(Op::Or),
            res is Ok ==> res->Ok_0.t@ == Term::Or(Box::new(l.t@), Box::new(r.t@)),
    {
        let v = self.lx(llvm::build_or(&self.builder, l, r, name))?;
        self.log = Ghost(self.log@.push(Op::Or));
        Ok(v)
    }

    fn emit_not(&mut self, x: Traced<IntValue<'ctx>>, name: &str) -> (res: Result<Traced<IntValue<'ctx>>, String>)
        ensures
            final(self).quiet(old(self)),
            res is Err ==> final(self).faults() > old(self).faults(),
            res is Ok ==> final(self).log() == old(self).log().push(Op::Not),
            res is Ok ==> res->Ok_0.t@ == Term::Not(Box::new(x.t@)),
    {
        let v = self.lx(llvm::build_not(&self.builder, x, name))?;
        self.log = Ghost(self.log@.push(Op::Not));
        Ok(v)
    }

    /// The constant `true`, made without a log entry (the start of a conjunction).
    fn true_tr(&self) -> (v: Traced<IntValue<'ctx>>)
        ensures
            v.t@ == Term::Bool(true),
    {
        Traced { v: self.bool_const(true), t: Ghost(Term::Bool(true)) }
    }

    /// An `i32` constant made without a log entry (a loop's start or step).
    fn i32_tr(&self, n: u64) -> (v: Traced<IntValue<'ctx>>)
        requires
            n <= 0x7fff_ffff,
        ensures
            v.t@ == Term::Int(n as i64),
    {
        Traced { v: self.i32_const(n, false), t: Ghost(Term::Int(n as i64)) }
    }

    /// `if c { a } else { b }` on one-bit values.
    fn select_tr(&self, c: Traced<IntValue<'ctx>>, a: Traced<IntValue<'ctx>>, b: Traced<IntValue<'ctx>>, name: &str) -> (r: Result<Traced<IntValue<'ctx>>, String>)
        ensures
            r is Ok ==> r->Ok_0.t@ == Term::Select(Box::new(c.t@), Box::new(a.t@), Box::new(b.t@)),
    {
        let at = Traced { v: llvm::int_basic(a.v), t: a.t };
        let bt = Traced { v: llvm::int_basic(b.v), t: b.t };
        let sel = bx(llvm::build_select(&self.builder, c, at, bt, name))?;
        let v = int_of(sel.v)?;
        Ok(Traced { v, t: sel.t })
    }

    /// Field `index` of an aggregate value.
    fn extract(&mut self, agg: &Traced<StructValue<'ctx>>, index: u32, name: &str) -> (r: Result<Traced<BasicValueEnum<'ctx>>, String>)
        ensures
            final(self).quiet(old(self)),
            final(self).log() == old(self).log(),
            r is Ok ==> r->Ok_0.t@ == field(agg.t@, index as int),
            r is Err ==> final(self).faults() > old(self).faults(),
    {
        let v = self.lx(llvm::build_extract_value(&self.builder, agg.v, index, name))?;
        Ok(Traced { v, t: Ghost(field(agg.t@, index as int)) })
    }

    /// A call of the runtime function `name` on `a` and `b`, in that order.
    fn call_runtime2(&mut self, name: &str, missing: &str, a: Traced<BasicValueEnum<'ctx>>, b: Traced<BasicValueEnum<'ctx>>, call_name: &str) -> (r: Result<Traced<BasicValueEnum<'ctx>>, String>)
        ensures
            final(self).quiet(old(self)),
            r is Err ==> final(self).faults() > old(self).faults(),
            r is Ok ==> final(self).log() == old(self).log().push(Op::Call(name@)),
            r is Ok ==> r->Ok_0.t@ == Term::Call(name@, seq![a.t@, b.t@]),
    {
        let mut args: Vec<BasicValueEnum<'ctx>> = Vec::new();
        args.push(a.v);
        args.push(b.v);
        let call = self.call_runtime(name, missing, &args, call_name)?;
        let v = self.lneed(call, "runtime call returned void")?;
        Ok(Traced { v, t: Ghost(Term::Call(name@, seq![a.t@, b.t@])) })
    }
}

impl<'ctx> Codegen<'ctx> {
    // ── Equality, operators and casts ────────────────────────────────────────

    /// `l == r` for values of type `ty`: integers and booleans compare
    /// directly, floats by ordered equality, strings through the runtime,
    /// ranges, tuples, optionals and structs field by field, arrays by length
    /// and then element by element in a loop. `depth` bounds how many struct
    /// types deep the comparison may go (a struct that contains itself has no
    /// finite comparison).
    #[verifier::loop_isolation(false)]
    fn compare_values(&mut self, ty: &Type, l: Traced<BasicValueEnum<'ctx>>, r: Traced<BasicValueEnum<'ctx>>, depth: usize) -> (res: Result<Traced<IntValue<'ctx>>, String>)
        ensures
            final(self).quiet(old(self)),
            res is Err ==> (final(self).faults() > old(self).faults()
                || eq_refused(old(self).env(), ty@, depth as nat, old(self).current_fn is Some)),
            res is Ok ==> res->Ok_0.t@ == eq_term(old(self).env(), ty@, l.t@, r.t@, depth as nat),
            res is Ok ==> ((ty@ is I32 || ty@ is I64 || ty@ is Bool) ==> final(self).log() == old(self).log().push(Op::IntCompare(IntRel::Eq))),
            res is Ok ==> (ty@ is F64 ==> final(self).log() == old(self).log().push(Op::FloatCompare(FloatRel::Oeq))),
            res is Ok ==> (ty@ is Str ==> final(self).log() == old(self).log().push(Op::Call("pebbles_str_eq"@))),
            (ty@ is Void || ty@ is SelfType) ==> (res is Err && res->Err_0@ == "equality not supported for this type"@),
            ty@ matches SpecType::Named(n) ==> (find_last(old(self).env().structs, n) is None
                ==> (res is Err && res->Err_0@ == "unknown struct '"@ + n + "'"@)),
            ty@ matches SpecType::Named(n) ==> ((find_last(old(self).env().structs, n) is Some && depth == 0)
                ==> (res is Err && res->Err_0@ == "struct '"@ + n + "' contains itself"@)),
        decreases depth, ty,
    {
        let ghost env0 = self.env();
        let ghost lt = l.t@;
        let ghost rt = r.t@;
        match ty {
            Type::I32 | Type::I64 | Type::Bool => {
                let lv = self.int_t(l)?;
                let rv = self.int_t(r)?;
                self.emit_int_compare(IntRel::Eq, lv, rv, "eq")
            },
            Type::F64 => {
                let lv = self.float_t(l)?;
                let rv = self.float_t(r)?;
                self.emit_float_compare(FloatRel::Oeq, lv, rv, "feq")
            },
            Type::Str => {
                let v = self.call_runtime2("pebbles_str_eq", "missing pebbles_str_eq", l, r, "streq")?;
                self.int_t(v)
            },
            Type::Range => {
                let lv = self.struct_t(l)?;
                let rv = self.struct_t(r)?;
                let ghost f = |k: int| Term::IntCompare(IntRel::Eq, Box::new(field(lt, k)), Box::new(field(rt, k)));
                let mut cur = self.true_tr();
                let mut i: u32 = 0;
                proof {
                    assert(Seq::new(0, f) =~= Seq::<Term>::empty());
                }
                while i < 3
                    invariant
                        i <= 3,
                        self.quiet(old(self)),
                        lv.t@ == lt,
                        rv.t@ == rt,
                        cur.t@ == and_all(Seq::new(i as nat, f)),
                    decreases 3 - i,
                {
                    let le_raw = self.extract(&lv, i, "le")?;
                    let le = self.int_t(le_raw)?;
                    let re_raw = self.extract(&rv, i, "re")?;
                    let re = self.int_t(re_raw)?;
                    let eq = self.emit_int_compare(IntRel::Eq, le, re, "eq")?;
                    cur = self.emit_and(cur, eq, "and")?;
                    proof {
                        assert(Seq::new((i + 1) as nat, f).drop_last() =~= Seq::new(i as nat, f));
                    }
                    i = i + 1;
                }
                proof {
                    assert(Seq::new(3, f) =~= seq![f(0), f(1), f(2)]);
                    assert(cur.t@ == eq_term(env0, ty@, lt, rt, depth as nat));
                }
                Ok(cur)
            },
            Type::Tuple(elems) => {
                let lv = self.struct_t(l)?;
                let rv = self.struct_t(r)?;
                let mut cur = self.true_tr();
                let mut idx: usize = 0;
                proof {
                    crate::ast::lemma_spec_types_len(elems@);
                }
                while idx < elems.len()
                    invariant
                        idx <= elems.len(),
                        self.quiet(old(self)),
                        self.env() == env0,
                        lv.t@ == lt,
                        rv.t@ == rt,
                        ty@ == SpecType::Tuple(spec_types(elems@)),
                        spec_types(elems@).len() == elems@.len(),
                        forall|j: int| 0 <= j < elems@.len() ==> #[trigger] spec_types(elems@)[j] == elems@[j]@,
                        cur.t@ == eq_list(env0, spec_types(elems@), lt, rt, depth as nat, idx as nat),
                    decreases elems.len() - idx,
                {
                    proof {
                        assert(decreases_to!(elems => elems@));
                        assert(decreases_to!(elems@ => elems@[idx as int]));
                    }
                    let le = self.extract(&lv, idx as u32, "le")?;
                    let re = self.extract(&rv, idx as u32, "re")?;
                    let eq_r = self.compare_values(&elems[idx], le, re, depth);
                    proof {
                        if eq_r is Err && self.faults() <= old(self).faults() {
                            lemma_refused_in_list(env0, spec_types(elems@), depth as nat, old(self).current_fn is Some, idx as nat, elems@.len());
                        }
                    }
                    let eq = eq_r?;
                    cur = self.emit_and(cur, eq, "and")?;
                    idx = idx + 1;
                }
                proof {
                    assert(idx == elems@.len());
                    assert(cur.t@ == eq_list(env0, spec_types(elems@), lt, rt, depth as nat, elems@.len()));
                    assert(eq_term(env0, SpecType::Tuple(spec_types(elems@)), lt, rt, depth as nat) == eq_list(env0, spec_types(elems@), lt, rt, depth as nat, spec_types(elems@).len()));
                    assert(cur.t@ == eq_term(env0, ty@, lt, rt, depth as nat));
                }
                Ok(cur)
            },
            Type::Optional(inner) => {
                let lv = self.struct_t(l)?;
                let rv = self.struct_t(r)?;
                let ls_raw = self.extract(&lv, 0, "ls")?;
                let ls = self.int_t(ls_raw)?;
                let rs_raw = self.extract(&rv, 0, "rs")?;
                let rs = self.int_t(rs_raw)?;
                let both_some = self.emit_and(ls, rs, "both")?;
                let ls_not = self.emit_not(ls, "ls_not")?;
                let rs_not = self.emit_not(rs, "rs_not")?;
                let none_none = self.emit_and(ls_not, rs_not, "none")?;
                let inner_eq = if matches!(**inner, Type::Void) {
                    self.true_tr()
                } else {
                    proof {
                        assert((**inner)@ != SpecType::Void);
                    }
                    let le = self.extract(&lv, 1, "le")?;
                    let re = self.extract(&rv, 1, "re")?;
                    self.compare_values(inner, le, re, depth)?
                };
                let both_some_eq = self.emit_and(both_some, inner_eq, "both_eq")?;
                let res = self.emit_or(none_none, both_some_eq, "opt_eq")?;
                proof {
                    assert(ty@ == SpecType::Optional(Box::new((**inner)@)));
                    assert(both_some.t@ == and_t(field(lt, 0), field(rt, 0)));
                    assert(none_none.t@ == and_t(Term::Not(Box::new(field(lt, 0))), Term::Not(Box::new(field(rt, 0)))));
                    assert(res.t@ == eq_term(env0, ty@, lt, rt, depth as nat));
                }
                Ok(res)
            },
            Type::Named(name) => {
                let fields = match self.struct_fields_of(name) {
                    Some(f) => f,
                    None => {
                        return Err(msg3("unknown struct '", name.as_str(), "'"));
                    },
                };
                if depth == 0 {
                    return Err(msg3("struct '", name.as_str(), "' contains itself"));
                }
                let ghost info = find_last(env0.structs, name@)->0;
                let lv = self.struct_t(l)?;
                let rv = self.struct_t(r)?;
                let mut cur = self.true_tr();
                let mut idx: usize = 0;
                while idx < fields.len()
                    invariant
                        idx <= fields.len(),
                        self.quiet(old(self)),
                        self.env() == env0,
                        depth > 0,
                        lv.t@ == lt,
                        rv.t@ == rt,
                        fields@.len() == info.fields.len(),
                        forall|j: int| 0 <= j < fields@.len() ==> #[trigger] fields@[j].1@ == info.fields[j].1,
                        cur.t@ == eq_list(env0, field_types(info.fields), lt, rt, (depth - 1) as nat, idx as nat),
                    decreases fields.len() - idx,
                {
                    let le = self.extract(&lv, idx as u32, "le")?;
                    let re = self.extract(&rv, idx as u32, "re")?;
                    let eq_r = self.compare_values(&fields[idx].1, le, re, depth - 1);
                    proof {
                        if eq_r is Err && self.faults() <= old(self).faults() {
                            lemma_refused_in_list(env0, field_types(info.fields), (depth - 1) as nat, old(self).current_fn is Some, idx as nat, info.fields.len());
                        }
                    }
                    let eq = eq_r?;
                    cur = self.emit_and(cur, eq, "and")?;
                    idx = idx + 1;
                }
                proof {
                    assert(cur.t@ == eq_term(env0, ty@, lt, rt, depth as nat));
                }
                Ok(cur)
            },
            Type::Array(inner) => {
                let func = need(self.current_fn, "array equality outside function")?;
                let l_len = Traced { v: self.array_len_from_value(l.v)?, t: Ghost(Term::Len(Box::new(lt))) };
                let r_len = Traced { v: self.array_len_from_value(r.v)?, t: Ghost(Term::Len(Box::new(rt))) };
                let len_eq = self.emit_int_compare(IntRel::Eq, l_len, r_len, "len_eq")?;

                let result_alloca = self.create_entry_alloca("arr_eq", &Type::Bool)?;
                let idx_alloca = self.create_entry_alloca("arr_idx", &Type::I32)?;

                let len_ok_bb = llvm::append_basic_block(self.context, func, "arr_eq.len_ok");
                let len_fail_bb = llvm::append_basic_block(self.context, func, "arr_eq.len_fail");
                let cond_bb = llvm::append_basic_block(self.context, func, "arr_eq.cond");
                let body_bb = llvm::append_basic_block(self.context, func, "arr_eq.body");
                let end_bb = llvm::append_basic_block(self.context, func, "arr_eq.end");

                self.lx(llvm::build_conditional_branch(&self.builder, len_eq.v, len_ok_bb, len_fail_bb))?;

                llvm::position_at_end(&self.builder, len_fail_bb);
                self.lx(llvm::build_store(&self.builder, result_alloca, llvm::int_basic(self.bool_const(false))))?;
                self.lx(llvm::build_unconditional_branch(&self.builder, end_bb))?;

                llvm::position_at_end(&self.builder, len_ok_bb);
                self.lx(llvm::build_store(&self.builder, result_alloca, llvm::int_basic(self.bool_const(true))))?;
                self.lx(llvm::build_store(&self.builder, idx_alloca, llvm::int_basic(self.i32_const(0, false))))?;
                self.lx(llvm::build_unconditional_branch(&self.builder, cond_bb))?;

                llvm::position_at_end(&self.builder, cond_bb);
                let cur_raw = self.lx(llvm::build_load(&self.builder, idx_alloca, "i"))?;
                let cur = Traced { v: self.int_l(cur_raw)?, t: Ghost(Term::LoopIndex) };
                let below = self.emit_int_compare(IntRel::Slt, cur, l_len, "cmp")?;
                self.lx(llvm::build_conditional_branch(&self.builder, below.v, body_bb, end_bb))?;

                llvm::position_at_end(&self.builder, body_bb);
                let l_ptr = self.array_elem_ptr_from_value(l.v, cur.v, inner)?;
                let r_ptr = self.array_elem_ptr_from_value(r.v, cur.v, inner)?;
                let l_val = Traced { v: self.lx(llvm::build_load(&self.builder, l_ptr, "l"))?, t: Ghost(Term::Elem(Box::new(lt), Box::new(Term::LoopIndex))) };
                let r_val = Traced { v: self.lx(llvm::build_load(&self.builder, r_ptr, "r"))?, t: Ghost(Term::Elem(Box::new(rt), Box::new(Term::LoopIndex))) };
                let eq = self.compare_values(inner, l_val, r_val, depth)?;
                let t = self.true_tr();
                let is_eq = self.emit_int_compare(IntRel::Eq, eq, t, "is_eq")?;
                let fail_bb = llvm::append_basic_block(self.context, func, "arr_eq.fail");
                let cont_bb = llvm::append_basic_block(self.context, func, "arr_eq.cont");
                self.lx(llvm::build_conditional_branch(&self.builder, is_eq.v, cont_bb, fail_bb))?;

                llvm::position_at_end(&self.builder, fail_bb);
                self.lx(llvm::build_store(&self.builder, result_alloca, llvm::int_basic(self.bool_const(false))))?;
                self.lx(llvm::build_unconditional_branch(&self.builder, end_bb))?;

                llvm::position_at_end(&self.builder, cont_bb);
                let one = Traced { v: self.i32_const(1, false), t: Ghost(Term::Int(1)) };
                let next = self.emit_int_arith(BinOp::Add, cur, one)?;
                self.lx(llvm::build_store(&self.builder, idx_alloca, llvm::int_basic(next.v)))?;
                self.lx(llvm::build_unconditional_branch(&self.builder, cond_bb))?;

                llvm::position_at_end(&self.builder, end_bb);
                let res_raw = self.lx(llvm::build_load(&self.builder, result_alloca, "res"))?;
                let res = self.int_l(res_raw)?;
                Ok(Traced { v: res, t: Ghost(Term::ArrayEq((**inner)@, Box::new(lt), Box::new(rt))) })
            },
            Type::Void | Type::SelfType => Err(String::from_str("equality not supported for this type")),
        }
    }

    /// A binary operation on two values whose left operand has type `ty`,
    /// carried out as `CodegenTables::binop_plan` decides.
    fn codegen_binop(&mut self, op: BinOp, l: Traced<BasicValueEnum<'ctx>>, r: Traced<BasicValueEnum<'ctx>>, ty: &Type) -> (res: Result<Traced<BasicValueEnum<'ctx>>, String>)
        ensures
            final(self).quiet(old(self)),
            res is Err ==> (final(self).faults() > old(self).faults()
                || (binop_plan_of(op, ty@) is StructuralEq
                    && eq_refused(old(self).env(), ty@, old(self).env().structs.len(), old(self).current_fn is Some))),
            res is Ok ==> res->Ok_0.t@ == binop_term(old(self).env(), op, ty@, l.t@, r.t@),
            res is Ok ==> (!(binop_plan_of(op, ty@) is StructuralEq)
                ==> final(self).log() == old(self).log() + plan_ops(binop_plan_of(op, ty@))),
            res is Ok ==> (binop_plan_of(op, ty@) matches BinOpPlan::StructuralEq { negate }
                ==> (negate ==> final(self).log().last() == Op::Not)),
    {
        let plan = self.tables.binop_plan(op, ty);
        let ghost before = self.log();
        match plan {
            BinOpPlan::FloatArith(o) => {
                let lv = self.float_t(l)?;
                let rv = self.float_t(r)?;
                let v = self.emit_float_arith(o, lv, rv)?;
                proof {
                    assert(self.log() =~= before + plan_ops(plan));
                }
                Ok(float_basic_tr(v))
            },
            BinOpPlan::StrConcat => {
                let v = self.call_runtime2("pebbles_str_concat", "missing pebbles_str_concat", l, r, "concat")?;
                proof {
                    assert(self.log() =~= before + plan_ops(plan));
                }
                Ok(v)
            },
            BinOpPlan::IntArith(o) => {
                let lv = self.int_t(l)?;
                let rv = self.int_t(r)?;
                let v = self.emit_int_arith(o, lv, rv)?;
                proof {
                    assert(self.log() =~= before + plan_ops(plan));
                }
                Ok(int_basic_tr(v))
            },
            BinOpPlan::StructuralEq { negate } => {
                let count = self.tables.struct_count();
                let mut v = self.compare_values(ty, l, r, count)?;
                if negate {
                    v = self.emit_not(v, "not")?;
                }
                Ok(int_basic_tr(v))
            },
            BinOpPlan::StrEq { negate } => {
                let call = self.call_runtime2("pebbles_str_eq", "missing pebbles_str_eq", l, r, "streq")?;
                let mut v = self.int_t(call)?;
                if negate {
                    v = self.emit_not(v, "not")?;
                }
                proof {
                    assert(self.log() =~= before + plan_ops(plan));
                }
                Ok(int_basic_tr(v))
            },
            BinOpPlan::FloatCompare(o) => {
                let rel = match o {
                    BinOp::Eq => FloatRel::Oeq,
                    BinOp::NotEq => FloatRel::One,
                    BinOp::Lt => FloatRel::Olt,
                    BinOp::Gt => FloatRel::Ogt,
                    BinOp::LtEq => FloatRel::Ole,
                    _ => FloatRel::Oge,
                };
                let lv = self.float_t(l)?;
                let rv = self.float_t(r)?;
                let v = self.emit_float_compare(rel, lv, rv, "fcmp")?;
                proof {
                    assert(self.log() =~= before + plan_ops(plan));
                }
                Ok(int_basic_tr(v))
            },
            BinOpPlan::IntCompare(o) => {
                let rel = match o {
                    BinOp::Eq => IntRel::Eq,
                    BinOp::NotEq => IntRel::Ne,
                    BinOp::Lt => IntRel::Slt,
                    BinOp::Gt => IntRel::Sgt,
                    BinOp::LtEq => IntRel::Sle,
                    _ => IntRel::Sge,
                };
                let lv = self.int_t(l)?;
                let rv = self.int_t(r)?;
                let v = self.emit_int_compare(rel, lv, rv, "icmp")?;
                proof {
                    assert(self.log() =~= before + plan_ops(plan));
                }
                Ok(int_basic_tr(v))
            },
            BinOpPlan::Logic(o) => {
                let lv = self.int_t(l)?;
                let rv = self.int_t(r)?;
                let v = match o {
                    BinOp::And => self.emit_and(lv, rv, "and")?,
                    _ => self.emit_or(lv, rv, "or")?,
                };
                proof {
                    assert(self.log() =~= before + plan_ops(plan));
                }
                Ok(int_basic_tr(v))
            },
        }
    }

    /// A numeric cast, carried out as `CodegenTables::cast_plan` decides.
    fn codegen_cast(&mut self, val: BasicValueEnum<'ctx>, from: &Type, to: &Type) -> (res: Result<BasicValueEnum<'ctx>, String>)
        ensures
            final(self).quiet(old(self)),
            res is Err ==> (final(self).faults() > old(self).faults() || cast_plan_of(from@, to@) is None),
            res is Ok ==> (cast_plan_of(from@, to@) is Some
                && final(self).log() == old(self).log().push(Op::Cast(cast_plan_of(from@, to@)->0))),
            cast_plan_of(from@, to@) is None ==> res is Err,
    {
        let plan = self.tables.cast_plan(from, to)?;
        let v = match plan {
            CastPlan::IntToFloat => {
                let v = self.int_l(val)?;
                let x = self.lx(llvm::build_signed_int_to_float(&self.builder, v, llvm::double_type(self.context), "sitofp"))?;
                llvm::float_basic(x)
            },
            CastPlan::FloatToI32 => {
                let v = self.lneed(llvm::as_float(val), "expected a floating-point value")?;
                let x = self.lx(llvm::build_float_to_signed_int(&self.builder, v, llvm::i32_type(self.context), "fptosi"))?;
                llvm::int_basic(x)
            },
            CastPlan::FloatToI64 => {
                let v = self.lneed(llvm::as_float(val), "expected a floating-point value")?;
                let x = self.lx(llvm::build_float_to_signed_int(&self.builder, v, llvm::i64_type(self.context), "fptosi"))?;
                llvm::int_basic(x)
            },
            CastPlan::WidenToI64 => {
                let v = self.int_l(val)?;
                let x = self.lx(llvm::build_int_cast(&self.builder, v, llvm::i64_type(self.context), "sext"))?;
                llvm::int_basic(x)
            },
            CastPlan::NarrowToI32 => {
                let v = self.int_l(val)?;
                let x = self.lx(llvm::build_int_cast(&self.builder, v, llvm::i32_type(self.context), "trunc"))?;
                llvm::int_basic(x)
            },
        };
        self.log = Ghost(self.log@.push(Op::Cast(plan)));
        Ok(v)
    }
}

impl<'ctx> Codegen<'ctx> {
    // ── Patterns ─────────────────────────────────────────────────────────────

    /// The condition under which `value` (of type `ty`) matches `pattern`, and
    /// the variables the pattern binds with their values and types.
    #[verifier::loop_isolation(false)]
    fn codegen_pattern_cond(&mut self, pattern: &Pattern, value: Traced<BasicValueEnum<'ctx>>, ty: &Type) -> (res: Result<(Traced<IntValue<'ctx>>, Vec<(String, Traced<BasicValueEnum<'ctx>>, Type)>), String>)
        ensures
            final(self).quiet(old(self)),
            res is Err ==> (final(self).faults() > old(self).faults() || pat_refused(old(self).env(), pattern@, ty@)),
            res is Ok ==> res->Ok_0.0.t@ == pat_term(old(self).env(), pattern@, value.t@, ty@),
            res is Ok ==> binds_view(res->Ok_0.1@) == pat_binds(old(self).env(), pattern@, value.t@, ty@),
            res is Ok ==> (match pattern@ {
                SpecPattern::Wildcard | SpecPattern::Binding(_) => final(self).log() == old(self).log(),
                SpecPattern::Int(n) => final(self).log() == old(self).log().push(Op::ConstInt(n)).push(Op::IntCompare(IntRel::Eq)),
                SpecPattern::Bool(b) => final(self).log() == old(self).log().push(Op::ConstBool(b)).push(Op::IntCompare(IntRel::Eq)),
                SpecPattern::Float(t) => final(self).log() == old(self).log().push(Op::ConstFloat(t)).push(Op::FloatCompare(FloatRel::Oeq)),
                SpecPattern::Str(t) => final(self).log() == old(self).log().push(Op::ConstStr(t)).push(Op::Call("pebbles_str_eq"@)),
                SpecPattern::NoneLit => final(self).log() == old(self).log().push(Op::ConstBool(false)).push(Op::IntCompare(IntRel::Eq)),
                _ => true,
            }),
            (pattern@ is NoneLit && !(ty@ is Optional)) ==> (res is Err && res->Err_0@ == "none pattern on non-optional"@),
            (pattern@ is Tuple && !(ty@ is Tuple)) ==> (res is Err && res->Err_0@ == "tuple pattern on non-tuple"@),
            pattern@ matches SpecPattern::Struct { name, .. } ==> (find_last(old(self).env().structs, name) is None
                ==> (res is Err && res->Err_0@ == "unknown struct '"@ + name + "'"@)),
        decreases pattern,
    {
        let ghost env0 = self.env();
        let ghost vt = value.t@;
        let true_val = self.true_tr();
        match pattern {
            Pattern::Wildcard => {
                proof {
                    assert(binds_view(Seq::<(String, Traced<BasicValueEnum<'ctx>>, Type)>::empty()) =~= Seq::empty());
                }
                Ok((true_val, Vec::new()))
            },
            Pattern::Binding(name) => {
                let mut binds: Vec<(String, Traced<BasicValueEnum<'ctx>>, Type)> = Vec::new();
                binds.push((name.clone(), value, ty.clone()));
                proof {
                    assert(binds_view(binds@) =~= seq![(name@, vt, ty@)]);
                }
                Ok((true_val, binds))
            },
            Pattern::Int(n) => {
                let v = self.int_t(value)?;
                let c = self.emit_const_int(*n);
                let cond = self.emit_int_compare(IntRel::Eq, v, c, "m_eq")?;
                proof {
                    assert(binds_view(Seq::<(String, Traced<BasicValueEnum<'ctx>>, Type)>::empty()) =~= Seq::empty());
                }
                Ok((cond, Vec::new()))
            },
            Pattern::Bool(b) => {
                let v = self.int_t(value)?;
                let c = self.emit_const_bool(*b);
                let cond = self.emit_int_compare(IntRel::Eq, v, c, "m_eq")?;
                proof {
                    assert(binds_view(Seq::<(String, Traced<BasicValueEnum<'ctx>>, Type)>::empty()) =~= Seq::empty());
                }
                Ok((cond, Vec::new()))
            },
            Pattern::Float(text) => {
                let v = self.float_t(value)?;
                let c = self.emit_const_float(text);
                let cond = self.emit_float_compare(FloatRel::Oeq, v, c, "m_eq")?;
                proof {
                    assert(binds_view(Seq::<(String, Traced<BasicValueEnum<'ctx>>, Type)>::empty()) =~= Seq::empty());
                }
                Ok((cond, Vec::new()))
            },
            Pattern::Str(text) => {
                let lit = self.emit_const_str(text.as_str(), "mstr")?;
                let lit_v = Traced { v: llvm::pointer_basic(lit.v), t: lit.t };
                let call = self.call_runtime2("pebbles_str_eq", "missing pebbles_str_eq", value, lit_v, "streq")?;
                let v = self.int_t(call)?;
                proof {
                    assert(binds_view(Seq::<(String, Traced<BasicValueEnum<'ctx>>, Type)>::empty()) =~= Seq::empty());
                }
                Ok((v, Vec::new()))
            },
            Pattern::NoneLit => {
                if let Type::Optional(_) = ty {
                    let opt = self.struct_t(value)?;
                    let is_some_raw = self.extract(&opt, 0, "is_some")?;
                    let is_some = self.int_t(is_some_raw)?;
                    let zero = self.emit_const_bool(false);
                    let cond = self.emit_int_compare(IntRel::Eq, is_some, zero, "isnone")?;
                    proof {
                        assert(binds_view(Seq::<(String, Traced<BasicValueEnum<'ctx>>, Type)>::empty()) =~= Seq::empty());
                    }
                    Ok((cond, Vec::new()))
                } else {
                    Err(String::from_str("none pattern on non-optional"))
                }
            },
            Pattern::Tuple(pats) => {
                let elem_types = match ty {
                    Type::Tuple(ts) => ts,
                    _ => {
                        return Err(String::from_str("tuple pattern on non-tuple"));
                    },
                };
                let tup = self.struct_t(value)?;
                let mut cond = true_val;
                let mut binds: Vec<(String, Traced<BasicValueEnum<'ctx>>, Type)> = Vec::new();
                let mut idx: usize = 0;
                proof {
                    crate::ast::lemma_patterns_index(pats@);
                    crate::ast::lemma_spec_types_len(elem_types@);
                    assert(binds_view(binds@) =~= Seq::empty());
                }
                while idx < pats.len()
                    invariant
                        idx <= pats.len(),
                        self.quiet(old(self)),
                        self.env() == env0,
                        tup.t@ == vt,
                        pattern@ == SpecPattern::Tuple(spec_patterns(pats@)),
                        ty@ == SpecType::Tuple(spec_types(elem_types@)),
                        spec_patterns(pats@).len() == pats@.len(),
                        forall|j: int| 0 <= j < pats@.len() ==> #[trigger] spec_patterns(pats@)[j] == pats@[j]@,
                        spec_types(elem_types@).len() == elem_types@.len(),
                        forall|j: int| 0 <= j < elem_types@.len() ==> #[trigger] spec_types(elem_types@)[j] == elem_types@[j]@,
                        cond.t@ == pat_list(env0, spec_patterns(pats@), spec_types(elem_types@), vt, idx as nat),
                        binds_view(binds@) == binds_list(env0, spec_patterns(pats@), spec_types(elem_types@), vt, idx as nat),
                    decreases pats.len() - idx,
                {
                    proof {
                        assert(decreases_to!(pats => pats@));
                        assert(decreases_to!(pats@ => pats@[idx as int]));
                    }
                    let elem = self.extract(&tup, idx as u32, "te")?;
                    if idx >= elem_types.len() {
                        proof {
                            lemma_pat_list_has(env0, spec_patterns(pats@), spec_types(elem_types@), idx as nat, pats@.len());
                        }
                        return Err(String::from_str("tuple pattern has more elements than the tuple"));
                    }
                    let sub = self.codegen_pattern_cond(&pats[idx], elem, &elem_types[idx]);
                    proof {
                        if sub is Err && self.faults() <= old(self).faults() {
                            lemma_pat_list_has(env0, spec_patterns(pats@), spec_types(elem_types@), idx as nat, pats@.len());
                        }
                    }
                    let (c, mut b) = sub?;
                    cond = self.emit_and(cond, c, "m_and")?;
                    let ghost old_binds = binds@;
                    let ghost bb = b@;
                    binds.append(&mut b);
                    proof {
                        assert(binds_view(binds@) =~= binds_view(old_binds) + binds_view(bb));
                    }
                    idx = idx + 1;
                }
                Ok((cond, binds))
            },
            Pattern::Struct { name, fields } => {
                let info_fields = match self.struct_fields_of(name) {
                    Some(f) => f,
                    None => {
                        return Err(msg3("unknown struct '", name.as_str(), "'"));
                    },
                };
                let st = self.struct_t(value)?;
                let ghost info = find_last(env0.structs, name@)->0;
                let mut cond = true_val;
                let mut binds: Vec<(String, Traced<BasicValueEnum<'ctx>>, Type)> = Vec::new();
                let mut i: usize = 0;
                proof {
                    crate::ast::lemma_field_pats_index(fields@);
                    assert(binds_view(binds@) =~= Seq::empty());
                }
                while i < fields.len()
                    invariant
                        i <= fields.len(),
                        self.quiet(old(self)),
                        self.env() == env0,
                        st.t@ == vt,
                        find_last(env0.structs, name@) is Some,
                        info == find_last(env0.structs, name@)->0,
                        pattern@ == (SpecPattern::Struct { name: name@, fields: spec_field_pats(fields@) }),
                        spec_field_pats(fields@).len() == fields@.len(),
                        forall|j: int| 0 <= j < fields@.len() ==> #[trigger] spec_field_pats(fields@)[j] == (fields@[j].0@, fields@[j].1@),
                        info_fields@.len() == info.fields.len(),
                        forall|j: int| 0 <= j < info_fields@.len() ==> (#[trigger] info_fields@[j]).0@ == info.fields[j].0
                            && info_fields@[j].1@ == info.fields[j].1,
                        cond.t@ == pat_fields(env0, spec_field_pats(fields@), info.fields, vt, i as nat),
                        binds_view(binds@) == binds_fields(env0, spec_field_pats(fields@), info.fields, vt, i as nat),
                    decreases fields.len() - i,
                {
                    proof {
                        assert(decreases_to!(fields => fields@));
                        assert(decreases_to!(fields@ => fields@[i as int]));
                        assert(decreases_to!(fields@[i as int] => fields@[i as int].1));
                    }
                    let field_name = &fields[i].0;
                    // the last field of that name, as a map from names to slots keeps it
                    let mut k: usize = info_fields.len();
                    let mut slot: Option<usize> = None;
                    while k > 0 && slot.is_none()
                        invariant
                            k <= info_fields.len(),
                            slot matches Some(x) ==> x < info_fields.len(),
                            slot is None ==> last_slot(info.fields, field_name@, info.fields.len() as int) == last_slot(info.fields, field_name@, k as int),
                            slot matches Some(x) ==> last_slot(info.fields, field_name@, info.fields.len() as int) == Some(x as int),
                        decreases k,
                    {
                        if info_fields[k - 1].0 == *field_name {
                            slot = Some(k - 1);
                        }
                        k = k - 1;
                    }
                    let idx = match slot {
                        Some(x) => x,
                        None => {
                            proof {
                                lemma_pat_fields_has(env0, spec_field_pats(fields@), info.fields, i as nat, fields@.len());
                            }
                            return Err(msg3("unknown field '", field_name.as_str(), "'"));
                        },
                    };
                    let field_val = self.extract(&st, idx as u32, "sf")?;
                    let sub = self.codegen_pattern_cond(&fields[i].1, field_val, &info_fields[idx].1);
                    proof {
                        if sub is Err && self.faults() <= old(self).faults() {
                            lemma_pat_fields_has(env0, spec_field_pats(fields@), info.fields, i as nat, fields@.len());
                        }
                    }
                    let (c, mut b) = sub?;
                    cond = self.emit_and(cond, c, "m_and")?;
                    let ghost old_binds = binds@;
                    let ghost bb = b@;
                    binds.append(&mut b);
                    proof {
                        assert(binds_view(binds@) =~= binds_view(old_binds) + binds_view(bb));
                    }
                    i = i + 1;
                }
                Ok((cond, binds))
            },
        }
    }

    // ── Declarations ─────────────────────────────────────────────────────────

    /// The struct pass: records the fields of every struct, then declares an
    /// LLVM struct type for each and gives each its field types.
    #[verifier::loop_isolation(false)]
    fn collect_structs(&mut self, items: &[Item]) -> (r: Result<(), String>)
        ensures
            (final(self).env(), crate::codegen::cg_unit_view(r)) == crate::codegen::cg_structs_from(old(self).env(), crate::ast::spec_items(items@), 0),
    {
        self.tables.collect_structs(items)?;
        let ghost e = self.env();
        let ghost n0 = self.structs@.len();
        let mut i: usize = 0;
        while i < items.len()
            invariant
                i <= items.len(),
                self.env() == e,
                n0 <= self.structs@.len(),
                forall|j: int| 0 <= j < i && (#[trigger] items@[j]) is Struct ==>
                    exists|k: int| n0 <= k < self.structs@.len() && self.structs@[k].0@ == items@[j]->Struct_0.name@,
            decreases items.len() - i,
        {
            if let Item::Struct(def) = &items[i] {
                let st = llvm::opaque_struct_type(self.context, def.name.as_str());
                let ghost before = self.structs@;
                self.structs.push((def.name.clone(), st));
                proof {
                    assert(self.structs@[self.structs@.len() - 1].0@ == def.name@);
                    assert forall|j: int| 0 <= j < i + 1 && (#[trigger] items@[j]) is Struct implies
                        exists|k: int| n0 <= k < self.structs@.len() && self.structs@[k].0@ == items@[j]->Struct_0.name@ by {
                        if j < i {
                            let k = choose|k: int| n0 <= k < before.len() && before[k].0@ == items@[j]->Struct_0.name@;
                            assert(self.structs@[k] == before[k]);
                        } else {
                            assert(self.structs@[before.len() as int].0@ == items@[j]->Struct_0.name@);
                        }
                    }
                }
            }
            i = i + 1;
        }
        i = 0;
        while i < items.len()
            invariant
                i <= items.len(),
                self.env() == e,
                n0 <= self.structs@.len(),
                forall|j: int| 0 <= j < items.len() && (#[trigger] items@[j]) is Struct ==>
                    exists|k: int| n0 <= k < self.structs@.len() && self.structs@[k].0@ == items@[j]->Struct_0.name@,
            decreases items.len() - i,
        {
            if let Item::Struct(def) = &items[i] {
                proof {
                    assert(items@[i as int] is Struct);
                }
                let st = match find_named(&self.structs, &def.name) {
                    Some(s) => s,
                    None => {
                        return Err(msg3("missing struct '", def.name.as_str(), "'"));
                    },
                };
                let mut fts: Vec<BasicTypeEnum<'ctx>> = Vec::new();
                let mut j: usize = 0;
                while j < def.fields.len()
                    invariant
                        j <= def.fields.len(),
                    decreases def.fields.len() - j,
                {
                    let t = self.llvm_type(&def.fields[j].ty);
                    fts.push(t);
                    j = j + 1;
                }
                let _ = llvm::set_body(st, &fts);
            }
            i = i + 1;
        }
        Ok(())
    }

    /// Declares a function of the module with LLVM types for its parameters
    /// and result (`void` for `Void`).
    #[verifier::loop_isolation(false)]
    fn declare_function(&mut self, name: &String, params: &Vec<Param>, ret: &Type, self_type: Option<&String>)
        ensures
            final(self).env() == old(self).env(),
    {
        let mut param_types: Vec<BasicTypeEnum<'ctx>> = Vec::new();
        let mut i: usize = 0;
        while i < params.len()
            invariant
                i <= params.len(),
            decreases params.len() - i,
        {
            let t = self.llvm_type_with_self(&params[i].ty, self_type);
            param_types.push(t);
            i = i + 1;
        }
        let fn_type = match ret {
            Type::Void => llvm::void_fn_type(llvm::void_type(self.context), &param_types),
            _ => llvm::basic_fn_type(self.llvm_type_with_self(ret, self_type), &param_types),
        };
        let f = llvm::add_function(&self.module, name.as_str(), fn_type);
        self.functions.push((name.clone(), f));
    }

    /// Declares every function and method (methods as `Struct__method`).
    #[verifier::loop_isolation(false)]
    fn declare_functions(&mut self, items: &[Item])
        ensures
            final(self).env() == old(self).env(),
    {
        let mut i: usize = 0;
        while i < items.len()
            invariant
                i <= items.len(),
                self.env() == old(self).env(),
            decreases items.len() - i,
        {
            match &items[i] {
                Item::Fn(f) => {
                    self.declare_function(&f.name, &f.params, &f.ret, None);
                },
                Item::Impl(imp) => {
                    let mut j: usize = 0;
                    while j < imp.methods.len()
                        invariant
                            j <= imp.methods.len(),
                            self.env() == old(self).env(),
                        decreases imp.methods.len() - j,
                    {
                        let method = &imp.methods[j];
                        let mut name = imp.struct_name.clone();
                        name.append("__");
                        name.append(method.name.as_str());
                        self.declare_function(&name, &method.params, &method.ret, Some(&imp.struct_name));
                        j = j + 1;
                    }
                },
                Item::Struct(_) => {},
            }
            i = i + 1;
        }
    }

    /// Declares the runtime's functions.
    fn declare_runtime(&mut self)
        ensures
            final(self).env() == old(self).env(),
    {
        let i8ptr = self.byte_ptr_type();
        let i32t_int = llvm::i32_type(self.context);
        let i32t = llvm::int_type_basic(i32t_int);
        let i1t = llvm::int_type_basic(llvm::bool_type(self.context));
        let f64t = llvm::float_type_basic(llvm::double_type(self.context));
        let voidt = llvm::void_type(self.context);
        let m = &self.module;

        let mut p_str: Vec<BasicTypeEnum<'ctx>> = Vec::new();
        p_str.push(i8ptr);
        let p_none: Vec<BasicTypeEnum<'ctx>> = Vec::new();
        let mut p_i32: Vec<BasicTypeEnum<'ctx>> = Vec::new();
        p_i32.push(i32t);
        let mut p_str_str: Vec<BasicTypeEnum<'ctx>> = Vec::new();
        p_str_str.push(i8ptr);
        p_str_str.push(i8ptr);
        let mut p_f64: Vec<BasicTypeEnum<'ctx>> = Vec::new();
        p_f64.push(f64t);
        let mut p_str_i32: Vec<BasicTypeEnum<'ctx>> = Vec::new();
        p_str_i32.push(i8ptr);
        p_str_i32.push(i32t);
        let mut p_i32_i32: Vec<BasicTypeEnum<'ctx>> = Vec::new();
        p_i32_i32.push(i32t);
        p_i32_i32.push(i32t);
        let array_ptr = llvm::pointer_type_basic(llvm::ptr_type_of(llvm::struct_type_basic(self.array_ty)));
        let mut p_arr_bytes: Vec<BasicTypeEnum<'ctx>> = Vec::new();
        p_arr_bytes.push(array_ptr);
        p_arr_bytes.push(i8ptr);

        let _ = llvm::add_function(m, "pebbles_print_str", llvm::void_fn_type(voidt, &p_str));
        let _ = llvm::add_function(m, "pebbles_input", llvm::basic_fn_type(i8ptr, &p_none));
        let _ = llvm::add_function(m, "pebbles_len_str", llvm::basic_fn_type(i32t, &p_str));
        let _ = llvm::add_function(m, "pebbles_str_i32", llvm::basic_fn_type(i8ptr, &p_i32));
        let _ = llvm::add_function(m, "pebbles_str_concat", llvm::basic_fn_type(i8ptr, &p_str_str));
        let _ = llvm::add_function(m, "pebbles_str_eq", llvm::basic_fn_type(i1t, &p_str_str));
        let _ = llvm::add_function(m, "pebbles_int_str", llvm::basic_fn_type(i32t, &p_str));
        let _ = llvm::add_function(m, "pebbles_float_str", llvm::basic_fn_type(f64t, &p_str));
        let _ = llvm::add_function(m, "pebbles_sqrt_f64", llvm::basic_fn_type(f64t, &p_f64));
        let _ = llvm::add_function(m, "pebbles_str_index", llvm::basic_fn_type(i8ptr, &p_str_i32));
        let _ = llvm::add_function(m, "pebbles_array_new", llvm::basic_fn_type(llvm::struct_type_basic(self.array_ty), &p_i32_i32));
        let _ = llvm::add_function(m, "pebbles_array_push", llvm::void_fn_type(voidt, &p_arr_bytes));
        let _ = llvm::add_function(m, "pebbles_array_pop", llvm::basic_fn_type(i1t, &p_arr_bytes));
    }
}

/// The signature and struct tables are the same in both.
pub open spec fn keeps_tables(a: CgEnv, b: CgEnv) -> bool {
    a.sigs == b.sigs && a.structs == b.structs
}

/// The names of the built-in functions code generation calls through the runtime.
pub open spec fn builtin_call(name: Seq<char>) -> bool {
    ||| name == "print"@
    ||| name == "input"@
    ||| name == "len"@
    ||| name == "str"@
    ||| name == "int"@
    ||| name == "float"@
    ||| name == "sqrt"@
}

/// Wherever `name` has a recorded signature, its result is `ret`.
pub open spec fn recorded_ret_is(env: CgEnv, name: Seq<char>, ret: SpecType) -> bool {
    find_last(env.sigs, name) matches Some(s) ==> s.ret == ret
}

/// The tables agree with the calls code generation makes: a built-in's
/// recorded signature has the result of the runtime call made for it, and a
/// method recorded on a struct has its result under `Struct__method` too.
pub open spec fn calls_agree(env: CgEnv) -> bool {
    &&& recorded_ret_is(env, "print"@, SpecType::Void)
    &&& recorded_ret_is(env, "input"@, SpecType::Str)
    &&& recorded_ret_is(env, "len"@, SpecType::I32)
    &&& recorded_ret_is(env, "str"@, SpecType::Str)
    &&& recorded_ret_is(env, "int"@, SpecType::I32)
    &&& recorded_ret_is(env, "float"@, SpecType::F64)
    &&& recorded_ret_is(env, "sqrt"@, SpecType::F64)
    &&& forall|sn: Seq<char>, m: Seq<char>| #![trigger find_last(env.sigs, mangled(sn, m))]
        find_last(env.structs, sn) matches Some(info) ==> (find_last(info.methods, m) matches Some(s) ==> (
        find_last(env.sigs, mangled(sn, m)) matches Some(s2) && s2.ret == s.ret))
}

/// The element types of a list whose types all exist, one by one.
proof fn lemma_cg_types_ok(env: CgEnv, elems: Seq<SpecExpr>, i: int)
    requires
        0 <= i <= elems.len(),
        cg_types(env, elems, i) is Ok,
    ensures
        cg_types(env, elems, i)->Ok_0.len() == elems.len() - i,
        forall|j: int| i <= j < elems.len() ==> #[trigger] cg_type(env, elems[j]) == Ok::<SpecType, Seq<char>>(
            cg_types(env, elems, i)->Ok_0[j - i]),
    decreases elems.len() - i,
{
    if i < elems.len() {
        lemma_cg_types_ok(env, elems, i + 1);
        let ts = cg_types(env, elems, i + 1)->Ok_0;
        let t = cg_type(env, elems[i])->Ok_0;
        assert(cg_types(env, elems, i)->Ok_0 == seq![t] + ts);
        assert forall|j: int| i <= j < elems.len() implies #[trigger] cg_type(env, elems[j]) == Ok::<SpecType, Seq<char>>(
            cg_types(env, elems, i)->Ok_0[j - i]) by {
            if j > i {
                assert(cg_type(env, elems[j]) == Ok::<SpecType, Seq<char>>(ts[j - (i + 1)]));
            }
        }
    }
}

/// `t` is the type inference gives `e`, wherever inference gives one and
/// the tables agree with the calls.
pub open spec fn typed_as(env: CgEnv, e: SpecExpr, t: SpecType) -> bool {
    calls_agree(env) && cg_type(env, e) is Ok ==> t == cg_type(env, e)->Ok_0
}

/// The type of field `field` of the struct that inference gives `obj`.
pub open spec fn field_type_of(env: CgEnv, obj: SpecExpr, field: Seq<char>) -> Option<SpecType> {
    match cg_type(env, obj) {
        Ok(SpecType::Named(sn)) => match find_last(env.structs, sn) {
            Some(info) => find_first(info.fields, field),
            None => None,
        },
        _ => None,
    }
}

/// The type of what an array method gives on an array of `inner`.
pub open spec fn array_method_type(method: Seq<char>, inner: SpecType) -> SpecType {
    if method == "length"@ {
        SpecType::I32
    } else if method == "push"@ {
        SpecType::Void
    } else if method == "pop"@ {
        SpecType::Optional(Box::new(inner))
    } else {
        SpecType::Bool
    }
}

/// Only `str` among the built-ins is spelled `str`.
proof fn lemma_builtin_names()
    ensures
        "print"@ != "str"@,
        "input"@ != "str"@,
        "len"@ != "str"@,
        "int"@ != "str"@,
        "float"@ != "str"@,
        "sqrt"@ != "str"@,
        "print"@.len() == 5 && "print"@[0] == 'p',
        "input"@.len() == 5 && "input"@[0] == 'i',
        "len"@.len() == 3 && "len"@[0] == 'l',
        "str"@.len() == 3 && "str"@[0] == 's',
        "int"@.len() == 3 && "int"@[0] == 'i',
        "float"@.len() == 5 && "float"@[0] == 'f',
        "sqrt"@.len() == 4 && "sqrt"@[0] == 's',
{
    reveal_strlit("print");
    reveal_strlit("input");
    reveal_strlit("len");
    reveal_strlit("str");
    reveal_strlit("int");
    reveal_strlit("float");
    reveal_strlit("sqrt");
    assert("print"@.len() == 5 && "print"@[0] == 'p');
    assert("input"@.len() == 5 && "input"@[0] == 'i');
    assert("len"@.len() == 3 && "len"@[0] == 'l');
    assert("str"@.len() == 3 && "str"@[0] == 's');
    assert("int"@.len() == 3 && "int"@[0] == 'i');
    assert("float"@.len() == 5 && "float"@[0] == 'f');
    assert("sqrt"@.len() == 4 && "sqrt"@[0] == 's');
}

/// A call of a built-in has the type the tables record for it.
proof fn lemma_builtin_call_type(env: CgEnv, e: SpecExpr, ret: SpecType)
    requires
        e is Call,
        cg_type(env, e) is Ok,
        recorded_ret_is(env, e->Call_name, ret),
        e->Call_name != "str"@ || ret == SpecType::Str,
    ensures
        cg_type(env, e)->Ok_0 == ret,
{
}

/// `log` ends with the operations `ops`.
pub open spec fn ends_with(log: Seq<Op>, ops: Seq<Op>) -> bool {
    log.len() >= ops.len() && log.subrange(log.len() - ops.len(), log.len() as int) == ops
}

proof fn lemma_ends_with_concat(log: Seq<Op>, ops: Seq<Op>)
    ensures
        forall|pre: Seq<Op>| log == pre + ops ==> ends_with(log, ops),
{
    assert forall|pre: Seq<Op>| log == pre + ops implies ends_with(log, ops) by {
        assert(log.subrange(log.len() - ops.len(), log.len() as int) =~= ops);
    }
}

/// Leaving a scope entered on top of `before` gives `before` back.
proof fn lemma_pop_restores(before: CgEnv, inside: CgEnv)
    requires
        keeps_tables(before, inside),
        inside.type_scopes.len() == before.type_scopes.len() + 1,
        forall|i: int| 0 <= i < before.type_scopes.len() ==> #[trigger] inside.type_scopes[i] == before.type_scopes[i],
    ensures
        (CgEnv { type_scopes: inside.type_scopes.drop_last(), ..inside }) == before,
{
    assert(inside.type_scopes.drop_last() =~= before.type_scopes);
}

fn text_of(s: &str) -> (r: String)
    ensures
        r@ == s@,
{
    String::from_str(s)
}

impl<'ctx> Codegen<'ctx> {
    // ── Copies out of the tables ─────────────────────────────────────────────

    /// A copy of the fields recorded for struct `name`.
    fn struct_fields_of(&self, name: &String) -> (r: Option<Vec<(String, Type)>>)
        ensures
            r is None <==> find_last(self.env().structs, name@) is None,
            r matches Some(f) ==> (f@.len() == find_last(self.env().structs, name@)->0.fields.len()
                && forall|j: int| 0 <= j < f@.len() ==> (#[trigger] f@[j]).0@ == find_last(self.env().structs, name@)->0.fields[j].0
                    && f@[j].1@ == find_last(self.env().structs, name@)->0.fields[j].1),
    {
        match self.tables.struct_info(name) {
            None => None,
            Some(info) => {
                let mut out: Vec<(String, Type)> = Vec::new();
                let mut i: usize = 0;
                while i < info.fields.len()
                    invariant
                        i <= info.fields.len(),
                        out@.len() == i,
                        forall|j: int| 0 <= j < i ==> (#[trigger] out@[j]).0@ == info.fields@[j].0@ && out@[j].1@ == info.fields@[j].1@,
                    decreases info.fields.len() - i,
                {
                    out.push((info.fields[i].0.clone(), info.fields[i].1.clone()));
                    i = i + 1;
                }
                Some(out)
            },
        }
    }

    /// A copy of the signature recorded under `name`: parameter types and result.
    fn sig_of(&self, name: &String) -> (r: Option<(Vec<Type>, Type)>)
        ensures
            r is None <==> find_last(self.env().sigs, name@) is None,
            r matches Some(p) ==> p.1@ == find_last(self.env().sigs, name@)->0.ret,
    {
        match self.tables.sig(name) {
            None => None,
            Some(sig) => {
                let mut params: Vec<Type> = Vec::new();
                let mut i: usize = 0;
                while i < sig.params.len()
                    invariant
                        i <= sig.params.len(),
                    decreases sig.params.len() - i,
                {
                    params.push(sig.params[i].clone());
                    i = i + 1;
                }
                Some((params, sig.ret.clone()))
            },
        }
    }

    fn current_block(&self) -> Result<BasicBlock<'ctx>, String> {
        need(llvm::insert_block(&self.builder), "builder has no insertion block")
    }

    /// Branches to `target` unless the current block already ends in a terminator.
    fn branch_if_open(&self, target: BasicBlock<'ctx>) -> Result<(), String> {
        let blk = self.current_block()?;
        if llvm::terminator(blk).is_none() {
            bx(llvm::build_unconditional_branch(&self.builder, target))?;
        }
        Ok(())
    }

    /// A call of the runtime function `name`.
    fn call_runtime(&mut self, name: &str, missing: &str, args: &Vec<BasicValueEnum<'ctx>>, call_name: &str) -> (r: Result<Option<BasicValueEnum<'ctx>>, String>)
        ensures
            final(self).quiet(old(self)),
            r is Err ==> final(self).faults() > old(self).faults(),
            r is Ok ==> final(self).log() == old(self).log().push(Op::Call(name@)),
    {
        let f = self.lneed(llvm::get_function(&self.module, name), missing)?;
        let v = self.lx(llvm::build_call(&self.builder, f, args, call_name))?;
        self.log = Ghost(self.log@.push(Op::Call(name@)));
        Ok(v)
    }

    fn byte_ptr(&self) -> inkwell::types::PointerType<'ctx> {
        llvm::ptr_type_of(llvm::int_type_basic(llvm::i8_type(self.context)))
    }

    // ── Functions ────────────────────────────────────────────────────────────

    /// The body of a function or method (`Struct__method`): its parameters
    /// copied into stack slots, its statements, the value of a final
    /// expression returned where the function has a result, and `ret void`
    /// where a `Void` function falls off its end.
    #[verifier::loop_isolation(false)]
    fn codegen_fn(&mut self, f: &FnDef, self_type: Option<&String>) -> (r: Result<(), String>)
        ensures
            keeps_tables(old(self).env(), final(self).env()),
            r is Ok ==> final(self).restores(old(self)),
            (r is Ok && !(f.ret@ is Void) && f.body@.len() > 0 && f.body@.last()@ is Expr) ==> (
                final(self).log().len() > 0 && final(self).log().last() is Ret
                && exists|env: CgEnv| final(self).log().last() == Op::Ret(#[trigger] expr_term(env, f.body@.last()@->Expr_0))),
    {
        let name = match self_type {
            Some(t) => {
                let mut n = t.clone();
                n.append("__");
                n.append(f.name.as_str());
                n
            },
            None => f.name.clone(),
        };
        let func = match self.function_named(&name) {
            Some(x) => x,
            None => {
                return Err(msg3("missing function '", name.as_str(), "'"));
            },
        };
        let entry = llvm::append_basic_block(self.context, func, "entry");
        llvm::position_at_end(&self.builder, entry);
        self.current_fn = Some(func);
        self.current_ret = Some(f.ret.clone());
        self.push_scope();
        let mut idx: usize = 0;
        while idx < f.params.len()
            invariant
                idx <= f.params.len(),
                keeps_tables(old(self).env(), self.env()),
                self.one_scope_in(old(self)),
            decreases f.params.len() - idx,
        {
            let param = &f.params[idx];
            let llvm_param = match llvm::nth_param(func, idx as u32) {
                Some(p) => p,
                None => {
                    let mut m = text_of("missing param ");
                    m.append(usize_text(idx).as_str());
                    m.append(" in '");
                    m.append(name.as_str());
                    m.append("'");
                    return Err(m);
                },
            };
            let param_ty = if matches!(param.ty, Type::SelfType) {
                Type::Named(
                    match self_type {
                        Some(s) => s.clone(),
                        None => text_of("self"),
                    },
                )
            } else {
                param.ty.clone()
            };
            let alloca = self.create_entry_alloca(param.name.as_str(), &param_ty)?;
            bx(llvm::build_store(&self.builder, alloca, llvm_param))?;
            self.bind_var(&param.name, param_ty, alloca);
            idx = idx + 1;
        }
        let mut i: usize = 0;
        while i < f.body.len()
            invariant
                i <= f.body.len(),
                keeps_tables(old(self).env(), self.env()),
                self.one_scope_in(old(self)),
                (i == f.body.len() && i > 0 && !(f.ret@ is Void) && f.body@.last()@ is Expr) ==> (
                    self.log().len() > 0 && self.log().last() is Ret
                    && exists|env: CgEnv| self.log().last() == Op::Ret(#[trigger] expr_term(env, f.body@.last()@->Expr_0))),
            decreases f.body.len() - i,
        {
            let tail_value = i + 1 == f.body.len() && !matches!(f.ret, Type::Void);
            match &f.body[i] {
                Stmt::Expr(e) if tail_value => {
                    // the last expression of a function with a result is its return value
                    let ghost env_here = self.env();
                    let v = self.codegen_expr(e, Some(&f.ret))?;
                    let ghost vt = v.t@;
                    let wrapped = self.wrap_optional(&f.ret, v)?;
                    let rv = need(wrapped, "return expects value")?;
                    bx(llvm::build_return(&self.builder, Some(rv)))?;
                    self.log = Ghost(self.log@.push(Op::Ret(vt)));
                    proof {
                        assert(vt == expr_term(env_here, e@));
                        assert(f.body@.last() == f.body@[i as int]);
                        assert(f.body@.last()@->Expr_0 == e@);
                        assert(self.log().last() == Op::Ret(expr_term(env_here, f.body@.last()@->Expr_0)));
                    }
                },
                stmt => {
                    self.codegen_stmt(stmt)?;
                },
            }
            i = i + 1;
        }
        match llvm::insert_block(&self.builder) {
            Some(block) => {
                if llvm::terminator(block).is_none() {
                    match &f.ret {
                        Type::Void => {
                            bx(llvm::build_return(&self.builder, None))?;
                        },
                        _ => {
                            return Err(msg3("missing return in function '", name.as_str(), "'"));
                        },
                    }
                }
            },
            None => {},
        }
        let ghost inside = self.env();
        self.pop_scope();
        proof {
            lemma_pop_restores(old(self).env(), inside);
        }
        self.current_fn = None;
        self.current_ret = None;
        Ok(())
    }

    /// A value stored where a value of type `target` is expected: a value that
    /// is not optional becomes a present optional when `target` is one.
    fn wrap_optional(&mut self, target: &Type, val: CgValue<'ctx>) -> (r: Result<Option<BasicValueEnum<'ctx>>, String>)
        ensures
            final(self).restores(old(self)),
    {
        let CgValue { value, ty, .. } = val;
        if matches!(target, Type::Optional(_)) && !matches!(ty, Type::Optional(_)) {
            let v = need(value, "optional expects value")?;
            let st = self.llvm_struct_type(target)?;
            let flag = self.emit_const_bool(true);
            let mut cur = insert_field(&self.builder, llvm::struct_undef(st), llvm::int_basic(flag.v), 0, "some")?;
            cur = insert_field(&self.builder, cur, v, 1, "some_val")?;
            Ok(Some(llvm::struct_basic(cur)))
        } else {
            Ok(value)
        }
    }

    // ── Statements and blocks ────────────────────────────────────────────────

    #[verifier::loop_isolation(false)]
    fn codegen_stmt(&mut self, stmt: &Stmt) -> (r: Result<(), String>)
        ensures
            keeps_tables(old(self).env(), final(self).env()),
            r is Ok ==> final(self).keeps_outer(old(self)),
            (stmt is Break && old(self).break_stack@.len() == 0) ==> (r is Err && r->Err_0@ == "break outside loop"@),
            (stmt is Continue && old(self).continue_stack@.len() == 0) ==> (r is Err && r->Err_0@ == "continue outside loop"@),
        decreases stmt, 2int,
    {
        match stmt {
            Stmt::Let { name, ty, value, .. } => {
                let inferred: Option<Type> = match ty {
                    None => Some(self.tables.infer_expr_type(value)?),
                    Some(_) => None,
                };
                let rhs = match ty {
                    Some(t) => self.codegen_expr(value, Some(t))?,
                    None => match &inferred {
                        Some(t) => self.codegen_expr(value, Some(t))?,
                        None => self.codegen_expr(value, None)?,
                    },
                };
                let (rv, rt) = match ty {
                    Some(t) => {
                        let v = self.wrap_optional(t, rhs)?;
                        (v, t.clone())
                    },
                    None => (rhs.value, rhs.ty),
                };
                let var_ty = match ty {
                    Some(t) => t.clone(),
                    None => match inferred {
                        Some(t) => t,
                        None => rt,
                    },
                };
                let alloca = self.create_entry_alloca(name.as_str(), &var_ty)?;
                match rv {
                    Some(val) => {
                        bx(llvm::build_store(&self.builder, alloca, val))?;
                    },
                    None => {},
                }
                self.bind_var(name, var_ty, alloca);
                Ok(())
            },
            Stmt::Assign { target, value, .. } => {
                let (ptr, target_ty) = self.codegen_assign_target(target)?;
                let rhs = self.codegen_expr(value, Some(&target_ty))?;
                let wrapped = self.wrap_optional(&target_ty, rhs)?;
                let val = need(wrapped, "assignment expects value")?;
                bx(llvm::build_store(&self.builder, ptr, val))?;
                Ok(())
            },
            Stmt::Return { value, .. } => {
                let ret_ty = match &self.current_ret {
                    Some(t) => t.clone(),
                    None => Type::Void,
                };
                match value {
                    Some(e) => {
                        let v = self.codegen_expr(e, Some(&ret_ty))?;
                        let wrapped = self.wrap_optional(&ret_ty, v)?;
                        let rv = need(wrapped, "return expects value")?;
                        bx(llvm::build_return(&self.builder, Some(rv)))?;
                        Ok(())
                    },
                    None => {
                        bx(llvm::build_return(&self.builder, None))?;
                        Ok(())
                    },
                }
            },
            Stmt::Expr(e) => {
                let _ = self.codegen_expr(e, None)?;
                Ok(())
            },
            Stmt::While { .. } => self.codegen_while(stmt),
            Stmt::For { .. } => self.codegen_for(stmt),
            Stmt::Break { .. } => {
                let n = self.break_stack.len();
                if n == 0 {
                    return Err(text_of("break outside loop"));
                }
                let target = self.break_stack[n - 1];
                bx(llvm::build_unconditional_branch(&self.builder, target))?;
                Ok(())
            },
            Stmt::Continue { .. } => {
                let n = self.continue_stack.len();
                if n == 0 {
                    return Err(text_of("continue outside loop"));
                }
                let target = self.continue_stack[n - 1];
                bx(llvm::build_unconditional_branch(&self.builder, target))?;
                Ok(())
            },
        }
    }

    /// A block in a scope of its own; when a value is expected, a final
    /// expression statement gives it. Statements after one that ends the
    /// current LLVM block (a return, break or continue) are not generated.
    #[verifier::loop_isolation(false)]
    fn codegen_block(&mut self, stmts: &Vec<Stmt>, expected: Option<&Type>) -> (r: Result<Option<BasicValueEnum<'ctx>>, String>)
        ensures
            keeps_tables(old(self).env(), final(self).env()),
            r is Ok ==> final(self).restores(old(self)),
        decreases stmts, 3int,
    {
        self.push_scope();
        let mut result: Option<BasicValueEnum<'ctx>> = None;
        let has_exp = match expected {
            Some(t) => !matches!(*t, Type::Void),
            None => false,
        };
        let mut done = false;
        let mut idx: usize = 0;
        while idx < stmts.len() && !done
            invariant
                idx <= stmts.len(),
                keeps_tables(old(self).env(), self.env()),
                self.one_scope_in(old(self)),
            decreases stmts.len() - idx,
        {
            proof {
                assert(decreases_to!(stmts => stmts@));
                assert(decreases_to!(stmts@ => stmts@[idx as int]));
            }
            let last = idx + 1 == stmts.len();
            let mut handled = false;
            if last && has_exp {
                if let Stmt::Expr(e) = &stmts[idx] {
                    let v = self.codegen_expr(e, expected)?;
                    result = v.value;
                    handled = true;
                }
            }
            if !handled {
                self.codegen_stmt(&stmts[idx])?;
                match llvm::insert_block(&self.builder) {
                    Some(block) => {
                        if llvm::terminator(block).is_some() {
                            done = true;
                        }
                    },
                    None => {},
                }
            }
            idx = idx + 1;
        }
        let ghost inside = self.env();
        self.pop_scope();
        proof {
            lemma_pop_restores(old(self).env(), inside);
        }
        Ok(result)
    }

    #[verifier::loop_isolation(false)]
    fn codegen_while(&mut self, stmt: &Stmt) -> (r: Result<(), String>)
        requires
            stmt is While,
        ensures
            keeps_tables(old(self).env(), final(self).env()),
            r is Ok ==> final(self).restores(old(self)),
        decreases stmt, 1int,
    {
        match stmt {
            Stmt::While { cond, body, .. } => {
                let func = need(self.current_fn, "while outside function")?;
                let cond_bb = llvm::append_basic_block(self.context, func, "while.cond");
                let body_bb = llvm::append_basic_block(self.context, func, "while.body");
                let end_bb = llvm::append_basic_block(self.context, func, "while.end");

                bx(llvm::build_unconditional_branch(&self.builder, cond_bb))?;
                llvm::position_at_end(&self.builder, cond_bb);
                let cond_val = self.codegen_expr(cond, Some(&Type::Bool))?;
                let cond_v = int_of(need(cond_val.value, "while condition expects value")?)?;
                bx(llvm::build_conditional_branch(&self.builder, cond_v, body_bb, end_bb))?;

                llvm::position_at_end(&self.builder, body_bb);
                self.break_stack.push(end_bb);
                self.continue_stack.push(cond_bb);
                self.codegen_block(body, None)?;
                let _ = self.break_stack.pop();
                let _ = self.continue_stack.pop();
                proof {
                    assert(self.break_stack@ =~= old(self).break_stack@);
                    assert(self.continue_stack@ =~= old(self).continue_stack@);
                }
                self.branch_if_open(cond_bb)?;

                llvm::position_at_end(&self.builder, end_bb);
                Ok(())
            },
            _ => Err(text_of("expected a while loop")),
        }
    }

    /// A `for` loop over a range (a counter from start up to end, the end
    /// included when the range is inclusive) or over the elements of an array.
    #[verifier::loop_isolation(false)]
    fn codegen_for(&mut self, stmt: &Stmt) -> (r: Result<(), String>)
        requires
            stmt is For,
        ensures
            keeps_tables(old(self).env(), final(self).env()),
            r is Ok ==> final(self).restores(old(self)),
            cg_type(old(self).env(), stmt->For_iter@) matches Ok(t) ==> (!(t is Range) && !(t is Array)
                ==> (r is Err && r->Err_0@ == "for loop only supports range or array"@)),
            (r is Ok && cg_type(old(self).env(), stmt->For_iter@) == Ok::<SpecType, Seq<char>>(SpecType::Range))
                ==> final(self).log().last() == range_loop(stmt->For_var@, expr_term(old(self).env(), stmt->For_iter@)),
            (r is Ok && cg_type(old(self).env(), stmt->For_iter@) is Ok && cg_type(old(self).env(), stmt->For_iter@)->Ok_0 is Array)
                ==> final(self).log().last() == array_loop(stmt->For_var@, expr_term(old(self).env(), stmt->For_iter@)),
        decreases stmt, 1int,
    {
        match stmt {
            Stmt::For { var, iter, body, .. } => {
                let iter_ty = self.tables.infer_expr_type(iter)?;
                if !matches!(iter_ty, Type::Range) && !matches!(iter_ty, Type::Array(_)) {
                    return Err(text_of("for loop only supports range or array"));
                }
                let func = need(self.current_fn, "for outside function")?;
                if matches!(iter_ty, Type::Range) {
                    let range_val = self.codegen_expr(iter, Some(&Type::Range))?;
                    let range = self.struct_t(Traced { v: need(range_val.value, "for range expects value")?, t: range_val.t })?;
                    let start_raw = self.extract(&range, 0, "start")?;
                    let start = self.int_t(start_raw)?;
                    let end_raw = self.extract(&range, 1, "end")?;
                    let end = self.int_t(end_raw)?;
                    let inclusive_raw = self.extract(&range, 2, "incl")?;
                    let inclusive = self.int_t(inclusive_raw)?;

                    let idx_alloca = self.create_entry_alloca(var.as_str(), &Type::I32)?;
                    bx(llvm::build_store(&self.builder, idx_alloca, llvm::int_basic(start.v)))?;
                    self.push_scope();
                    self.bind_var(var, Type::I32, idx_alloca);

                    let cond_bb = llvm::append_basic_block(self.context, func, "for.cond");
                    let body_bb = llvm::append_basic_block(self.context, func, "for.body");
                    let incr_bb = llvm::append_basic_block(self.context, func, "for.incr");
                    let end_bb = llvm::append_basic_block(self.context, func, "for.end");

                    bx(llvm::build_unconditional_branch(&self.builder, cond_bb))?;
                    llvm::position_at_end(&self.builder, cond_bb);
                    let cur = Traced { v: int_of(bx(llvm::build_load(&self.builder, idx_alloca, "i"))?)?, t: Ghost(Term::Var(var@)) };
                    let at_most = self.emit_int_compare(IntRel::Sle, cur, end, "cmple")?;
                    let below = self.emit_int_compare(IntRel::Slt, cur, end, "cmplt")?;
                    let go_on = self.select_tr(inclusive, at_most, below, "cmp")?;
                    bx(llvm::build_conditional_branch(&self.builder, go_on.v, body_bb, end_bb))?;

                    llvm::position_at_end(&self.builder, body_bb);
                    self.break_stack.push(end_bb);
                    self.continue_stack.push(incr_bb);
                    self.codegen_block(body, None)?;
                    let _ = self.break_stack.pop();
                    let _ = self.continue_stack.pop();
                    proof {
                        assert(self.break_stack@ =~= old(self).break_stack@);
                        assert(self.continue_stack@ =~= old(self).continue_stack@);
                    }
                    self.branch_if_open(incr_bb)?;

                    llvm::position_at_end(&self.builder, incr_bb);
                    let cur2 = Traced { v: int_of(bx(llvm::build_load(&self.builder, idx_alloca, "i"))?)?, t: Ghost(Term::Var(var@)) };
                    let one = self.i32_tr(1);
                    let next = self.emit_int_arith(BinOp::Add, cur2, one)?;
                    bx(llvm::build_store(&self.builder, idx_alloca, llvm::int_basic(next.v)))?;
                    bx(llvm::build_unconditional_branch(&self.builder, cond_bb))?;

                    llvm::position_at_end(&self.builder, end_bb);
                    let ghost inside = self.env();
                    self.pop_scope();
                    proof {
                        lemma_pop_restores(old(self).env(), inside);
                    }
                    self.log = Ghost(self.log@.push(Op::CountLoop { var: var@, start: start.t@, test: go_on.t@, step: next.t@ }));
                    return Ok(());
                }
                let elem_ty = match iter_ty {
                    Type::Array(inner) => *inner,
                    _ => {
                        return Err(text_of("for loop only supports range or array"));
                    },
                };
                let arr_ty = Type::Array(Box::new(elem_ty.clone()));
                let arr_val = self.codegen_expr(iter, Some(&arr_ty))?;
                let ghost arr_t = arr_val.t@;
                let arr = need(arr_val.value, "for array expects value")?;
                let arr_alloca = self.create_entry_alloca("arr", &arr_ty)?;
                bx(llvm::build_store(&self.builder, arr_alloca, arr))?;

                let idx_alloca = self.create_entry_alloca("i", &Type::I32)?;
                bx(llvm::build_store(&self.builder, idx_alloca, llvm::int_basic(self.i32_const(0, false))))?;
                self.push_scope();
                let var_alloca = self.create_entry_alloca(var.as_str(), &elem_ty)?;
                self.bind_var(var, elem_ty.clone(), var_alloca);

                let cond_bb = llvm::append_basic_block(self.context, func, "for.cond");
                let body_bb = llvm::append_basic_block(self.context, func, "for.body");
                let incr_bb = llvm::append_basic_block(self.context, func, "for.incr");
                let end_bb = llvm::append_basic_block(self.context, func, "for.end");

                bx(llvm::build_unconditional_branch(&self.builder, cond_bb))?;
                llvm::position_at_end(&self.builder, cond_bb);
                let cur = Traced { v: int_of(bx(llvm::build_load(&self.builder, idx_alloca, "i"))?)?, t: Ghost(Term::LoopIndex) };
                let arr_loaded = bx(llvm::build_load(&self.builder, arr_alloca, "arr"))?;
                let len = Traced { v: self.array_len_from_value(arr_loaded)?, t: Ghost(Term::Len(Box::new(arr_t))) };
                let below = self.emit_int_compare(IntRel::Slt, cur, len, "cmplt")?;
                bx(llvm::build_conditional_branch(&self.builder, below.v, body_bb, end_bb))?;

                llvm::position_at_end(&self.builder, body_bb);
                let elem_ptr = self.array_elem_ptr_from_value(arr_loaded, cur.v, &elem_ty)?;
                let elem_val = bx(llvm::build_load(&self.builder, elem_ptr, "elem"))?;
                bx(llvm::build_store(&self.builder, var_alloca, elem_val))?;
                self.break_stack.push(end_bb);
                self.continue_stack.push(incr_bb);
                self.codegen_block(body, None)?;
                let _ = self.break_stack.pop();
                let _ = self.continue_stack.pop();
                proof {
                    assert(self.break_stack@ =~= old(self).break_stack@);
                    assert(self.continue_stack@ =~= old(self).continue_stack@);
                }
                self.branch_if_open(incr_bb)?;

                llvm::position_at_end(&self.builder, incr_bb);
                let one = self.i32_tr(1);
                let next = self.emit_int_arith(BinOp::Add, cur, one)?;
                bx(llvm::build_store(&self.builder, idx_alloca, llvm::int_basic(next.v)))?;
                bx(llvm::build_unconditional_branch(&self.builder, cond_bb))?;

                llvm::position_at_end(&self.builder, end_bb);
                let ghost inside = self.env();
                self.pop_scope();
                proof {
                    lemma_pop_restores(old(self).env(), inside);
                }
                self.log = Ghost(self.log@.push(Op::EachLoop {
                    var: var@,
                    start: Term::Int(0),
                    test: below.t@,
                    elem: Term::Elem(Box::new(arr_t), Box::new(Term::LoopIndex)),
                    step: next.t@,
                }));
                Ok(())
            },
            _ => Err(text_of("expected a for loop")),
        }
    }

    // ── Places ───────────────────────────────────────────────────────────────

    /// The slot an assignment writes and the type it holds.
    #[verifier::loop_isolation(false)]
    fn codegen_assign_target(&mut self, target: &AssignTarget) -> (r: Result<(PointerValue<'ctx>, Type), String>)
        ensures
            keeps_tables(old(self).env(), final(self).env()),
            r is Ok ==> final(self).restores(old(self)),
            target is Index ==> (cg_type(old(self).env(), target->Index_obj@) matches Ok(t) ==> (!(t is Array)
                ==> (r is Err && r->Err_0@ == "index assignment only supports arrays"@))),
        decreases target, 0int,
    {
        match target {
            AssignTarget::Ident(name, _) => {
                let ptr = self.lookup_var(name)?;
                let ty = self.tables.lookup_var_type(name)?;
                Ok((ptr, ty))
            },
            AssignTarget::Field { obj, field, .. } => self.codegen_field_ptr(obj, field),
            AssignTarget::Index { obj, index, .. } => {
                let obj_ty = self.tables.infer_expr_type(obj)?;
                let elem_ty = match obj_ty {
                    Type::Array(inner) => *inner,
                    _ => {
                        return Err(text_of("index assignment only supports arrays"));
                    },
                };
                let arr_ptr = match &**obj {
                    Expr::Ident(name, _) => self.lookup_var(name)?,
                    _ => {
                        return Err(text_of("index assignment requires array variable"));
                    },
                };
                let arr_val = bx(llvm::build_load(&self.builder, arr_ptr, "arr"))?;
                let idx = self.codegen_expr(index, Some(&Type::I32))?;
                let idx_val = int_of(need(idx.value, "index expects value")?)?;
                let elem_ptr = self.array_elem_ptr_from_value(arr_val, idx_val, &elem_ty)?;
                Ok((elem_ptr, elem_ty))
            },
        }
    }

    /// A pointer to field `field` of the struct `obj` denotes.
    fn codegen_field_ptr(&mut self, obj: &Expr, field: &String) -> (r: Result<(PointerValue<'ctx>, Type), String>)
        ensures
            keeps_tables(old(self).env(), final(self).env()),
            r is Ok ==> final(self).restores(old(self)),
            r is Ok ==> field_type_of(old(self).env(), obj@, field@) == Some(r->Ok_0.1@),
            cg_type(old(self).env(), obj@) matches Ok(t) ==> (!(t is Named)
                ==> (r is Err && r->Err_0@ == "field access on non-struct"@)),
        decreases obj, 7int,
    {
        let obj_ty = self.tables.infer_expr_type(obj)?;
        let struct_name = match obj_ty {
            Type::Named(n) => n,
            _ => {
                return Err(text_of("field access on non-struct"));
            },
        };
        if self.tables.struct_info(&struct_name).is_none() {
            return Err(msg3("unknown struct '", struct_name.as_str(), "'"));
        }
        if find_named(&self.structs, &struct_name).is_none() {
            return Err(msg3("missing struct '", struct_name.as_str(), "'"));
        }
        let (field_idx, field_ty) = match self.tables.field_slot(&struct_name, field) {
            Some(p) => p,
            None => {
                return Err(msg3("unknown field '", field.as_str(), "'"));
            },
        };
        let base_ptr = self.codegen_lvalue(obj)?;
        let field_ptr = bx(llvm::build_struct_gep(&self.builder, base_ptr, field_idx as u32, "fieldptr"))?;
        Ok((field_ptr, field_ty))
    }

    /// A pointer to where the value of `expr` lives: a variable's slot, a
    /// field's place, or a fresh slot holding the value.
    fn codegen_lvalue(&mut self, expr: &Expr) -> (r: Result<PointerValue<'ctx>, String>)
        ensures
            keeps_tables(old(self).env(), final(self).env()),
            r is Ok ==> final(self).restores(old(self)),
        decreases expr, 6int,
    {
        match expr {
            Expr::Ident(name, _) => self.lookup_var(name),
            Expr::FieldAccess { obj, field, .. } => {
                let (ptr, _) = self.codegen_field_ptr(obj, field)?;
                Ok(ptr)
            },
            _ => {
                let val = self.codegen_expr(expr, None)?;
                let CgValue { value, ty, .. } = val;
                let v = need(value, "lvalue expects value")?;
                let alloca = self.create_entry_alloca("tmp", &ty)?;
                bx(llvm::build_store(&self.builder, alloca, v))?;
                Ok(alloca)
            },
        }
    }
}

impl<'ctx> Codegen<'ctx> {
    // ── Expressions ──────────────────────────────────────────────────────────

    /// The value of an expression; `expected` is the type the context wants,
    /// which `none`, empty arrays, `if` and `match` take as theirs. Where no
    /// type is expected, the value has the type `infer_expr_type` gives the
    /// expression (when the tables agree with the calls made for built-ins and
    /// methods).
    #[verifier::loop_isolation(false)]
    fn codegen_expr(&mut self, expr: &Expr, expected: Option<&Type>) -> (r: Result<CgValue<'ctx>, String>)
        ensures
            keeps_tables(old(self).env(), final(self).env()),
            r is Ok ==> final(self).restores(old(self)),
            (r is Ok && expected is None) ==> typed_as(old(self).env(), expr@, r->Ok_0.ty@),
            (expr is NoneLit && (match expected {
                Some(t) => !((*t) is Optional),
                None => true,
            })) ==> (r is Err && r->Err_0@ == "none requires optional type"@),
            (expr is Call && !builtin_call(expr->Call_name@) && find_last(old(self).env().sigs, expr->Call_name@) is None)
                ==> (r is Err && r->Err_0@ == "unknown function '"@ + expr->Call_name@ + "'"@),
            expr is Index ==> (cg_type(old(self).env(), expr->Index_obj@) matches Ok(t) ==> (!(t is Array) && !(t is Str)
                ==> (r is Err && r->Err_0@ == "indexing not supported"@))),
            expr is MethodCall ==> (cg_type(old(self).env(), expr->MethodCall_obj@) matches Ok(t) ==> (!(t is Array) && !(t is Named)
                ==> (r is Err && r->Err_0@ == "method call on non-struct"@))),
            r is Ok ==> (match expr@ {
                SpecExpr::Int(n, _) => final(self).log() == old(self).log().push(Op::ConstInt(n)),
                SpecExpr::Float(t, _) => final(self).log() == old(self).log().push(Op::ConstFloat(t)),
                SpecExpr::Bool(b, _) => final(self).log() == old(self).log().push(Op::ConstBool(b)),
                SpecExpr::Str(t, _) => final(self).log() == old(self).log().push(Op::ConstStr(t)),
                SpecExpr::NoneLit(_) => final(self).log() == old(self).log().push(Op::MakeNone) && r->Ok_0.ty@ is Optional,
                SpecExpr::BinOp { op, left, .. } => cg_type(old(self).env(), *left) is Ok
                    && (!(binop_plan_of(op, cg_type(old(self).env(), *left)->Ok_0) is StructuralEq)
                    ==> ends_with(final(self).log(), plan_ops(binop_plan_of(op, cg_type(old(self).env(), *left)->Ok_0)))),
                SpecExpr::UnaryOp { op, operand, .. } => final(self).log().len() > 0 && final(self).log().last() == (
                    match op {
                        UnaryOp::Not => Op::Not,
                        UnaryOp::Neg => if cg_type(old(self).env(), *operand) == Ok::<SpecType, Seq<char>>(SpecType::F64) {
                            Op::FloatNeg
                        } else {
                            Op::IntNeg
                        },
                    }),
                SpecExpr::Cast { expr: inner, ty, .. } => cg_type(old(self).env(), *inner) is Ok
                    && cast_plan_of(cg_type(old(self).env(), *inner)->Ok_0, ty) is Some
                    && final(self).log().len() > 0
                    && final(self).log().last() == Op::Cast(cast_plan_of(cg_type(old(self).env(), *inner)->Ok_0, ty)->0),
                _ => true,
            }),
            (expr is NoneLit && r is Ok) ==> (expected matches Some(t) ==> r->Ok_0.ty@ == t@),
            r is Ok ==> r->Ok_0.t@ == expr_term(old(self).env(), expr@),
            expr@ is Int ==> (r is Ok && r->Ok_0.ty@ == SpecType::I32),
            expr@ is Float ==> (r is Ok && r->Ok_0.ty@ == SpecType::F64),
            expr@ is Bool ==> (r is Ok && r->Ok_0.ty@ == SpecType::Bool),
        decreases expr, 5int,
    {
        match expr {
            Expr::Int(n, _) => {
                let c = self.emit_const_int(*n);
                Ok(CgValue { value: Some(llvm::int_basic(c.v)), ty: Type::I32, t: c.t })
            },
            Expr::Float(text, _) => {
                let c = self.emit_const_float(text);
                Ok(CgValue { value: Some(llvm::float_basic(c.v)), ty: Type::F64, t: c.t })
            },
            Expr::Bool(b, _) => {
                let c = self.emit_const_bool(*b);
                Ok(CgValue { value: Some(llvm::int_basic(c.v)), ty: Type::Bool, t: c.t })
            },
            Expr::Str(text, _) => {
                let gv = self.emit_const_str(text.as_str(), "str")?;
                Ok(CgValue { value: Some(llvm::pointer_basic(gv.v)), ty: Type::Str, t: gv.t })
            },
            Expr::NoneLit(_) => {
                let opt_ty = match expected {
                    Some(t) => t.clone(),
                    None => {
                        return Err(text_of("none requires optional type"));
                    },
                };
                if !matches!(opt_ty, Type::Optional(_)) {
                    return Err(text_of("none requires optional type"));
                }
                let st = self.llvm_struct_type(&opt_ty)?;
                let zero = llvm::int_basic(self.bool_const(false));
                let val = insert_field(&self.builder, llvm::struct_undef(st), zero, 0, "none")?;
                self.log = Ghost(self.log@.push(Op::MakeNone));
                Ok(CgValue { value: Some(llvm::struct_basic(val)), ty: opt_ty, t: Ghost(Term::NoneVal) })
            },
            Expr::Ident(name, _) => {
                let ptr = self.lookup_var(name)?;
                let ty = self.tables.lookup_var_type(name)?;
                let val = bx(llvm::build_load(&self.builder, ptr, name.as_str()))?;
                Ok(CgValue { value: Some(val), ty, t: Ghost(Term::Var(name@)) })
            },
            Expr::Tuple(..) => self.codegen_tuple(expr),
            Expr::Range { start, end, inclusive, .. } => {
                let sv = self.codegen_expr(start, Some(&Type::I32))?;
                let ev = self.codegen_expr(end, Some(&Type::I32))?;
                let s_val = need(sv.value, "range start expects value")?;
                let e_val = need(ev.value, "range end expects value")?;
                let i1 = llvm::int_basic(self.bool_const(*inclusive));
                let range_ty = self.llvm_struct_type(&Type::Range)?;
                let mut cur = llvm::struct_undef(range_ty);
                cur = insert_field(&self.builder, cur, s_val, 0, "range")?;
                cur = insert_field(&self.builder, cur, e_val, 1, "range")?;
                cur = insert_field(&self.builder, cur, i1, 2, "range")?;
                Ok(CgValue { value: Some(llvm::struct_basic(cur)), ty: Type::Range, t: Ghost(Term::Of(expr@)) })
            },
            Expr::Array(..) => self.codegen_array_lit(expr, expected),
            Expr::StructLit { .. } => self.codegen_struct_lit(expr),
            Expr::FieldAccess { obj, field, .. } => {
                let obj_ty = self.tables.infer_expr_type(obj)?;
                if let Type::Array(_) = obj_ty {
                    if same_name(field, "length") {
                        let arr = self.codegen_expr(obj, Some(&obj_ty))?;
                        let val = need(arr.value, "array expects value")?;
                        let len = self.array_len_from_value(val)?;
                        return Ok(CgValue { value: Some(llvm::int_basic(len)), ty: Type::I32, t: Ghost(Term::Of(expr@)) });
                    }
                    return Err(text_of("unknown field on array"));
                }
                let (ptr, field_ty) = self.codegen_field_ptr(obj, field)?;
                let val = bx(llvm::build_load(&self.builder, ptr, field.as_str()))?;
                Ok(CgValue { value: Some(val), ty: field_ty, t: Ghost(Term::Of(expr@)) })
            },
            Expr::BinOp { op, left, right, .. } => {
                let lt = self.tables.infer_expr_type(left)?;
                let lv = self.codegen_expr(left, Some(&lt))?;
                let rv = self.codegen_expr(right, Some(&lt))?;
                let l = Traced { v: need(lv.value, "binop expects value")?, t: lv.t };
                let r = Traced { v: need(rv.value, "binop expects value")?, t: rv.t };
                let res = self.codegen_binop(*op, l, r, &lt)?;
                proof {
                    lemma_ends_with_concat(self.log(), plan_ops(binop_plan_of(*op, lt@)));
                }
                Ok(CgValue { value: Some(res.v), ty: self.tables.infer_binop_type(*op, &lt), t: res.t })
            },
            Expr::UnaryOp { op, operand, .. } => {
                let ot = self.tables.infer_expr_type(operand)?;
                let ov = self.codegen_expr(operand, Some(&ot))?;
                let v = need(ov.value, "unary expects value")?;
                let (res, t) = match op {
                    UnaryOp::Neg => {
                        if matches!(ot, Type::F64) {
                            let x = Traced { v: float_of(v)?, t: ov.t };
                            let n = bx(llvm::build_float_neg(&self.builder, x, "fneg"))?;
                            self.log = Ghost(self.log@.push(Op::FloatNeg));
                            (llvm::float_basic(n.v), n.t)
                        } else {
                            let x = Traced { v: int_of(v)?, t: ov.t };
                            let n = bx(llvm::build_int_neg(&self.builder, x, "ineg"))?;
                            self.log = Ghost(self.log@.push(Op::IntNeg));
                            (llvm::int_basic(n.v), n.t)
                        }
                    },
                    UnaryOp::Not => {
                        let x = self.int_t(Traced { v, t: ov.t })?;
                        let n = self.emit_not(x, "not")?;
                        (llvm::int_basic(n.v), n.t)
                    },
                };
                Ok(CgValue { value: Some(res), ty: ot, t })
            },
            Expr::Call { .. } => self.codegen_call(expr),
            Expr::MethodCall { .. } => self.codegen_method_call(expr),
            Expr::Cast { expr: inner, ty, .. } => {
                let from_ty = self.tables.infer_expr_type(inner)?;
                let v = self.codegen_expr(inner, Some(&from_ty))?;
                let val = need(v.value, "cast expects value")?;
                let res = self.codegen_cast(val, &from_ty, ty)?;
                Ok(CgValue { value: Some(res), ty: ty.clone(), t: Ghost(Term::Cast(cast_plan_of(from_ty@, ty@)->0, Box::new(v.t@))) })
            },
            Expr::If { .. } => match expected {
                Some(t) => self.codegen_if_expr(expr, Some(t)),
                None => {
                    let inferred = self.tables.infer_expr_type(expr)?;
                    self.codegen_if_expr(expr, Some(&inferred))
                },
            },
            Expr::Match { .. } => match expected {
                Some(t) => self.codegen_match_expr(expr, Some(t)),
                None => {
                    let inferred = self.tables.infer_expr_type(expr)?;
                    self.codegen_match_expr(expr, Some(&inferred))
                },
            },
            Expr::Index { .. } => self.codegen_index(expr),
        }
    }

    #[verifier::loop_isolation(false)]
    fn codegen_tuple(&mut self, expr: &Expr) -> (r: Result<CgValue<'ctx>, String>)
        requires
            expr is Tuple,
        ensures
            r is Ok ==> r->Ok_0.t@ == Term::Of(expr@),
            keeps_tables(old(self).env(), final(self).env()),
            r is Ok ==> final(self).restores(old(self)),
            r is Ok ==> typed_as(old(self).env(), expr@, r->Ok_0.ty@),
        decreases expr, 4int,
    {
        match expr {
            Expr::Tuple(elems, _) => {
                let ghost env = old(self).env();
                let ghost es = crate::ast::spec_exprs(elems@);
                let ghost typed = calls_agree(env) && cg_type(env, expr@) is Ok;
                proof {
                    crate::ast::lemma_exprs_index(elems@);
                    if typed {
                        lemma_cg_types_ok(env, es, 0);
                    }
                }
                let mut vals: Vec<BasicValueEnum<'ctx>> = Vec::new();
                let mut tys: Vec<Type> = Vec::new();
                let mut i: usize = 0;
                while i < elems.len()
                    invariant
                        i <= elems.len(),
                        keeps_tables(old(self).env(), self.env()),
                        self.restores(old(self)),
                        tys@.len() == i,
                        vals@.len() == i,
                        typed ==> forall|j: int| 0 <= j < i ==> #[trigger] tys@[j]@ == cg_types(env, es, 0)->Ok_0[j],
                    decreases elems.len() - i,
                {
                    proof {
                        assert(decreases_to!(elems => elems@));
                        assert(decreases_to!(elems@ => elems@[i as int]));
                    }
                    proof {
                        if typed {
                            assert(es[i as int] == elems@[i as int]@);
                            assert(cg_type(env, es[i as int]) == Ok::<SpecType, Seq<char>>(cg_types(env, es, 0)->Ok_0[i as int]));
                        }
                    }
                    let cv = self.codegen_expr(&elems[i], None)?;
                    let CgValue { value, ty, .. } = cv;
                    let ghost tv = ty@;
                    let v = need(value, "tuple expects value")?;
                    vals.push(v);
                    let ghost before = tys@;
                    tys.push(ty);
                    proof {
                        assert(tys@[i as int]@ == tv);
                        assert(forall|j: int| 0 <= j < i ==> tys@[j] == before[j]);
                    }
                    i = i + 1;
                }
                proof {
                    crate::ast::lemma_spec_types_len(tys@);
                    if typed {
                        assert forall|j: int| 0 <= j < tys@.len() implies crate::ast::spec_types(tys@)[j]
                            == cg_types(env, es, 0)->Ok_0[j] by {
                            assert(tys@[j]@ == cg_types(env, es, 0)->Ok_0[j]);
                        }
                        assert(crate::ast::spec_types(tys@) =~= cg_types(env, es, 0)->Ok_0);
                    }
                }
                let tuple_ty = Type::Tuple(tys);
                let st = self.llvm_struct_type(&tuple_ty)?;
                let mut cur = llvm::struct_undef(st);
                let mut idx: usize = 0;
                while idx < vals.len()
                    invariant
                        idx <= vals.len(),
                        keeps_tables(old(self).env(), self.env()),
                        self.restores(old(self)),
                    decreases vals.len() - idx,
                {
                    cur = insert_field(&self.builder, cur, vals[idx], idx as u32, "tup")?;
                    idx = idx + 1;
                }
                Ok(CgValue { value: Some(llvm::struct_basic(cur)), ty: tuple_ty, t: Ghost(Term::Of(expr@)) })
            },
            _ => Err(text_of("expected a tuple")),
        }
    }

    /// An array literal: a runtime array of the right length and element
    /// size, each element stored in turn. An empty literal takes its element
    /// type from the expected type.
    #[verifier::loop_isolation(false)]
    fn codegen_array_lit(&mut self, expr: &Expr, expected: Option<&Type>) -> (r: Result<CgValue<'ctx>, String>)
        requires
            expr is Array,
        ensures
            r is Ok ==> r->Ok_0.t@ == Term::Of(expr@),
            keeps_tables(old(self).env(), final(self).env()),
            r is Ok ==> final(self).restores(old(self)),
            (r is Ok && expected is None) ==> typed_as(old(self).env(), expr@, r->Ok_0.ty@),
        decreases expr, 4int,
    {
        match expr {
            Expr::Array(elems, _) => {
                proof {
                    crate::ast::lemma_exprs_index(elems@);
                }
                let elem_ty = if elems.len() == 0 {
                    match expected {
                        Some(t) => match t {
                            Type::Array(inner) => (**inner).clone(),
                            _ => Type::Void,
                        },
                        None => Type::Void,
                    }
                } else {
                    self.tables.infer_expr_type(&elems[0])?
                };
                let ghost et = elem_ty@;
                proof {
                    if elems.len() > 0 {
                        assert(crate::ast::spec_exprs(elems@)[0] == elems@[0]@);
                    }
                }
                let len_val = self.i32_const(elems.len() as u64, false);
                let elem_size = if elems.len() == 0 {
                    self.i32_const(0, false)
                } else {
                    self.elem_size_value(&elem_ty)?
                };
                let mut args: Vec<BasicValueEnum<'ctx>> = Vec::new();
                args.push(llvm::int_basic(elem_size));
                args.push(llvm::int_basic(len_val));
                let call = self.call_runtime("pebbles_array_new", "missing pebbles_array_new", &args, "arr_new")?;
                let arr_val = need(call, "array_new returned void")?;
                let mut idx: usize = 0;
                while idx < elems.len()
                    invariant
                        idx <= elems.len(),
                        keeps_tables(old(self).env(), self.env()),
                        self.restores(old(self)),
                    decreases elems.len() - idx,
                {
                    proof {
                        assert(decreases_to!(elems => elems@));
                        assert(decreases_to!(elems@ => elems@[idx as int]));
                    }
                    let v = self.codegen_expr(&elems[idx], Some(&elem_ty))?;
                    let val = need(v.value, "array elem expects value")?;
                    let idx_val = self.i32_const(idx as u64, false);
                    let ptr = self.array_elem_ptr_from_value(arr_val, idx_val, &elem_ty)?;
                    bx(llvm::build_store(&self.builder, ptr, val))?;
                    idx = idx + 1;
                }
                let ty = Type::Array(Box::new(elem_ty));
                proof {
                    assert(ty@ == SpecType::Array(Box::new(et)));
                }
                Ok(CgValue { value: Some(arr_val), ty, t: Ghost(Term::Of(expr@)) })
            },
            _ => Err(text_of("expected an array literal")),
        }
    }

    /// A struct literal: each declared field, in declaration order, from the
    /// first initializer of that name.
    #[verifier::loop_isolation(false)]
    fn codegen_struct_lit(&mut self, expr: &Expr) -> (r: Result<CgValue<'ctx>, String>)
        requires
            expr is StructLit,
        ensures
            r is Ok ==> r->Ok_0.t@ == Term::Of(expr@),
            keeps_tables(old(self).env(), final(self).env()),
            r is Ok ==> final(self).restores(old(self)),
            r is Ok ==> typed_as(old(self).env(), expr@, r->Ok_0.ty@),
        decreases expr, 4int,
    {
        match expr {
            Expr::StructLit { name, fields, .. } => {
                let info_fields = match self.struct_fields_of(name) {
                    Some(f) => f,
                    None => {
                        return Err(msg3("unknown struct '", name.as_str(), "'"));
                    },
                };
                let st_ty = match find_named(&self.structs, name) {
                    Some(st) => st,
                    None => {
                        return Err(msg3("missing struct '", name.as_str(), "'"));
                    },
                };
                let mut cur = llvm::struct_undef(st_ty);
                let mut idx: usize = 0;
                while idx < info_fields.len()
                    invariant
                        idx <= info_fields.len(),
                        keeps_tables(old(self).env(), self.env()),
                        self.restores(old(self)),
                    decreases info_fields.len() - idx,
                {
                    let field_name = &info_fields[idx].0;
                    let mut k: usize = 0;
                    let mut found: Option<usize> = None;
                    while k < fields.len() && found.is_none()
                        invariant
                            k <= fields.len(),
                            found matches Some(x) ==> x < fields.len(),
                        decreases fields.len() - k,
                    {
                        if fields[k].0 == *field_name {
                            found = Some(k);
                        }
                        k = k + 1;
                    }
                    let fi = match found {
                        Some(x) => x,
                        None => {
                            return Err(msg3("missing field '", field_name.as_str(), "'"));
                        },
                    };
                    proof {
                        assert(decreases_to!(fields => fields@));
                        assert(decreases_to!(fields@ => fields@[fi as int]));
                        assert(decreases_to!(fields@[fi as int] => fields@[fi as int].1));
                    }
                    let val = self.codegen_expr(&fields[fi].1, Some(&info_fields[idx].1))?;
                    let v = need(val.value, "struct field expects value")?;
                    cur = insert_field(&self.builder, cur, v, idx as u32, "field")?;
                    idx = idx + 1;
                }
                Ok(CgValue { value: Some(llvm::struct_basic(cur)), ty: Type::Named(name.clone()), t: Ghost(Term::Of(expr@)) })
            },
            _ => Err(text_of("expected a struct literal")),
        }
    }

    /// The text of the single argument of `print` or `str`, for the argument
    /// types the runtime can render.
    fn text_of_value(&mut self, args: &Vec<Expr>, missing: &str, no_value: &str, unsupported: &str) -> (r: Result<Traced<BasicValueEnum<'ctx>>, String>)
        ensures
            keeps_tables(old(self).env(), final(self).env()),
            r is Ok ==> final(self).restores(old(self)),
            args@.len() == 0 ==> (r is Err && r->Err_0@ == missing@),
            (args@.len() > 0 && cg_type(old(self).env(), args@[0]@) is Ok && !(cg_type(old(self).env(), args@[0]@)->Ok_0 is I32
                || cg_type(old(self).env(), args@[0]@)->Ok_0 is Bool || cg_type(old(self).env(), args@[0]@)->Ok_0 is Str))
                ==> (r is Err && r->Err_0@ == unsupported@),
            r is Ok ==> (args@.len() > 0 && cg_type(old(self).env(), args@[0]@) is Ok
                && r->Ok_0.t@ == text_term(cg_type(old(self).env(), args@[0]@)->Ok_0, expr_term(old(self).env(), args@[0]@))),
        decreases args, 4int,
    {
        if args.len() == 0 {
            return Err(text_of(missing));
        }
        let arg_ty = self.tables.infer_expr_type(&args[0])?;
        if !matches!(arg_ty, Type::Str | Type::I32 | Type::Bool) {
            return Err(text_of(unsupported));
        }
        proof {
            assert(decreases_to!(args => args@));
            assert(decreases_to!(args@ => args@[0]));
        }
        let cv = self.codegen_expr(&args[0], Some(&arg_ty))?;
        let val = Traced { v: need(cv.value, no_value)?, t: cv.t };
        match arg_ty {
            Type::Str => Ok(val),
            Type::I32 => {
                let mut a: Vec<BasicValueEnum<'ctx>> = Vec::new();
                a.push(val.v);
                let call = self.call_runtime("pebbles_str_i32", "missing pebbles_str_i32", &a, "str")?;
                let v = need(call, "str returned void")?;
                Ok(Traced { v, t: Ghost(Term::Call("pebbles_str_i32"@, seq![val.t@])) })
            },
            Type::Bool => {
                let c = Traced { v: int_of(val.v)?, t: val.t };
                let yes = self.emit_const_str("true", "true_str")?;
                let no = self.emit_const_str("false", "false_str")?;
                let yes_v = Traced { v: llvm::pointer_basic(yes.v), t: yes.t };
                let no_v = Traced { v: llvm::pointer_basic(no.v), t: no.t };
                bx(llvm::build_select(&self.builder, c, yes_v, no_v, "bool_str"))
            },
            _ => Err(text_of(unsupported)),
        }
    }

    /// One argument of a built-in call, generated with the type it expects.
    fn builtin_arg(&mut self, args: &Vec<Expr>, expected: &Type, missing: &str, no_value: &str) -> (r: Result<BasicValueEnum<'ctx>, String>)
        ensures
            keeps_tables(old(self).env(), final(self).env()),
            r is Ok ==> final(self).restores(old(self)),
        decreases args, 3int,
    {
        if args.len() == 0 {
            return Err(text_of(missing));
        }
        proof {
            assert(decreases_to!(args => args@));
            assert(decreases_to!(args@ => args@[0]));
        }
        let v = self.codegen_expr(&args[0], Some(expected))?;
        need(v.value, no_value)
    }

    /// A call of a built-in (`print`, `input`, `len`, `str`, `int`, `float`,
    /// `sqrt`), through the runtime, or of a program function.
    #[verifier::loop_isolation(false)]
    fn codegen_call(&mut self, expr: &Expr) -> (r: Result<CgValue<'ctx>, String>)
        requires
            expr is Call,
        ensures
            r is Ok ==> r->Ok_0.t@ == expr_term(old(self).env(), expr@),
            keeps_tables(old(self).env(), final(self).env()),
            r is Ok ==> final(self).restores(old(self)),
            r is Ok ==> typed_as(old(self).env(), expr@, r->Ok_0.ty@),
            (!builtin_call(expr->Call_name@) && find_last(old(self).env().sigs, expr->Call_name@) is None)
                ==> (r is Err && r->Err_0@ == "unknown function '"@ + expr->Call_name@ + "'"@),
            r is Ok ==> (expr->Call_name@ == "print"@ ==> final(self).log().len() > 0
                && final(self).log().last() == Op::Call("pebbles_print_str"@)),
            r is Ok ==> (expr->Call_name@ == "input"@ ==> final(self).log() == old(self).log().push(Op::Call("pebbles_input"@))),
            r is Ok ==> (expr->Call_name@ == "int"@ ==> final(self).log().len() > 0
                && final(self).log().last() == Op::Call("pebbles_int_str"@)),
            r is Ok ==> (expr->Call_name@ == "float"@ ==> final(self).log().len() > 0
                && final(self).log().last() == Op::Call("pebbles_float_str"@)),
            r is Ok ==> (expr->Call_name@ == "sqrt"@ ==> final(self).log().len() > 0
                && final(self).log().last() == Op::Call("pebbles_sqrt_f64"@)),
            (expr->Call_name@ == "str"@ && expr@->Call_args.len() > 0 && cg_type(old(self).env(), expr@->Call_args[0]) is Ok
                && !(cg_type(old(self).env(), expr@->Call_args[0])->Ok_0 is I32 || cg_type(old(self).env(), expr@->Call_args[0])->Ok_0 is Bool
                || cg_type(old(self).env(), expr@->Call_args[0])->Ok_0 is Str))
                ==> (r is Err && r->Err_0@ == "str() only supports i32, bool and str for now"@),
            (expr->Call_name@ == "print"@ && expr@->Call_args.len() > 0 && cg_type(old(self).env(), expr@->Call_args[0]) is Ok
                && !(cg_type(old(self).env(), expr@->Call_args[0])->Ok_0 is I32 || cg_type(old(self).env(), expr@->Call_args[0])->Ok_0 is Bool
                || cg_type(old(self).env(), expr@->Call_args[0])->Ok_0 is Str))
                ==> (r is Err && r->Err_0@ == "print() only supports i32, bool and str for now"@),
        decreases expr, 4int,
    {
        match expr {
            Expr::Call { name, args, .. } => {
                proof {
                    lemma_builtin_names();
                    crate::ast::lemma_exprs_index(args@);
                    if args@.len() > 0 {
                        assert(expr@->Call_args[0] == args@[0]@);
                    }
                }
                if same_name(name, "print") {
                    let val = self.text_of_value(args, "print expects 1 arg", "print expects value",
                        "print() only supports i32, bool and str for now")?;
                    let mut a: Vec<BasicValueEnum<'ctx>> = Vec::new();
                    a.push(val.v);
                    let _ = self.call_runtime("pebbles_print_str", "missing pebbles_print_str", &a, "print")?;
                    proof {
                        if calls_agree(old(self).env()) && cg_type(old(self).env(), expr@) is Ok {
                            lemma_builtin_call_type(old(self).env(), expr@, SpecType::Void);
                        }
                    }
                    return Ok(CgValue { value: None, ty: Type::Void, t: Ghost(Term::Of(expr@)) });
                }
                if same_name(name, "input") {
                    let a: Vec<BasicValueEnum<'ctx>> = Vec::new();
                    let call = self.call_runtime("pebbles_input", "missing pebbles_input", &a, "input")?;
                    let v = need(call, "input returned void")?;
                    proof {
                        if calls_agree(old(self).env()) && cg_type(old(self).env(), expr@) is Ok {
                            lemma_builtin_call_type(old(self).env(), expr@, SpecType::Str);
                        }
                    }
                    return Ok(CgValue { value: Some(v), ty: Type::Str, t: Ghost(Term::Of(expr@)) });
                }
                if same_name(name, "len") {
                    if args.len() == 0 {
                        return Err(text_of("len expects 1 arg"));
                    }
                    let arg_ty = self.tables.infer_expr_type(&args[0])?;
                    if matches!(arg_ty, Type::Array(_)) {
                        let val = self.builtin_arg(args, &arg_ty, "len expects 1 arg", "len expects value")?;
                        let len = self.array_len_from_value(val)?;
                            proof {
                        if calls_agree(old(self).env()) && cg_type(old(self).env(), expr@) is Ok {
                            lemma_builtin_call_type(old(self).env(), expr@, SpecType::I32);
                        }
                    }
                        return Ok(CgValue { value: Some(llvm::int_basic(len)), ty: Type::I32, t: Ghost(Term::Of(expr@)) });
                    }
                    let val = self.builtin_arg(args, &Type::Str, "len expects 1 arg", "len expects value")?;
                    let mut a: Vec<BasicValueEnum<'ctx>> = Vec::new();
                    a.push(val);
                    let call = self.call_runtime("pebbles_len_str", "missing pebbles_len_str", &a, "len")?;
                    let v = need(call, "len returned void")?;
                    return Ok(CgValue { value: Some(v), ty: Type::I32, t: Ghost(Term::Of(expr@)) });
                }
                if same_name(name, "str") {
                    let v = self.text_of_value(args, "str expects 1 arg", "str expects value",
                        "str() only supports i32, bool and str for now")?;
                    return Ok(CgValue { value: Some(v.v), ty: Type::Str, t: v.t });
                }
                if same_name(name, "int") {
                    let val = self.builtin_arg(args, &Type::Str, "int expects 1 arg", "int expects value")?;
                    let mut a: Vec<BasicValueEnum<'ctx>> = Vec::new();
                    a.push(val);
                    let call = self.call_runtime("pebbles_int_str", "missing pebbles_int_str", &a, "int")?;
                    let v = need(call, "int returned void")?;
                    return Ok(CgValue { value: Some(v), ty: Type::I32, t: Ghost(Term::Of(expr@)) });
                }
                if same_name(name, "float") {
                    let val = self.builtin_arg(args, &Type::Str, "float expects 1 arg", "float expects value")?;
                    let mut a: Vec<BasicValueEnum<'ctx>> = Vec::new();
                    a.push(val);
                    let call = self.call_runtime("pebbles_float_str", "missing pebbles_float_str", &a, "float")?;
                    let v = need(call, "float returned void")?;
                    return Ok(CgValue { value: Some(v), ty: Type::F64, t: Ghost(Term::Of(expr@)) });
                }
                if same_name(name, "sqrt") {
                    let val = self.builtin_arg(args, &Type::F64, "sqrt expects 1 arg", "sqrt expects value")?;
                    let mut a: Vec<BasicValueEnum<'ctx>> = Vec::new();
                    a.push(val);
                    let call = self.call_runtime("pebbles_sqrt_f64", "missing pebbles_sqrt_f64", &a, "sqrt")?;
                    let v = need(call, "sqrt returned void")?;
                    return Ok(CgValue { value: Some(v), ty: Type::F64, t: Ghost(Term::Of(expr@)) });
                }
                let (params, ret) = match self.sig_of(name) {
                    Some(sig) => sig,
                    None => {
                        return Err(msg3("unknown function '", name.as_str(), "'"));
                    },
                };
                let mut llvm_args: Vec<BasicValueEnum<'ctx>> = Vec::new();
                let mut i: usize = 0;
                while i < args.len() && i < params.len()
                    invariant
                        i <= args.len(),
                        keeps_tables(old(self).env(), self.env()),
                        self.restores(old(self)),
                    decreases args.len() - i,
                {
                    proof {
                        assert(decreases_to!(args => args@));
                        assert(decreases_to!(args@ => args@[i as int]));
                    }
                    let cv = self.codegen_expr(&args[i], Some(&params[i]))?;
                    let v = need(cv.value, "call expects value")?;
                    llvm_args.push(v);
                    i = i + 1;
                }
                let f = match self.function_named(name) {
                    Some(f) => f,
                    None => {
                        return Err(msg3("missing function '", name.as_str(), "'"));
                    },
                };
                let call = bx(llvm::build_call(&self.builder, f, &llvm_args, "call"))?;
                let value = if matches!(ret, Type::Void) {
                    None
                } else {
                    Some(need(call, "call returned void")?)
                };
                Ok(CgValue { value, ty: ret, t: Ghost(Term::Of(expr@)) })
            },
            _ => Err(text_of("expected a call")),
        }
    }

    /// A method call: the array methods `length`, `push`, `pop` and
    /// `contains`, or a struct's method `Struct__method` with the object as its
    /// first argument.
    #[verifier::loop_isolation(false)]
    fn codegen_method_call(&mut self, expr: &Expr) -> (r: Result<CgValue<'ctx>, String>)
        requires
            expr is MethodCall,
        ensures
            r is Ok ==> r->Ok_0.t@ == Term::Of(expr@),
            keeps_tables(old(self).env(), final(self).env()),
            r is Ok ==> final(self).restores(old(self)),
            r is Ok ==> typed_as(old(self).env(), expr@, r->Ok_0.ty@),
            cg_type(old(self).env(), expr->MethodCall_obj@) matches Ok(t) ==> (!(t is Array) && !(t is Named)
                ==> (r is Err && r->Err_0@ == "method call on non-struct"@)),
        decreases expr, 4int,
    {
        match expr {
            Expr::MethodCall { obj, method, args, .. } => {
                let obj_ty = self.tables.infer_expr_type(obj)?;
                let struct_name = match obj_ty {
                    Type::Array(inner) => {
                        return self.codegen_array_method(expr, *inner);
                    },
                    Type::Named(n) => n,
                    _ => {
                        return Err(text_of("method call on non-struct"));
                    },
                };
                let mut f_name = struct_name.clone();
                f_name.append("__");
                f_name.append(method.as_str());
                proof {
                    assert(f_name@ == mangled(struct_name@, method@));
                }
                let f = match self.function_named(&f_name) {
                    Some(f) => f,
                    None => {
                        return Err(msg3("missing method '", f_name.as_str(), "'"));
                    },
                };
                let mut llvm_args: Vec<BasicValueEnum<'ctx>> = Vec::new();
                let obj_val = self.codegen_expr(obj, None)?;
                let obj_arg = need(obj_val.value, "method expects value")?;
                llvm_args.push(obj_arg);
                let mut i: usize = 0;
                while i < args.len()
                    invariant
                        i <= args.len(),
                        keeps_tables(old(self).env(), self.env()),
                        self.restores(old(self)),
                    decreases args.len() - i,
                {
                    proof {
                        assert(decreases_to!(args => args@));
                        assert(decreases_to!(args@ => args@[i as int]));
                    }
                    let cv = self.codegen_expr(&args[i], None)?;
                    let v = need(cv.value, "method arg expects value")?;
                    llvm_args.push(v);
                    i = i + 1;
                }
                let call = bx(llvm::build_call(&self.builder, f, &llvm_args, "mcall"))?;
                let (_, ret) = match self.sig_of(&f_name) {
                    Some(sig) => sig,
                    None => {
                        return Err(msg3("missing method sig '", f_name.as_str(), "'"));
                    },
                };
                let value = if matches!(ret, Type::Void) {
                    None
                } else {
                    Some(need(call, "method returned void")?)
                };
                Ok(CgValue { value, ty: ret, t: Ghost(Term::Of(expr@)) })
            },
            _ => Err(text_of("expected a method call")),
        }
    }

    /// The slot of the array variable a mutating array method works on.
    fn array_var_slot(&self, obj: &Expr, refused: &str) -> Result<PointerValue<'ctx>, String> {
        match obj {
            Expr::Ident(name, _) => self.lookup_var(name),
            _ => Err(text_of(refused)),
        }
    }

    /// `length`, `push`, `pop` and `contains` on an array with elements of type `inner`.
    #[verifier::loop_isolation(false)]
    fn codegen_array_method(&mut self, expr: &Expr, inner: Type) -> (r: Result<CgValue<'ctx>, String>)
        requires
            expr is MethodCall,
        ensures
            r is Ok ==> r->Ok_0.t@ == Term::Of(expr@),
            keeps_tables(old(self).env(), final(self).env()),
            r is Ok ==> final(self).restores(old(self)),
            r is Ok ==> r->Ok_0.ty@ == array_method_type(expr->MethodCall_method@, inner@),
        decreases expr, 3int,
    {
        match expr {
            Expr::MethodCall { obj, method, args, .. } => {
                let arr_ty = Type::Array(Box::new(inner.clone()));
                if same_name(method, "length") {
                    let arr = self.codegen_expr(obj, Some(&arr_ty))?;
                    let val = need(arr.value, "array expects value")?;
                    let len = self.array_len_from_value(val)?;
                    return Ok(CgValue { value: Some(llvm::int_basic(len)), ty: Type::I32, t: Ghost(Term::Of(expr@)) });
                }
                if same_name(method, "push") {
                    if args.len() == 0 {
                        return Err(text_of("push expects 1 arg"));
                    }
                    let arr_ptr = self.array_var_slot(obj, "push requires a mutable array variable")?;
                    proof {
                        assert(decreases_to!(args => args@));
                        assert(decreases_to!(args@ => args@[0]));
                    }
                    let v = self.codegen_expr(&args[0], Some(&inner))?;
                    let val = need(v.value, "push expects value")?;
                    let tmp = self.create_entry_alloca("push_tmp", &inner)?;
                    bx(llvm::build_store(&self.builder, tmp, val))?;
                    let tmp_cast = bx(llvm::build_pointer_cast(&self.builder, tmp, self.byte_ptr(), "push_cast"))?;
                    let mut a: Vec<BasicValueEnum<'ctx>> = Vec::new();
                    a.push(llvm::pointer_basic(arr_ptr));
                    a.push(llvm::pointer_basic(tmp_cast));
                    let _ = self.call_runtime("pebbles_array_push", "missing pebbles_array_push", &a, "push")?;
                    return Ok(CgValue { value: None, ty: Type::Void, t: Ghost(Term::Of(expr@)) });
                }
                if same_name(method, "pop") {
                    let arr_ptr = self.array_var_slot(obj, "pop requires a mutable array variable")?;
                    let tmp = self.create_entry_alloca("pop_tmp", &inner)?;
                    let tmp_cast = bx(llvm::build_pointer_cast(&self.builder, tmp, self.byte_ptr(), "pop_cast"))?;
                    let mut a: Vec<BasicValueEnum<'ctx>> = Vec::new();
                    a.push(llvm::pointer_basic(arr_ptr));
                    a.push(llvm::pointer_basic(tmp_cast));
                    let call = self.call_runtime("pebbles_array_pop", "missing pebbles_array_pop", &a, "pop")?;
                    let popped = int_of(need(call, "pop returned void")?)?;
                    let opt_ty = Type::Optional(Box::new(inner.clone()));
                    let st = self.llvm_struct_type(&opt_ty)?;
                    let mut val = llvm::struct_undef(st);
                    val = insert_field(&self.builder, val, llvm::int_basic(popped), 0, "is_some")?;
                    let loaded = bx(llvm::build_load(&self.builder, tmp, "pval"))?;
                    val = insert_field(&self.builder, val, loaded, 1, "oval")?;
                    return Ok(CgValue { value: Some(llvm::struct_basic(val)), ty: opt_ty, t: Ghost(Term::Of(expr@)) });
                }
                if same_name(method, "contains") {
                    if args.len() == 0 {
                        return Err(text_of("contains expects 1 arg"));
                    }
                    let arr = self.codegen_expr(obj, Some(&arr_ty))?;
                    let arr_val = need(arr.value, "array expects value")?;
                    proof {
                        assert(decreases_to!(args => args@));
                        assert(decreases_to!(args@ => args@[0]));
                    }
                    let needle = self.codegen_expr(&args[0], Some(&inner))?;
                    let needle_val = need(needle.value, "contains expects value")?;

                    let func = need(self.current_fn, "contains outside function")?;
                    let idx_alloca = self.create_entry_alloca("idx", &Type::I32)?;
                    let res_alloca = self.create_entry_alloca("found", &Type::Bool)?;
                    bx(llvm::build_store(&self.builder, idx_alloca, llvm::int_basic(self.i32_const(0, false))))?;
                    bx(llvm::build_store(&self.builder, res_alloca, llvm::int_basic(self.bool_const(false))))?;

                    let cond_bb = llvm::append_basic_block(self.context, func, "contains.cond");
                    let body_bb = llvm::append_basic_block(self.context, func, "contains.body");
                    let end_bb = llvm::append_basic_block(self.context, func, "contains.end");

                    bx(llvm::build_unconditional_branch(&self.builder, cond_bb))?;
                    llvm::position_at_end(&self.builder, cond_bb);
                    let cur = Traced { v: int_of(bx(llvm::build_load(&self.builder, idx_alloca, "i"))?)?, t: Ghost(Term::LoopIndex) };
                    let len = Traced { v: self.array_len_from_value(arr_val)?, t: Ghost(Term::Len(Box::new(arr.t@))) };
                    let below = bx(llvm::build_int_compare(&self.builder, IntRel::Slt, cur, len, "cmp"))?;
                    bx(llvm::build_conditional_branch(&self.builder, below.v, body_bb, end_bb))?;

                    llvm::position_at_end(&self.builder, body_bb);
                    let elem_ptr = self.array_elem_ptr_from_value(arr_val, cur.v, &inner)?;
                    let elem_val = bx(llvm::build_load(&self.builder, elem_ptr, "elem"))?;
                    let elem_tr = Traced { v: elem_val, t: Ghost(Term::Elem(Box::new(arr.t@), Box::new(Term::LoopIndex))) };
                    let needle_tr = Traced { v: needle_val, t: needle.t };
                    let eq = self.compare_values(&inner, elem_tr, needle_tr, self.tables.struct_count())?;
                    let prev = Traced { v: int_of(bx(llvm::build_load(&self.builder, res_alloca, "prev"))?)?, t: Ghost(Term::Machine) };
                    let new_val = bx(llvm::build_or(&self.builder, prev, eq, "or"))?;
                    bx(llvm::build_store(&self.builder, res_alloca, llvm::int_basic(new_val.v)))?;
                    let one = self.i32_tr(1);
                    let next = bx(llvm::build_int_add(&self.builder, cur, one, "next"))?;
                    bx(llvm::build_store(&self.builder, idx_alloca, llvm::int_basic(next.v)))?;
                    bx(llvm::build_unconditional_branch(&self.builder, cond_bb))?;

                    llvm::position_at_end(&self.builder, end_bb);
                    let found = bx(llvm::build_load(&self.builder, res_alloca, "found"))?;
                    return Ok(CgValue { value: Some(found), ty: Type::Bool, t: Ghost(Term::Of(expr@)) });
                }
                Err(text_of("unknown array method"))
            },
            _ => Err(text_of("expected a method call")),
        }
    }

    /// Indexing an array (a load through the element pointer) or a string
    /// (through the runtime).
    #[verifier::loop_isolation(false)]
    fn codegen_index(&mut self, expr: &Expr) -> (r: Result<CgValue<'ctx>, String>)
        requires
            expr is Index,
        ensures
            r is Ok ==> r->Ok_0.t@ == Term::Of(expr@),
            keeps_tables(old(self).env(), final(self).env()),
            r is Ok ==> final(self).restores(old(self)),
            r is Ok ==> typed_as(old(self).env(), expr@, r->Ok_0.ty@),
            cg_type(old(self).env(), expr->Index_obj@) matches Ok(t) ==> (!(t is Array) && !(t is Str)
                ==> (r is Err && r->Err_0@ == "indexing not supported"@)),
        decreases expr, 4int,
    {
        match expr {
            Expr::Index { obj, index, .. } => {
                let obj_ty = self.tables.infer_expr_type(obj)?;
                match obj_ty {
                    Type::Array(inner) => {
                        let elem_ty = *inner;
                        let arr = self.codegen_expr(obj, Some(&Type::Array(Box::new(elem_ty.clone()))))?;
                        let arr_val = need(arr.value, "index expects value")?;
                        let idx = self.codegen_expr(index, Some(&Type::I32))?;
                        let idx_val = int_of(need(idx.value, "index expects value")?)?;
                        let ptr = self.array_elem_ptr_from_value(arr_val, idx_val, &elem_ty)?;
                        let val = bx(llvm::build_load(&self.builder, ptr, "idx"))?;
                        Ok(CgValue { value: Some(val), ty: elem_ty, t: Ghost(Term::Of(expr@)) })
                    },
                    Type::Str => {
                        let sv = self.codegen_expr(obj, Some(&Type::Str))?;
                        let sval = need(sv.value, "index expects value")?;
                        let idx = self.codegen_expr(index, Some(&Type::I32))?;
                        let idx_val = need(idx.value, "index expects value")?;
                        let mut a: Vec<BasicValueEnum<'ctx>> = Vec::new();
                        a.push(sval);
                        a.push(idx_val);
                        let call = self.call_runtime("pebbles_str_index", "missing pebbles_str_index", &a, "str_idx")?;
                        let v = need(call, "str_index returned void")?;
                        Ok(CgValue { value: Some(v), ty: Type::Str, t: Ghost(Term::Of(expr@)) })
                    },
                    _ => Err(text_of("indexing not supported")),
                }
            },
            _ => Err(text_of("expected an index expression")),
        }
    }

    /// `if` as an expression or a statement: a conditional branch to a then
    /// and an else block that meet again, with a phi of the branch values when
    /// a value is expected.
    #[verifier::loop_isolation(false)]
    fn codegen_if_expr(&mut self, expr: &Expr, expected: Option<&Type>) -> (r: Result<CgValue<'ctx>, String>)
        requires
            expr is If,
        ensures
            r is Ok ==> r->Ok_0.t@ == Term::Of(expr@),
            keeps_tables(old(self).env(), final(self).env()),
            r is Ok ==> final(self).restores(old(self)),
            expected matches Some(t) ==> (r is Ok ==> r->Ok_0.ty@ == t@),
            ((match expected {
                Some(t) => !((*t) is Void),
                None => false,
            }) && expr->If_else_ is None) ==> (r is Err && r->Err_0@ == "if expression with value requires else"@),
        decreases expr, 4int,
    {
        match expr {
            Expr::If { cond, then, else_, .. } => {
                let has_value = match expected {
                    Some(t) => !matches!(*t, Type::Void),
                    None => false,
                };
                if has_value && else_.is_none() {
                    return Err(text_of("if expression with value requires else"));
                }
                let cond_val = self.codegen_expr(cond, Some(&Type::Bool))?;
                let cond_v = int_of(need(cond_val.value, "if condition expects value")?)?;

                let func = need(self.current_fn, "if outside function")?;
                let then_bb = llvm::append_basic_block(self.context, func, "then");
                let else_bb = llvm::append_basic_block(self.context, func, "else");
                let merge_bb = llvm::append_basic_block(self.context, func, "ifend");

                bx(llvm::build_conditional_branch(&self.builder, cond_v, then_bb, else_bb))?;

                llvm::position_at_end(&self.builder, then_bb);
                let then_val = self.codegen_block(then, expected)?;
                self.branch_if_open(merge_bb)?;
                let then_end = self.current_block()?;

                llvm::position_at_end(&self.builder, else_bb);
                let else_val = match else_ {
                    Some(stmts) => self.codegen_block(stmts, expected)?,
                    None => None,
                };
                self.branch_if_open(merge_bb)?;
                let else_end = self.current_block()?;

                llvm::position_at_end(&self.builder, merge_bb);

                let ty = match expected {
                    Some(t) => t.clone(),
                    None => Type::Void,
                };
                if matches!(ty, Type::Void) {
                    return Ok(CgValue { value: None, ty, t: Ghost(Term::Of(expr@)) });
                }
                let llvm_ty = self.llvm_type(&ty);
                let phi = bx(llvm::build_phi(&self.builder, llvm_ty, "iftmp"))?;
                match then_val {
                    Some(v) => llvm::add_incoming(phi, v, then_end),
                    None => {},
                }
                match else_val {
                    Some(v) => llvm::add_incoming(phi, v, else_end),
                    None => {},
                }
                Ok(CgValue { value: Some(llvm::phi_value(phi)), ty, t: Ghost(Term::Of(expr@)) })
            },
            _ => Err(text_of("expected an if expression")),
        }
    }

    /// `match`: the arms' conditions tested in order, each arm's bindings in
    /// a scope of their own, a phi of the arm values when a value is expected.
    #[verifier::loop_isolation(false)]
    fn codegen_match_expr(&mut self, expr: &Expr, expected: Option<&Type>) -> (r: Result<CgValue<'ctx>, String>)
        requires
            expr is Match,
        ensures
            r is Ok ==> r->Ok_0.t@ == Term::Of(expr@),
            keeps_tables(old(self).env(), final(self).env()),
            r is Ok ==> final(self).restores(old(self)),
            expected matches Some(t) ==> (r is Ok ==> r->Ok_0.ty@ == t@),
            r is Ok ==> (final(self).log().len() > 0 && final(self).log().last() is Match
                && final(self).log().last() == match_record(old(self).env(), expr@, final(self).log().last()->Match_ty)),
        decreases expr, 4int,
    {
        match expr {
            Expr::Match { subject, arms, .. } => {
                let subj_val = self.codegen_expr(subject, None)?;
                let CgValue { value: sv, ty: subj_ty, t: subj_t } = subj_val;
                let subj_v = Traced { v: need(sv, "match subject expects value")?, t: subj_t };
                let ghost env0 = self.env();
                let ghost st = subj_t@;
                let ghost sty = subj_ty@;
                let ghost mut tests: Seq<Term> = Seq::empty();
                let ghost mut bind_seq: Seq<Seq<(Seq<char>, Term, SpecType)>> = Seq::empty();
                proof {
                    crate::ast::lemma_arms_index(arms@);
                }

                let func = need(self.current_fn, "match outside function")?;
                let end_bb = llvm::append_basic_block(self.context, func, "match.end");
                let check_bb = llvm::append_basic_block(self.context, func, "match.check");

                bx(llvm::build_unconditional_branch(&self.builder, check_bb))?;
                llvm::position_at_end(&self.builder, check_bb);

                let mut incoming: Vec<(BasicValueEnum<'ctx>, BasicBlock<'ctx>)> = Vec::new();
                let exp_ty = match expected {
                    Some(t) => t.clone(),
                    None => Type::Void,
                };
                let exp_void = matches!(exp_ty, Type::Void);

                let mut idx: usize = 0;
                while idx < arms.len()
                    invariant
                        idx <= arms.len(),
                        keeps_tables(old(self).env(), self.env()),
                        self.restores(old(self)),
                        self.env() == env0,
                        subj_v.t@ == st,
                        subj_ty@ == sty,
                        spec_arms(arms@).len() == arms@.len(),
                        forall|j: int| 0 <= j < arms@.len() ==> #[trigger] spec_arms(arms@)[j] == arms@[j]@,
                        tests.len() == idx,
                        bind_seq.len() == idx,
                        forall|j: int| 0 <= j < idx ==> #[trigger] tests[j] == pat_term(env0, spec_arms(arms@)[j].pattern, st, sty),
                        forall|j: int| 0 <= j < idx ==> #[trigger] bind_seq[j] == pat_binds(env0, spec_arms(arms@)[j].pattern, st, sty),
                    decreases arms.len() - idx,
                {
                    let is_last = idx + 1 == arms.len();
                    let arm_bb = llvm::append_basic_block(self.context, func, "match.arm");
                    let next_bb = if is_last {
                        end_bb
                    } else {
                        llvm::append_basic_block(self.context, func, "match.next")
                    };

                    let (cond, bindings) = self.codegen_pattern_cond(&arms[idx].pattern, subj_v, &subj_ty)?;
                    proof {
                        tests = tests.push(cond.t@);
                        bind_seq = bind_seq.push(binds_view(bindings@));
                    }
                    bx(llvm::build_conditional_branch(&self.builder, cond.v, arm_bb, next_bb))?;

                    llvm::position_at_end(&self.builder, arm_bb);
                    let ghost before_arm = *self;
                    self.push_scope();
                    let mut k: usize = 0;
                    while k < bindings.len()
                        invariant
                            k <= bindings.len(),
                            keeps_tables(old(self).env(), self.env()),
                            self.one_scope_in(&before_arm),
                        decreases bindings.len() - k,
                    {
                        let alloca = self.create_entry_alloca(bindings[k].0.as_str(), &bindings[k].2)?;
                        bx(llvm::build_store(&self.builder, alloca, bindings[k].1.v))?;
                        self.bind_var(&bindings[k].0, bindings[k].2.clone(), alloca);
                        k = k + 1;
                    }

                    proof {
                        assert(decreases_to!(arms => arms@));
                        assert(decreases_to!(arms@ => arms@[idx as int]));
                        assert(decreases_to!(arms@[idx as int] => arms@[idx as int].body));
                    }
                    let arm_val = self.codegen_block(&arms[idx].body, expected)?;
                    let ghost inside = self.env();
                    self.pop_scope();
                    proof {
                        lemma_pop_restores(before_arm.env(), inside);
                    }

                    if !exp_void {
                        let v = need(arm_val, "match arm missing value")?;
                        let blk = self.current_block()?;
                        incoming.push((v, blk));
                    }

                    self.branch_if_open(end_bb)?;

                    if !is_last {
                        llvm::position_at_end(&self.builder, next_bb);
                    }
                    idx = idx + 1;
                }

                llvm::position_at_end(&self.builder, end_bb);
                self.log = Ghost(self.log@.push(Op::Match { subject: st, ty: sty, tests, binds: bind_seq }));
                proof {
                    let e = expr@;
                    assert(e == SpecExpr::Match { subject: Box::new((**subject)@), arms: spec_arms(arms@), line: e->Match_line });
                    assert(st == expr_term(env0, (**subject)@));
                    assert(tests =~= Seq::new(arms@.len(), |i: int| pat_term(env0, spec_arms(arms@)[i].pattern, st, sty)));
                    assert(bind_seq =~= Seq::new(arms@.len(), |i: int| pat_binds(env0, spec_arms(arms@)[i].pattern, st, sty)));
                }
                if exp_void {
                    return Ok(CgValue { value: None, ty: exp_ty, t: Ghost(Term::Of(expr@)) });
                }
                let llvm_ty = self.llvm_type(&exp_ty);
                let phi = bx(llvm::build_phi(&self.builder, llvm_ty, "matchtmp"))?;
                let mut k: usize = 0;
                while k < incoming.len()
                    invariant
                        k <= incoming.len(),
                    decreases incoming.len() - k,
                {
                    llvm::add_incoming(phi, incoming[k].0, incoming[k].1);
                    k = k + 1;
                }
                Ok(CgValue { value: Some(llvm::phi_value(phi)), ty: exp_ty, t: Ghost(Term::Of(expr@)) })
            },
            _ => Err(text_of("expected a match expression")),
        }
    }

    // ── Whole programs ───────────────────────────────────────────────────────

    #[verifier::loop_isolation(false)]
    fn define_items(&mut self, items: &[Item]) -> (r: Result<(), String>)
        ensures
            keeps_tables(old(self).env(), final(self).env()),
            r is Ok ==> final(self).env() == old(self).env(),
    {
        let mut i: usize = 0;
        while i < items.len()
            invariant
                i <= items.len(),
                keeps_tables(old(self).env(), self.env()),
                self.env() == old(self).env(),
            decreases items.len() - i,
        {
            match &items[i] {
                Item::Fn(f) => {
                    self.codegen_fn(f, None)?;
                },
                Item::Impl(imp) => {
                    let mut j: usize = 0;
                    while j < imp.methods.len()
                        invariant
                            j <= imp.methods.len(),
                            keeps_tables(old(self).env(), self.env()),
                            self.env() == old(self).env(),
                        decreases imp.methods.len() - j,
                    {
                        self.codegen_fn(&imp.methods[j], Some(&imp.struct_name))?;
                        j = j + 1;
                    }
                },
                Item::Struct(_) => {},
            }
            i = i + 1;
        }
        Ok(())
    }

    /// The signature pass of `CodegenTables::collect_signatures`.
    pub fn collect_signatures(&mut self, items: &[Item]) -> (r: Result<(), String>)
        ensures
            (final(self).env(), crate::codegen::cg_unit_view(r)) == crate::codegen::cg_collect_signatures(old(self).env(), crate::ast::spec_items(items@)),
    {
        self.tables.collect_signatures(items)
    }

    /// Generates the whole program: the struct pass, the signature pass, the
    /// declarations of the program's and the runtime's functions, then every
    /// function body. Fails with the struct pass's error, else with the
    /// signature pass's, else with the first error generation meets; on
    /// success the tables hold exactly what both passes recorded (generating
    /// the bodies leaves every variable scope as it found it).
    pub fn compile(&mut self, items: &[Item]) -> (r: Result<(), String>)
        ensures
            ({
                let its = crate::ast::spec_items(items@);
                let (e1, r1) = crate::codegen::cg_structs_from(old(self).env(), its, 0);
                let (e2, r2) = crate::codegen::cg_collect_signatures(e1, its);
                &&& r1 is Err ==> r is Err && r->Err_0@ == r1->Err_0
                &&& (r1 is Ok && r2 is Err) ==> r is Err && r->Err_0@ == r2->Err_0
                &&& r is Ok ==> r1 is Ok && r2 is Ok && final(self).env() == e2
            }),
    {
        self.collect_structs(items)?;
        self.collect_signatures(items)?;
        self.declare_functions(items);
        self.declare_runtime();
        self.define_items(items)?;
        Ok(())
    }
}

} // verus!
