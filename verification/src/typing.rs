//! The Pebble typing rules: for a checker state and a piece of syntax, the
//! type it has or the error the checker reports, and the state afterwards.
use vstd::prelude::*;

use crate::ast::{
    BinOp, UnaryOp, SpecExpr, SpecStmt, SpecTarget, SpecArm, SpecPattern, SpecParam, SpecFnDef,
    SpecField, SpecStructDef, SpecImplBlock, SpecItem, SpecType,
};
use crate::diag::type_debug_text;

verus! {

/// Model of a type error: its message and line.
pub struct SpecTypeError {
    pub message: Seq<char>,
    pub line: usize,
}

pub type Typed<T> = Result<T, SpecTypeError>;

/// A function signature: parameter names and types (without `self`), and the result type.
pub struct SpecSig {
    pub params: Seq<(Seq<char>, SpecType)>,
    pub ret: SpecType,
}

/// What the checker knows of a struct: its fields in order and its methods.
pub struct SpecStructInfo {
    pub fields: Seq<(Seq<char>, SpecType)>,
    pub methods: Seq<(Seq<char>, SpecSig)>,
}

/// The checker's state. Scopes are innermost last; each scope holds its
/// bindings (name, type, mutable) in the order they were declared.
pub struct Env {
    pub scopes: Seq<Seq<(Seq<char>, (SpecType, bool))>>,
    pub functions: Seq<(Seq<char>, SpecSig)>,
    pub structs: Seq<(Seq<char>, SpecStructInfo)>,
    pub current_ret: Option<SpecType>,
    pub returned: bool,
}

/// A statement-level outcome: the state afterwards and whether checking succeeded.
pub type Checked = (Env, Typed<()>);

pub open spec fn terr<T>(message: Seq<char>, line: usize) -> Typed<T> {
    Err(SpecTypeError { message, line })
}

// ─── Lookups ─────────────────────────────────────────────────────────────────

/// The value of the last of the first `n` entries named `name` (a map where a
/// later insertion replaces an earlier one).
pub open spec fn find_last_upto<V>(s: Seq<(Seq<char>, V)>, name: Seq<char>, n: int) -> Option<V>
    decreases n,
{
    if n <= 0 || n > s.len() {
        None
    } else if s[n - 1].0 == name {
        Some(s[n - 1].1)
    } else {
        find_last_upto(s, name, n - 1)
    }
}

pub open spec fn find_last<V>(s: Seq<(Seq<char>, V)>, name: Seq<char>) -> Option<V> {
    find_last_upto(s, name, s.len() as int)
}

/// Index of the last entry named `name`, or -1.
pub open spec fn index_last_upto<V>(s: Seq<(Seq<char>, V)>, name: Seq<char>, n: int) -> int
    decreases n,
{
    if n <= 0 || n > s.len() {
        -1
    } else if s[n - 1].0 == name {
        n - 1
    } else {
        index_last_upto(s, name, n - 1)
    }
}

/// The value of the first entry named `name` at or after index `i`.
pub open spec fn find_first_from<V>(s: Seq<(Seq<char>, V)>, name: Seq<char>, i: int) -> Option<V>
    decreases s.len() - i,
{
    if i < 0 || i >= s.len() {
        None
    } else if s[i].0 == name {
        Some(s[i].1)
    } else {
        find_first_from(s, name, i + 1)
    }
}

pub open spec fn find_first<V>(s: Seq<(Seq<char>, V)>, name: Seq<char>) -> Option<V> {
    find_first_from(s, name, 0)
}

/// A variable in the first `n` scopes, innermost first.
pub open spec fn lookup_upto(
    scopes: Seq<Seq<(Seq<char>, (SpecType, bool))>>,
    name: Seq<char>,
    n: int,
) -> Option<(SpecType, bool)>
    decreases n,
{
    if n <= 0 || n > scopes.len() {
        None
    } else {
        match find_last(scopes[n - 1], name) {
            Some(b) => Some(b),
            None => lookup_upto(scopes, name, n - 1),
        }
    }
}

pub open spec fn lookup_var(env: Env, name: Seq<char>) -> Option<(SpecType, bool)> {
    lookup_upto(env.scopes, name, env.scopes.len() as int)
}

// ─── State changes ───────────────────────────────────────────────────────────

pub open spec fn push_scope(env: Env) -> Env {
    Env { scopes: env.scopes.push(Seq::empty()), ..env }
}

pub open spec fn pop_scope(env: Env) -> Env {
    if env.scopes.len() == 0 {
        env
    } else {
        Env { scopes: env.scopes.drop_last(), ..env }
    }
}

/// Binds `name` in the innermost scope.
pub open spec fn declare(env: Env, name: Seq<char>, ty: SpecType, mutable: bool) -> Env {
    if env.scopes.len() == 0 {
        env
    } else {
        Env {
            scopes: env.scopes.update(
                env.scopes.len() - 1,
                env.scopes.last().push((name, (ty, mutable))),
            ),
            ..env
        }
    }
}

// ─── Text of messages ────────────────────────────────────────────────────────

pub open spec fn digit_char(d: nat) -> char {
    if d == 0 { '0' } else if d == 1 { '1' } else if d == 2 { '2' } else if d == 3 { '3' }
    else if d == 4 { '4' } else if d == 5 { '5' } else if d == 6 { '6' } else if d == 7 { '7' }
    else if d == 8 { '8' } else { '9' }
}

/// Decimal text of a number, as `{}` formats it.
pub open spec fn dec_text(n: nat) -> Seq<char>
    decreases n,
{
    if n < 10 {
        seq![digit_char(n)]
    } else {
        dec_text(n / 10).push(digit_char(n % 10))
    }
}

pub open spec fn dbg(t: SpecType) -> Seq<char> {
    type_debug_text(t)
}

// ─── Type relations ──────────────────────────────────────────────────────────

pub open spec fn is_numeric(t: SpecType) -> bool {
    t is I32 || t is I64 || t is F64
}

/// `got` may be stored where `expected` is wanted: the same type, `T` into
/// `?T`, or `none` into any optional.
pub open spec fn assignable(got: SpecType, expected: SpecType) -> bool {
    ||| got == expected
    ||| (expected matches SpecType::Optional(inner) && got == *inner)
    ||| (got == SpecType::Optional(Box::new(SpecType::Void)) && expected is Optional)
}

pub open spec fn castable(from: SpecType, to: SpecType) -> bool {
    (is_numeric(from) || from is Bool) && is_numeric(to)
}

pub open spec fn chk_type(got: SpecType, expected: SpecType, line: usize) -> Typed<()> {
    if got == expected {
        Ok(())
    } else {
        terr("expected "@ + dbg(expected) + ", got "@ + dbg(got), line)
    }
}

pub open spec fn chk_same(a: SpecType, b: SpecType, line: usize) -> Typed<()> {
    if a == b {
        Ok(())
    } else {
        terr("type mismatch: "@ + dbg(a) + " vs "@ + dbg(b), line)
    }
}

/// Whether `==` and `!=` accept operands of these types: equal types, or an
/// optional compared with `none`.
pub open spec fn comparable(a: SpecType, b: SpecType) -> bool {
    ||| a == b
    ||| (a is Optional && b == SpecType::Optional(Box::new(SpecType::Void)))
    ||| (a == SpecType::Optional(Box::new(SpecType::Void)) && b is Optional)
}

pub open spec fn chk_comparable(a: SpecType, b: SpecType, line: usize) -> Typed<()> {
    if comparable(a, b) {
        Ok(())
    } else {
        terr("type mismatch: "@ + dbg(a) + " vs "@ + dbg(b), line)
    }
}

pub open spec fn chk_assignable(got: SpecType, expected: SpecType, line: usize) -> Typed<()> {
    if assignable(got, expected) {
        Ok(())
    } else {
        terr("cannot assign "@ + dbg(got) + " to "@ + dbg(expected), line)
    }
}

pub open spec fn chk_numeric(t: SpecType, line: usize) -> Typed<()> {
    if is_numeric(t) {
        Ok(())
    } else {
        terr("expected numeric type, got "@ + dbg(t), line)
    }
}

pub open spec fn chk_castable(from: SpecType, to: SpecType, line: usize) -> Typed<()> {
    if castable(from, to) {
        Ok(())
    } else {
        terr("cannot cast "@ + dbg(from) + " to "@ + dbg(to), line)
    }
}

// ─── Expressions ─────────────────────────────────────────────────────────────

/// The type of a binary operation on operands of types `lt` and `rt`.
pub open spec fn t_binop(op: BinOp, lt: SpecType, rt: SpecType, line: usize) -> Typed<SpecType> {
    match op {
        BinOp::And | BinOp::Or => match chk_type(lt, SpecType::Bool, line) {
            Err(e) => Err(e),
            Ok(_) => match chk_type(rt, SpecType::Bool, line) {
                Err(e) => Err(e),
                Ok(_) => Ok(SpecType::Bool),
            },
        },
        BinOp::Eq | BinOp::NotEq => match chk_comparable(lt, rt, line) {
            Err(e) => Err(e),
            Ok(_) => Ok(SpecType::Bool),
        },
        BinOp::Lt | BinOp::Gt | BinOp::LtEq | BinOp::GtEq => match chk_numeric(lt, line) {
            Err(e) => Err(e),
            Ok(_) => match chk_same(lt, rt, line) {
                Err(e) => Err(e),
                Ok(_) => Ok(SpecType::Bool),
            },
        },
        _ => if op == BinOp::Add && lt == SpecType::Str && rt == SpecType::Str {
            Ok(SpecType::Str)
        } else {
            match chk_numeric(lt, line) {
                Err(e) => Err(e),
                Ok(_) => match chk_same(lt, rt, line) {
                    Err(e) => Err(e),
                    Ok(_) => Ok(lt),
                },
            }
        },
    }
}

/// The type of `obj.field` for an object of type `obj_ty`.
pub open spec fn t_field(env: Env, obj_ty: SpecType, field: Seq<char>, line: usize) -> Typed<SpecType> {
    match obj_ty {
        SpecType::Named(sn) => match find_last(env.structs, sn) {
            None => terr("undefined struct '"@ + sn + "'"@, line),
            Some(info) => match find_first(info.fields, field) {
                Some(ty) => Ok(ty),
                None => terr("no field '"@ + field + "' on struct '"@ + sn + "'"@, line),
            },
        },
        _ => if obj_ty is Array && field == "length"@ {
            Ok(SpecType::I32)
        } else {
            terr("cannot access field '"@ + field + "' on "@ + dbg(obj_ty), line)
        },
    }
}

/// Whether an array receiver may be changed: a mutable variable.
pub open spec fn array_obj_mutable(env: Env, obj: SpecExpr) -> bool {
    match obj {
        SpecExpr::Ident(name, _) => match lookup_var(env, name) {
            Some((_, m)) => m,
            None => false,
        },
        _ => false,
    }
}

/// Whether an assignment through `obj` is allowed: a mutable variable, or any
/// other expression.
pub open spec fn expr_is_mutable(env: Env, obj: SpecExpr) -> bool {
    match obj {
        SpecExpr::Ident(name, _) => match lookup_var(env, name) {
            Some((_, m)) => m,
            None => false,
        },
        _ => true,
    }
}

/// The type of an expression.
pub open spec fn t_expr(env: Env, e: SpecExpr) -> Typed<SpecType>
    decreases e, 0int,
{
    match e {
        SpecExpr::Int(_, _) => Ok(SpecType::I32),
        SpecExpr::Float(_, _) => Ok(SpecType::F64),
        SpecExpr::Bool(_, _) => Ok(SpecType::Bool),
        SpecExpr::Str(_, _) => Ok(SpecType::Str),
        SpecExpr::NoneLit(_) => Ok(SpecType::Optional(Box::new(SpecType::Void))),
        SpecExpr::Array(elems, line) => if elems.len() == 0 {
            Ok(SpecType::Array(Box::new(SpecType::Void)))
        } else {
            match t_expr(env, elems[0]) {
                Err(err) => Err(err),
                Ok(first) => match t_elems_same(env, elems, 1, first, line) {
                    Err(err) => Err(err),
                    Ok(_) => Ok(SpecType::Array(Box::new(first))),
                },
            }
        },
        SpecExpr::Tuple(elems, _) => match t_exprs(env, elems, 0) {
            Err(err) => Err(err),
            Ok(tys) => Ok(SpecType::Tuple(tys)),
        },
        SpecExpr::Range { start, end, line, .. } => match t_expr(env, *start) {
            Err(err) => Err(err),
            Ok(s) => match t_expr(env, *end) {
                Err(err) => Err(err),
                Ok(t) => match chk_type(s, SpecType::I32, line) {
                    Err(err) => Err(err),
                    Ok(_) => match chk_type(t, SpecType::I32, line) {
                        Err(err) => Err(err),
                        Ok(_) => Ok(SpecType::Range),
                    },
                },
            },
        },
        SpecExpr::Ident(name, line) => match lookup_var(env, name) {
            Some((ty, _)) => Ok(ty),
            None => terr("undefined variable '"@ + name + "'"@, line),
        },
        SpecExpr::BinOp { op, left, right, line } => match t_expr(env, *left) {
            Err(err) => Err(err),
            Ok(lt) => match t_expr(env, *right) {
                Err(err) => Err(err),
                Ok(rt) => t_binop(op, lt, rt, line),
            },
        },
        SpecExpr::UnaryOp { op, operand, line } => match t_expr(env, *operand) {
            Err(err) => Err(err),
            Ok(ty) => match op {
                UnaryOp::Neg => match chk_numeric(ty, line) {
                    Err(err) => Err(err),
                    Ok(_) => Ok(ty),
                },
                UnaryOp::Not => match chk_type(ty, SpecType::Bool, line) {
                    Err(err) => Err(err),
                    Ok(_) => Ok(SpecType::Bool),
                },
            },
        },
        SpecExpr::Cast { expr, ty, line } => match t_expr(env, *expr) {
            Err(err) => Err(err),
            Ok(from) => match chk_castable(from, ty, line) {
                Err(err) => Err(err),
                Ok(_) => Ok(ty),
            },
        },
        SpecExpr::FieldAccess { obj, field, line } => match t_expr(env, *obj) {
            Err(err) => Err(err),
            Ok(ot) => t_field(env, ot, field, line),
        },
        SpecExpr::Index { obj, index, line } => match t_expr(env, *obj) {
            Err(err) => Err(err),
            Ok(ot) => match t_expr(env, *index) {
                Err(err) => Err(err),
                Ok(it) => match chk_type(it, SpecType::I32, line) {
                    Err(err) => Err(err),
                    Ok(_) => match ot {
                        SpecType::Array(inner) => Ok(*inner),
                        SpecType::Str => Ok(SpecType::Str),
                        _ => terr("cannot index into "@ + dbg(ot), line),
                    },
                },
            },
        },
        SpecExpr::Call { name, args, line } => t_call(env, name, args, line),
        SpecExpr::MethodCall { obj, method, args, line } => match t_expr(env, *obj) {
            Err(err) => Err(err),
            Ok(ot) => match ot {
                SpecType::Array(inner) => t_array_method(
                    env,
                    *inner,
                    method,
                    args,
                    line,
                    array_obj_mutable(env, *obj),
                ),
                SpecType::Named(sn) => match method_sig(env, sn, method) {
                    None => terr("no method '"@ + method + "' on '"@ + sn + "'"@, line),
                    Some(sig) => match t_args(env, sig.params, args, line) {
                        Err(err) => Err(err),
                        Ok(_) => Ok(sig.ret),
                    },
                },
                _ => terr("cannot call method on "@ + dbg(ot), line),
            },
        },
        SpecExpr::StructLit { name, fields, line } => match find_last(env.structs, name) {
            None => terr("undefined struct '"@ + name + "'"@, line),
            Some(info) => match t_lit_fields(env, info.fields, 0, fields, name, line) {
                Err(err) => Err(err),
                Ok(_) => match lit_known_fields(info.fields, fields, 0, name, line) {
                    Err(err) => Err(err),
                    Ok(_) => Ok(SpecType::Named(name)),
                },
            },
        },
        SpecExpr::If { cond, then, else_, line } => match t_expr(env, *cond) {
            Err(err) => Err(err),
            Ok(ct) => match chk_type(ct, SpecType::Bool, line) {
                Err(err) => Err(err),
                Ok(_) => match t_tail(env, then) {
                    Err(err) => Err(err),
                    Ok(then_ty) => match else_ {
                        None => Ok(SpecType::Void),
                        Some(es) => match t_tail(env, es) {
                            Err(err) => Err(err),
                            Ok(else_ty) => match (then_ty, else_ty) {
                                (Some(a), Some(b)) => match chk_same(a, b, line) {
                                    Err(err) => Err(err),
                                    Ok(_) => Ok(a),
                                },
                                _ => Ok(SpecType::Void),
                            },
                        },
                    },
                },
            },
        },
        SpecExpr::Match { subject, arms, line } => match t_expr(env, *subject) {
            Err(err) => Err(err),
            Ok(st) => match t_arms(env, arms, 0, st, line, None) {
                Err(err) => Err(err),
                Ok(r) => match r {
                    Some(t) => Ok(t),
                    None => Ok(SpecType::Void),
                },
            },
        },
    }
}

/// The elements from index `i` on all have the type `first`.
pub open spec fn t_elems_same(env: Env, elems: Seq<SpecExpr>, i: int, first: SpecType, line: usize) -> Typed<()>
    decreases elems, elems.len() - i,
{
    if i < 0 || i >= elems.len() {
        Ok(())
    } else {
        match t_expr(env, elems[i]) {
            Err(err) => Err(err),
            Ok(t) => match chk_same(t, first, line) {
                Err(err) => Err(err),
                Ok(_) => t_elems_same(env, elems, i + 1, first, line),
            },
        }
    }
}

/// The types of the expressions from index `i` on.
pub open spec fn t_exprs(env: Env, elems: Seq<SpecExpr>, i: int) -> Typed<Seq<SpecType>>
    decreases elems, elems.len() - i,
{
    if i < 0 || i >= elems.len() {
        Ok(Seq::empty())
    } else {
        match t_expr(env, elems[i]) {
            Err(err) => Err(err),
            Ok(t) => match t_exprs(env, elems, i + 1) {
                Err(err) => Err(err),
                Ok(ts) => Ok(seq![t] + ts),
            },
        }
    }
}

/// The type of the last expression of a block, if the block ends with one.
pub open spec fn t_tail(env: Env, stmts: Seq<SpecStmt>) -> Typed<Option<SpecType>>
    decreases stmts, 0int,
{
    if stmts.len() == 0 {
        Ok(None)
    } else {
        match stmts[stmts.len() - 1] {
            SpecStmt::Expr(e) => match t_expr(env, e) {
                Err(err) => Err(err),
                Ok(t) => Ok(Some(t)),
            },
            _ => Ok(None),
        }
    }
}

/// Match arms from index `i` on, with `acc` the arm type found so far.
pub open spec fn t_arms(
    env: Env,
    arms: Seq<SpecArm>,
    i: int,
    st: SpecType,
    line: usize,
    acc: Option<SpecType>,
) -> Typed<Option<SpecType>>
    decreases arms, arms.len() - i,
{
    if i < 0 || i >= arms.len() {
        Ok(acc)
    } else {
        match t_pattern(env, arms[i].pattern, st, line) {
            Err(err) => Err(err),
            Ok(_) => match t_tail(env, arms[i].body) {
                Err(err) => Err(err),
                Ok(arm_ty) => match (acc, arm_ty) {
                    (None, Some(t)) => t_arms(env, arms, i + 1, st, line, Some(t)),
                    (Some(ex), Some(t)) => match chk_same(ex, t, line) {
                        Err(err) => Err(err),
                        Ok(_) => t_arms(env, arms, i + 1, st, line, acc),
                    },
                    _ => t_arms(env, arms, i + 1, st, line, acc),
                },
            },
        }
    }
}

/// A call of a free function.
pub open spec fn t_call(env: Env, name: Seq<char>, args: Seq<SpecExpr>, line: usize) -> Typed<SpecType>
    decreases args, args.len() + 2,
{
    if name == "len"@ {
        if args.len() != 1 {
            terr("len() takes exactly 1 argument"@, line)
        } else {
            match t_expr(env, args[0]) {
                Err(err) => Err(err),
                Ok(t) => if t is Array || t is Str {
                    Ok(SpecType::I32)
                } else {
                    terr("len() expects array or str, got "@ + dbg(t), line)
                },
            }
        }
    } else if name == "print"@ {
        if args.len() != 1 {
            terr("print() takes exactly 1 argument"@, line)
        } else {
            match t_expr(env, args[0]) {
                Err(err) => Err(err),
                Ok(_) => Ok(SpecType::Void),
            }
        }
    } else if name == "str"@ {
        if args.len() != 1 {
            terr("str() takes exactly 1 argument"@, line)
        } else {
            match t_expr(env, args[0]) {
                Err(err) => Err(err),
                Ok(_) => Ok(SpecType::Str),
            }
        }
    } else {
        match find_last(env.functions, name) {
            None => terr("undefined function '"@ + name + "'"@, line),
            Some(sig) => match t_args(env, sig.params, args, line) {
                Err(err) => Err(err),
                Ok(_) => Ok(sig.ret),
            },
        }
    }
}

/// Arguments against parameters: the count, then each argument in turn.
pub open spec fn t_args(env: Env, params: Seq<(Seq<char>, SpecType)>, args: Seq<SpecExpr>, line: usize) -> Typed<()>
    decreases args, args.len() + 1,
{
    if args.len() != params.len() {
        terr(
            "expected "@ + dec_text(params.len()) + " argument(s), got "@ + dec_text(args.len()),
            line,
        )
    } else {
        t_args_from(env, params, args, 0, line)
    }
}

pub open spec fn t_args_from(
    env: Env,
    params: Seq<(Seq<char>, SpecType)>,
    args: Seq<SpecExpr>,
    i: int,
    line: usize,
) -> Typed<()>
    decreases args, args.len() - i,
{
    if i < 0 || i >= args.len() || i >= params.len() {
        Ok(())
    } else {
        match t_expr(env, args[i]) {
            Err(err) => Err(err),
            Ok(at) => match chk_assignable(at, params[i].1, line) {
                Err(err) => Err(err),
                Ok(_) => t_args_from(env, params, args, i + 1, line),
            },
        }
    }
}

/// A built-in method of an array whose elements have type `elem`.
pub open spec fn t_array_method(
    env: Env,
    elem: SpecType,
    method: Seq<char>,
    args: Seq<SpecExpr>,
    line: usize,
    mutable: bool,
) -> Typed<SpecType>
    decreases args, args.len() + 1,
{
    if method == "length"@ && args.len() == 0 {
        Ok(SpecType::I32)
    } else if method == "push"@ && args.len() == 1 {
        if !mutable {
            terr("push() requires a mutable array"@, line)
        } else {
            match t_expr(env, args[0]) {
                Err(err) => Err(err),
                Ok(at) => match chk_assignable(at, elem, line) {
                    Err(err) => Err(err),
                    Ok(_) => Ok(SpecType::Void),
                },
            }
        }
    } else if method == "pop"@ && args.len() == 0 {
        if !mutable {
            terr("pop() requires a mutable array"@, line)
        } else {
            Ok(SpecType::Optional(Box::new(elem)))
        }
    } else if method == "contains"@ && args.len() == 1 {
        if elem is Array {
            terr("contains() does not support array elements yet"@, line)
        } else {
            match t_expr(env, args[0]) {
                Err(err) => Err(err),
                Ok(at) => match chk_same(at, elem, line) {
                    Err(err) => Err(err),
                    Ok(_) => Ok(SpecType::Bool),
                },
            }
        }
    } else {
        terr("no method '"@ + method + "' on array"@, line)
    }
}

/// The signature of method `method` of struct `sn`.
pub open spec fn method_sig(env: Env, sn: Seq<char>, method: Seq<char>) -> Option<SpecSig> {
    match find_last(env.structs, sn) {
        None => None,
        Some(info) => find_last(info.methods, method),
    }
}

/// Declared fields from index `i` on: each must be given (the last value given
/// for a name counts) with a value of an assignable type.
pub open spec fn t_lit_fields(
    env: Env,
    decl: Seq<(Seq<char>, SpecType)>,
    i: int,
    given: Seq<(Seq<char>, SpecExpr)>,
    sname: Seq<char>,
    line: usize,
) -> Typed<()>
    decreases given, decl.len() - i,
{
    if i < 0 || i >= decl.len() {
        Ok(())
    } else {
        let k = index_last_upto(given, decl[i].0, given.len() as int);
        if k < 0 || k >= given.len() {
            terr("missing field '"@ + decl[i].0 + "' in '"@ + sname + "' literal"@, line)
        } else {
            proof {
                assert(decreases_to!(given => given[k]));
            }
            match t_expr(env, given[k].1) {
                Err(err) => Err(err),
                Ok(vt) => match chk_assignable(vt, decl[i].1, line) {
                    Err(err) => Err(err),
                    Ok(_) => t_lit_fields(env, decl, i + 1, given, sname, line),
                },
            }
        }
    }
}

/// Every given field from index `i` on is a declared one.
pub open spec fn lit_known_fields(
    decl: Seq<(Seq<char>, SpecType)>,
    given: Seq<(Seq<char>, SpecExpr)>,
    i: int,
    sname: Seq<char>,
    line: usize,
) -> Typed<()>
    decreases given.len() - i,
{
    if i < 0 || i >= given.len() {
        Ok(())
    } else if find_first(decl, given[i].0) is None {
        terr("unknown field '"@ + given[i].0 + "' in struct '"@ + sname + "'"@, line)
    } else {
        lit_known_fields(decl, given, i + 1, sname, line)
    }
}

// ─── Patterns ────────────────────────────────────────────────────────────────

/// A pattern against a subject of type `st`.
pub open spec fn t_pattern(env: Env, p: SpecPattern, st: SpecType, line: usize) -> Typed<()>
    decreases p, 0int,
{
    match p {
        SpecPattern::Wildcard | SpecPattern::Binding(_) => Ok(()),
        SpecPattern::Int(_) => chk_type(st, SpecType::I32, line),
        SpecPattern::Float(_) => chk_type(st, SpecType::F64, line),
        SpecPattern::Bool(_) => chk_type(st, SpecType::Bool, line),
        SpecPattern::Str(_) => chk_type(st, SpecType::Str, line),
        SpecPattern::NoneLit => if st is Optional {
            Ok(())
        } else {
            terr("none pattern only matches optional types"@, line)
        },
        SpecPattern::Tuple(pats) => match st {
            SpecType::Tuple(tys) => if pats.len() != tys.len() {
                terr(
                    "tuple pattern length mismatch: "@ + dec_text(pats.len()) + " vs "@ + dec_text(tys.len()),
                    line,
                )
            } else {
                t_pats(env, pats, tys, 0, line)
            },
            _ => terr("tuple pattern requires a tuple subject"@, line),
        },
        SpecPattern::Struct { name, fields } => if st == SpecType::Named(name) {
            match find_last(env.structs, name) {
                None => terr("unknown struct '"@ + name + "'"@, line),
                Some(info) => t_field_pats(env, info.fields, fields, 0, name, line),
            }
        } else {
            terr("struct pattern '"@ + name + "' does not match subject type"@, line)
        },
    }
}

pub open spec fn t_pats(env: Env, pats: Seq<SpecPattern>, tys: Seq<SpecType>, i: int, line: usize) -> Typed<()>
    decreases pats, pats.len() - i,
{
    if i < 0 || i >= pats.len() || i >= tys.len() {
        Ok(())
    } else {
        match t_pattern(env, pats[i], tys[i], line) {
            Err(err) => Err(err),
            Ok(_) => t_pats(env, pats, tys, i + 1, line),
        }
    }
}

pub open spec fn t_field_pats(
    env: Env,
    decl: Seq<(Seq<char>, SpecType)>,
    fields: Seq<(Seq<char>, SpecPattern)>,
    i: int,
    sname: Seq<char>,
    line: usize,
) -> Typed<()>
    decreases fields, fields.len() - i,
{
    if i < 0 || i >= fields.len() {
        Ok(())
    } else {
        match find_first(decl, fields[i].0) {
            None => terr("unknown field '"@ + fields[i].0 + "' in struct '"@ + sname + "'"@, line),
            Some(ft) => match t_pattern(env, fields[i].1, ft, line) {
                Err(err) => Err(err),
                Ok(_) => t_field_pats(env, decl, fields, i + 1, sname, line),
            },
        }
    }
}

// ─── Statements ──────────────────────────────────────────────────────────────

/// The type of an assignment target and whether it may be assigned.
pub open spec fn t_target(env: Env, target: SpecTarget) -> Typed<(SpecType, bool)> {
    match target {
        SpecTarget::Ident(name, line) => match lookup_var(env, name) {
            Some(b) => Ok(b),
            None => terr("undefined variable '"@ + name + "'"@, line),
        },
        SpecTarget::Field { obj, field, line } => match t_expr(env, *obj) {
            Err(err) => Err(err),
            Ok(ot) => match t_field(env, ot, field, line) {
                Err(err) => Err(err),
                Ok(ft) => Ok((ft, expr_is_mutable(env, *obj))),
            },
        },
        SpecTarget::Index { obj, index, line } => match t_expr(env, *obj) {
            Err(err) => Err(err),
            Ok(ot) => match ot {
                SpecType::Array(inner) => match t_expr(env, *index) {
                    Err(err) => Err(err),
                    Ok(it) => match chk_type(it, SpecType::I32, line) {
                        Err(err) => Err(err),
                        Ok(_) => Ok((*inner, expr_is_mutable(env, *obj))),
                    },
                },
                _ => terr("cannot index into "@ + dbg(ot), line),
            },
        },
    }
}

/// A statement: the state afterwards and the outcome.
pub open spec fn t_stmt(env: Env, s: SpecStmt) -> Checked
    decreases s, 0int,
{
    match s {
        SpecStmt::Let { name, ty, value, mutable, line } => match t_expr(env, value) {
            Err(err) => (env, Err(err)),
            Ok(vt) => match ty {
                Some(ann) => match chk_assignable(vt, ann, line) {
                    Err(err) => (env, Err(err)),
                    Ok(_) => (declare(env, name, ann, mutable), Ok(())),
                },
                None => (declare(env, name, vt, mutable), Ok(())),
            },
        },
        SpecStmt::Assign { target, value, line } => match t_target(env, target) {
            Err(err) => (env, Err(err)),
            Ok((tt, m)) => if !m {
                (env, terr("cannot assign to immutable variable"@, line))
            } else {
                match t_expr(env, value) {
                    Err(err) => (env, Err(err)),
                    Ok(vt) => (env, chk_assignable(vt, tt, line)),
                }
            },
        },
        SpecStmt::Return { value, line } => match env.current_ret {
            None => (env, terr("return outside of function"@, line)),
            Some(rt) => {
                let vt = match value {
                    Some(v) => t_expr(env, v),
                    None => Ok(SpecType::Void),
                };
                match vt {
                    Err(err) => (env, Err(err)),
                    Ok(vt) => match chk_assignable(vt, rt, line) {
                        Err(err) => (env, Err(err)),
                        Ok(_) => (Env { returned: true, ..env }, Ok(())),
                    },
                }
            },
        },
        SpecStmt::While { cond, body, line } => match t_expr(env, cond) {
            Err(err) => (env, Err(err)),
            Ok(ct) => match chk_type(ct, SpecType::Bool, line) {
                Err(err) => (env, Err(err)),
                Ok(_) => t_block(env, body),
            },
        },
        SpecStmt::For { var, iter, body, line } => match t_expr(env, iter) {
            Err(err) => (env, Err(err)),
            Ok(it) => {
                let elem: Typed<SpecType> = match it {
                    SpecType::Array(inner) => Ok(*inner),
                    SpecType::Range => Ok(SpecType::I32),
                    _ => terr("cannot iterate over "@ + dbg(it), line),
                };
                match elem {
                    Err(err) => (env, Err(err)),
                    Ok(et) => {
                        let (e2, r) = t_block(declare(push_scope(env), var, et, false), body);
                        match r {
                            Err(err) => (e2, Err(err)),
                            Ok(_) => (pop_scope(e2), Ok(())),
                        }
                    },
                }
            },
        },
        SpecStmt::Break { .. } | SpecStmt::Continue { .. } => (env, Ok(())),
        SpecStmt::Expr(e) => match t_expr(env, e) {
            Err(err) => (env, Err(err)),
            Ok(_) => (env, Ok(())),
        },
    }
}

/// A block: a new scope, its statements in turn, and the scope dropped again
/// when all of them passed.
pub open spec fn t_block(env: Env, stmts: Seq<SpecStmt>) -> Checked
    decreases stmts, stmts.len() + 1,
{
    let (e2, r) = t_stmts(push_scope(env), stmts, 0);
    match r {
        Err(err) => (e2, Err(err)),
        Ok(_) => (pop_scope(e2), Ok(())),
    }
}

/// Statements from index `i` on, stopping at the first error.
pub open spec fn t_stmts(env: Env, stmts: Seq<SpecStmt>, i: int) -> Checked
    decreases stmts, stmts.len() - i,
{
    if i < 0 || i >= stmts.len() {
        (env, Ok(()))
    } else {
        let (e1, r) = t_stmt(env, stmts[i]);
        match r {
            Err(err) => (e1, Err(err)),
            Ok(_) => t_stmts(e1, stmts, i + 1),
        }
    }
}

// ─── Functions and items ─────────────────────────────────────────────────────

/// Binds the parameters from index `i` on, all but `self`.
pub open spec fn bind_params(env: Env, params: Seq<SpecParam>, i: int) -> Env
    decreases params.len() - i,
{
    if i < 0 || i >= params.len() {
        env
    } else if params[i].name == "self"@ {
        bind_params(env, params, i + 1)
    } else {
        bind_params(declare(env, params[i].name, params[i].ty, params[i].mutable), params, i + 1)
    }
}

/// A function body, in a method of struct `self_type` where that is given.
pub open spec fn t_fn(env: Env, f: SpecFnDef, self_type: Option<Seq<char>>) -> Checked {
    let e1 = push_scope(Env { current_ret: Some(f.ret), returned: false, ..env });
    let e2 = match self_type {
        Some(tn) => declare(
            e1,
            "self"@,
            SpecType::Named(tn),
            f.params.len() > 0 && f.params[0].mutable,
        ),
        None => e1,
    };
    let (e3, r) = t_block(bind_params(e2, f.params, 0), f.body);
    match r {
        Err(err) => (e3, Err(err)),
        Ok(_) => {
            let e4 = pop_scope(e3);
            (Env { current_ret: env.current_ret, returned: env.returned, ..e4 }, Ok(()))
        },
    }
}

/// The methods of an impl block from index `i` on.
pub open spec fn t_methods(env: Env, methods: Seq<SpecFnDef>, i: int, sname: Seq<char>) -> Checked
    decreases methods.len() - i,
{
    if i < 0 || i >= methods.len() {
        (env, Ok(()))
    } else {
        let (e1, r) = t_fn(env, methods[i], Some(sname));
        match r {
            Err(err) => (e1, Err(err)),
            Ok(_) => t_methods(e1, methods, i + 1, sname),
        }
    }
}

pub open spec fn t_item(env: Env, item: SpecItem) -> Checked {
    match item {
        SpecItem::Fn(f) => t_fn(env, f, None),
        SpecItem::Struct(_) => (env, Ok(())),
        SpecItem::Impl(b) => t_methods(env, b.methods, 0, b.struct_name),
    }
}

// ─── Signatures ──────────────────────────────────────────────────────────────

/// The parameters of a signature: all but `self`, by name and type.
pub open spec fn sig_params(params: Seq<SpecParam>) -> Seq<(Seq<char>, SpecType)>
    decreases params.len(),
{
    if params.len() == 0 {
        Seq::empty()
    } else {
        let rest = sig_params(params.drop_last());
        let p = params.last();
        if p.name == "self"@ {
            rest
        } else {
            rest.push((p.name, p.ty))
        }
    }
}

pub open spec fn sig_of(f: SpecFnDef) -> SpecSig {
    SpecSig { params: sig_params(f.params), ret: f.ret }
}

pub open spec fn field_list(fields: Seq<SpecField>) -> Seq<(Seq<char>, SpecType)> {
    fields.map_values(|f: SpecField| (f.name, f.ty))
}

pub open spec fn register_fn(env: Env, f: SpecFnDef) -> Checked {
    if find_last(env.functions, f.name) is Some {
        (env, terr("function '"@ + f.name + "' already defined"@, f.line))
    } else {
        (Env { functions: env.functions.push((f.name, sig_of(f))), ..env }, Ok(()))
    }
}

pub open spec fn register_struct(env: Env, s: SpecStructDef) -> Checked {
    if find_last(env.structs, s.name) is Some {
        (env, terr("struct '"@ + s.name + "' already defined"@, s.line))
    } else {
        let info = SpecStructInfo { fields: field_list(s.fields), methods: Seq::empty() };
        (Env { structs: env.structs.push((s.name, info)), ..env }, Ok(()))
    }
}

/// Adds method `m` to struct `sname` (the last entry of that name).
pub open spec fn add_method(env: Env, sname: Seq<char>, m: SpecFnDef) -> Env {
    let k = index_last_upto(env.structs, sname, env.structs.len() as int);
    if 0 <= k < env.structs.len() {
        let (n, info) = env.structs[k];
        let info2 = SpecStructInfo { methods: info.methods.push((m.name, sig_of(m))), ..info };
        Env { structs: env.structs.update(k, (n, info2)), ..env }
    } else {
        env
    }
}

pub open spec fn add_methods(env: Env, sname: Seq<char>, methods: Seq<SpecFnDef>, i: int) -> Env
    decreases methods.len() - i,
{
    if i < 0 || i >= methods.len() {
        env
    } else {
        add_methods(add_method(env, sname, methods[i]), sname, methods, i + 1)
    }
}

pub open spec fn register_impl(env: Env, b: SpecImplBlock) -> Checked {
    if find_last(env.structs, b.struct_name) is None {
        (env, terr("impl for unknown struct '"@ + b.struct_name + "'"@, b.line))
    } else {
        (add_methods(env, b.struct_name, b.methods, 0), Ok(()))
    }
}

pub open spec fn register_item(env: Env, item: SpecItem) -> Checked {
    match item {
        SpecItem::Fn(f) => register_fn(env, f),
        SpecItem::Struct(s) => register_struct(env, s),
        SpecItem::Impl(b) => register_impl(env, b),
    }
}

/// The first pass: every item's signature, in order, stopping at the first error.
pub open spec fn collect_from(env: Env, items: Seq<SpecItem>, i: int) -> Checked
    decreases items.len() - i,
{
    if i < 0 || i >= items.len() {
        (env, Ok(()))
    } else {
        let (e1, r) = register_item(env, items[i]);
        match r {
            Err(err) => (e1, Err(err)),
            Ok(_) => collect_from(e1, items, i + 1),
        }
    }
}

/// The second pass: every item's bodies, in order, stopping at the first error.
pub open spec fn check_items_from(env: Env, items: Seq<SpecItem>, i: int) -> Checked
    decreases items.len() - i,
{
    if i < 0 || i >= items.len() {
        (env, Ok(()))
    } else {
        let (e1, r) = t_item(env, items[i]);
        match r {
            Err(err) => (e1, Err(err)),
            Ok(_) => check_items_from(e1, items, i + 1),
        }
    }
}

/// A whole program: signatures first, then bodies.
pub open spec fn t_program(env: Env, items: Seq<SpecItem>) -> Checked {
    let (e1, r) = collect_from(env, items, 0);
    match r {
        Err(err) => (e1, Err(err)),
        Ok(_) => check_items_from(e1, items, 0),
    }
}

/// A signature with one parameter `x` of type `ty`.
pub open spec fn unary_sig(ty: SpecType, ret: SpecType) -> SpecSig {
    SpecSig { params: seq![("x"@, ty)], ret }
}

/// The functions every program can call.
pub open spec fn builtin_sigs() -> Seq<(Seq<char>, SpecSig)> {
    seq![
        ("print"@, unary_sig(SpecType::Str, SpecType::Void)),
        ("input"@, SpecSig { params: Seq::empty(), ret: SpecType::Str }),
        ("len"@, unary_sig(SpecType::Str, SpecType::I32)),
        ("str"@, unary_sig(SpecType::I32, SpecType::Str)),
        ("int"@, unary_sig(SpecType::Str, SpecType::I32)),
        ("float"@, unary_sig(SpecType::Str, SpecType::F64)),
        ("sqrt"@, unary_sig(SpecType::F64, SpecType::F64)),
    ]
}

/// The state of a new checker: one empty scope and the built-in functions.
pub open spec fn initial_env() -> Env {
    Env {
        scopes: seq![Seq::empty()],
        functions: builtin_sigs(),
        structs: Seq::empty(),
        current_ret: None,
        returned: false,
    }
}

/// Replacing the value of an entry keeps every index lookup.
pub proof fn lemma_index_last_update<V>(s: Seq<(Seq<char>, V)>, k: int, v: V, name: Seq<char>, n: int)
    requires
        0 <= k < s.len(),
    ensures
        index_last_upto(s.update(k, (s[k].0, v)), name, n) == index_last_upto(s, name, n),
    decreases n,
{
    if n > 0 && n <= s.len() {
        lemma_index_last_update(s, k, v, name, n - 1);
    }
}

// ─── Laws ────────────────────────────────────────────────────────────────────

/// The state a statement check may change: the innermost scope and the
/// `returned` flag.
pub open spec fn same_outer(a: Env, b: Env) -> bool {
    &&& a.functions == b.functions
    &&& a.structs == b.structs
    &&& a.current_ret == b.current_ret
    &&& a.scopes.len() == b.scopes.len()
    &&& a.scopes.drop_last() == b.scopes.drop_last()
}

/// A statement that checks changes nothing but the innermost scope (and
/// whether a return was seen).
pub proof fn lemma_stmt_frame(env: Env, s: SpecStmt)
    requires
        env.scopes.len() >= 1,
    ensures
        t_stmt(env, s).1 is Ok ==> same_outer(t_stmt(env, s).0, env),
    decreases s, 0int,
{
    match s {
        SpecStmt::Let { name, ty, value, mutable, line } => {
            let r = t_stmt(env, s);
            if r.1 is Ok {
                assert(r.0.scopes.drop_last() =~= env.scopes.drop_last());
            }
        },
        SpecStmt::While { cond, body, line } => {
            lemma_block_frame(env, body);
        },
        SpecStmt::For { var, iter, body, line } => {
            match t_expr(env, iter) {
                Ok(it) => {
                    let elem: Typed<SpecType> = match it {
                        SpecType::Array(inner) => Ok(*inner),
                        SpecType::Range => Ok(SpecType::I32),
                        _ => terr("cannot iterate over "@ + dbg(it), line),
                    };
                    match elem {
                        Ok(et) => {
                            let e1 = declare(push_scope(env), var, et, false);
                            lemma_block_frame(e1, body);
                            assert(e1.scopes.drop_last() =~= env.scopes);
                        },
                        Err(_) => {},
                    }
                },
                Err(_) => {},
            }
        },
        _ => {},
    }
}

/// A block that checks leaves everything but the `returned` flag as it was.
pub proof fn lemma_block_frame(env: Env, stmts: Seq<SpecStmt>)
    ensures
        t_block(env, stmts).1 is Ok ==> t_block(env, stmts).0 == (Env { returned: t_block(env, stmts).0.returned, ..env }),
    decreases stmts, stmts.len() + 1,
{
    let e1 = push_scope(env);
    lemma_stmts_frame(e1, stmts, 0);
    let (e2, r) = t_stmts(e1, stmts, 0);
    if r is Ok {
        assert(e2.scopes.drop_last() =~= env.scopes);
        assert(pop_scope(e2).scopes =~= env.scopes);
    }
}

pub proof fn lemma_stmts_frame(env: Env, stmts: Seq<SpecStmt>, i: int)
    requires
        env.scopes.len() >= 1,
    ensures
        t_stmts(env, stmts, i).1 is Ok ==> same_outer(t_stmts(env, stmts, i).0, env),
    decreases stmts, stmts.len() - i,
{
    if 0 <= i < stmts.len() {
        lemma_stmt_frame(env, stmts[i]);
        let (e1, r) = t_stmt(env, stmts[i]);
        if r is Ok {
            lemma_stmts_frame(e1, stmts, i + 1);
        }
    }
}

/// Parameter binding changes only the innermost scope.
pub proof fn lemma_bind_params_frame(env: Env, params: Seq<SpecParam>, i: int)
    requires
        env.scopes.len() >= 1,
    ensures
        same_outer(bind_params(env, params, i), env),
        bind_params(env, params, i).returned == env.returned,
    decreases params.len() - i,
{
    if 0 <= i < params.len() {
        if params[i].name == "self"@ {
            lemma_bind_params_frame(env, params, i + 1);
        } else {
            let e1 = declare(env, params[i].name, params[i].ty, params[i].mutable);
            assert(e1.scopes.drop_last() =~= env.scopes.drop_last());
            lemma_bind_params_frame(e1, params, i + 1);
        }
    }
}

/// Checking a function or method body that passes leaves the checker exactly
/// as it found it.
pub proof fn lemma_fn_check_restores(env: Env, f: SpecFnDef, self_type: Option<Seq<char>>)
    ensures
        t_fn(env, f, self_type).1 is Ok ==> t_fn(env, f, self_type).0 == env,
{
    let e1 = push_scope(Env { current_ret: Some(f.ret), returned: false, ..env });
    let e2 = match self_type {
        Some(tn) => declare(e1, "self"@, SpecType::Named(tn), f.params.len() > 0 && f.params[0].mutable),
        None => e1,
    };
    assert(e2.scopes.drop_last() =~= env.scopes);
    lemma_bind_params_frame(e2, f.params, 0);
    let e3 = bind_params(e2, f.params, 0);
    lemma_block_frame(e3, f.body);
    let (e4, r) = t_block(e3, f.body);
    if r is Ok {
        assert(pop_scope(e4).scopes =~= env.scopes);
    }
}

pub proof fn lemma_methods_check_restores(env: Env, methods: Seq<SpecFnDef>, i: int, sname: Seq<char>)
    ensures
        t_methods(env, methods, i, sname).1 is Ok ==> t_methods(env, methods, i, sname).0 == env,
    decreases methods.len() - i,
{
    if 0 <= i < methods.len() {
        lemma_fn_check_restores(env, methods[i], Some(sname));
        let (e1, r) = t_fn(env, methods[i], Some(sname));
        if r is Ok {
            lemma_methods_check_restores(e1, methods, i + 1, sname);
        }
    }
}

/// Checking bodies that pass changes nothing: a program that checks leaves
/// the checker holding exactly the signatures its first pass collected.
pub proof fn lemma_program_check_keeps_signatures(env: Env, items: Seq<SpecItem>)
    ensures
        t_program(env, items).1 is Ok ==> t_program(env, items).0 == collect_from(env, items, 0).0,
{
    let (e1, r) = collect_from(env, items, 0);
    if r is Ok {
        lemma_items_check_restores(e1, items, 0);
    }
}

pub proof fn lemma_items_check_restores(env: Env, items: Seq<SpecItem>, i: int)
    ensures
        check_items_from(env, items, i).1 is Ok ==> check_items_from(env, items, i).0 == env,
    decreases items.len() - i,
{
    if 0 <= i < items.len() {
        match items[i] {
            SpecItem::Fn(f) => lemma_fn_check_restores(env, f, None),
            SpecItem::Struct(_) => {},
            SpecItem::Impl(b) => lemma_methods_check_restores(env, b.methods, 0, b.struct_name),
        }
        let (e1, r) = t_item(env, items[i]);
        if r is Ok {
            lemma_items_check_restores(e1, items, i + 1);
        }
    }
}


/// Declares each variable of `ds` in turn, in the innermost scope.
pub open spec fn declare_all(env: Env, ds: Seq<(Seq<char>, SpecType, bool)>) -> Env
    decreases ds.len(),
{
    if ds.len() == 0 {
        env
    } else {
        let d = ds.last();
        declare(declare_all(env, ds.drop_last()), d.0, d.1, d.2)
    }
}

proof fn lemma_declare_all_inside(env: Env, ds: Seq<(Seq<char>, SpecType, bool)>)
    ensures
        declare_all(push_scope(env), ds).scopes.len() == env.scopes.len() + 1,
        forall|i: int| 0 <= i < env.scopes.len() ==> #[trigger] declare_all(push_scope(env), ds).scopes[i] == env.scopes[i],
        (Env { scopes: env.scopes, ..declare_all(push_scope(env), ds) }) == env,
    decreases ds.len(),
{
    if ds.len() > 0 {
        lemma_declare_all_inside(env, ds.drop_last());
    }
}

/// Leaving a scope undoes everything declared in it: entering a scope,
/// declaring any variables in it and leaving it again gives back the checker
/// state as it was, so every name looks up as before.
pub proof fn lemma_scope_pop_restores(env: Env, ds: Seq<(Seq<char>, SpecType, bool)>)
    ensures
        pop_scope(declare_all(push_scope(env), ds)) == env,
{
    lemma_declare_all_inside(env, ds);
    let inside = declare_all(push_scope(env), ds);
    assert(inside.scopes.drop_last() =~= env.scopes);
}

// ─── Laws on scopes, parameters and `if` ─────────────────────────────────────

proof fn lemma_find_last_push<V>(s: Seq<(Seq<char>, V)>, p: (Seq<char>, V), x: Seq<char>, n: int)
    requires
        0 <= n <= s.len(),
    ensures
        find_last_upto(s.push(p), x, n) == find_last_upto(s, x, n),
    decreases n,
{
    if n > 0 {
        lemma_find_last_push(s, p, x, n - 1);
    }
}

proof fn lemma_lookup_prefix(a: Seq<Seq<(Seq<char>, (SpecType, bool))>>, b: Seq<Seq<(Seq<char>, (SpecType, bool))>>, x: Seq<char>, n: int)
    requires
        0 <= n <= a.len(),
        n <= b.len(),
        forall|j: int| 0 <= j < n ==> a[j] == b[j],
    ensures
        lookup_upto(a, x, n) == lookup_upto(b, x, n),
    decreases n,
{
    if n > 0 {
        lemma_lookup_prefix(a, b, x, n - 1);
    }
}

/// A declaration in the innermost scope: the declared name gets the declared
/// type and mutability, every other name keeps what it had.
pub proof fn law_declare_lookup(env: Env, name: Seq<char>, ty: SpecType, mutable: bool, x: Seq<char>)
    requires
        env.scopes.len() >= 1,
    ensures
        lookup_var(declare(env, name, ty, mutable), x) == if x == name {
            Some((ty, mutable))
        } else {
            lookup_var(env, x)
        },
{
    let n = env.scopes.len() as int;
    let e2 = declare(env, name, ty, mutable);
    let top = env.scopes[n - 1];
    assert(e2.scopes[n - 1] == top.push((name, (ty, mutable))));
    lemma_lookup_prefix(e2.scopes, env.scopes, x, n - 1);
    if x != name {
        lemma_find_last_push(top, (name, (ty, mutable)), x, top.len() as int);
    }
}

/// A new innermost scope hides nothing: every name looks up as before.
pub proof fn law_push_scope_lookup(env: Env, x: Seq<char>)
    ensures
        lookup_var(push_scope(env), x) == lookup_var(env, x),
{
    let n = env.scopes.len() as int;
    lemma_lookup_prefix(push_scope(env).scopes, env.scopes, x, n);
}

proof fn lemma_bind_params_keeps(env: Env, params: Seq<SpecParam>, i: int, x: Seq<char>)
    requires
        env.scopes.len() >= 1,
        forall|j: int| i <= j < params.len() ==> params[j].name != x,
    ensures
        lookup_var(bind_params(env, params, i), x) == lookup_var(env, x),
        bind_params(env, params, i).scopes.len() == env.scopes.len(),
    decreases params.len() - i,
{
    if 0 <= i < params.len() {
        if params[i].name == "self"@ {
            lemma_bind_params_keeps(env, params, i + 1, x);
        } else {
            let e1 = declare(env, params[i].name, params[i].ty, params[i].mutable);
            law_declare_lookup(env, params[i].name, params[i].ty, params[i].mutable, x);
            lemma_bind_params_keeps(e1, params, i + 1, x);
        }
    }
}

proof fn lemma_bind_params_finds(env: Env, params: Seq<SpecParam>, i: int, k: int)
    requires
        env.scopes.len() >= 1,
        0 <= i <= k < params.len(),
        params[k].name != "self"@,
        forall|j: int| k < j < params.len() ==> params[j].name != params[k].name,
    ensures
        lookup_var(bind_params(env, params, i), params[k].name) == Some((params[k].ty, params[k].mutable)),
    decreases k - i,
{
    if params[i].name == "self"@ {
        lemma_bind_params_finds(env, params, i + 1, k);
    } else {
        let e1 = declare(env, params[i].name, params[i].ty, params[i].mutable);
        if i == k {
            law_declare_lookup(env, params[i].name, params[i].ty, params[i].mutable, params[k].name);
            lemma_bind_params_keeps(e1, params, i + 1, params[k].name);
        } else {
            lemma_bind_params_finds(e1, params, i + 1, k);
        }
    }
}

/// While a function body is checked, each parameter other than `self` is in
/// scope with its declared type and its declared mutability (a later
/// parameter of the same name hiding it).
pub proof fn law_params_in_scope(env: Env, params: Seq<SpecParam>, k: int)
    requires
        env.scopes.len() >= 1,
        0 <= k < params.len(),
        params[k].name != "self"@,
        forall|j: int| k < j < params.len() ==> params[j].name != params[k].name,
    ensures
        lookup_var(bind_params(env, params, 0), params[k].name) == Some((params[k].ty, params[k].mutable)),
{
    lemma_bind_params_finds(env, params, 0, k);
}

/// A function whose one parameter is declared `mut` may assign to it: a body
/// that stores the parameter's own value back into it checks.
pub proof fn law_mut_param_is_assignable(env: Env, f: SpecFnDef, l1: usize, l2: usize, l3: usize)
    requires
        f.params.len() == 1,
        f.params[0].name != "self"@,
        f.params[0].mutable,
        f.ret == SpecType::Void,
        f.body == seq![SpecStmt::Assign {
            target: SpecTarget::Ident(f.params[0].name, l1),
            value: SpecExpr::Ident(f.params[0].name, l2),
            line: l3,
        }],
    ensures
        t_fn(env, f, None).1 is Ok,
{
    let p = f.params[0];
    let e1 = push_scope(Env { current_ret: Some(f.ret), returned: false, ..env });
    law_params_in_scope(e1, f.params, 0);
    let e3 = bind_params(e1, f.params, 0);
    let e4 = push_scope(e3);
    law_push_scope_lookup(e3, p.name);
    assert(lookup_var(e4, p.name) == Some((p.ty, true)));
    assert(t_expr(e4, SpecExpr::Ident(p.name, l2)) == Ok::<SpecType, SpecTypeError>(p.ty));
    assert(t_stmt(e4, f.body[0]).1 is Ok);
    assert(t_stmts(e4, f.body, 0).1 is Ok) by {
        reveal_with_fuel(t_stmts, 2);
    }
}

/// An `if` with an `else` whose branches both end in an expression of type
/// `t`, under a `bool` condition, has type `t`.
pub proof fn law_if_else_has_branch_type(env: Env, cond: SpecExpr, then: Seq<SpecStmt>, els: Seq<SpecStmt>, line: usize, t: SpecType)
    requires
        t_expr(env, cond) == Ok::<SpecType, SpecTypeError>(SpecType::Bool),
        t_tail(env, then) == Ok::<Option<SpecType>, SpecTypeError>(Some(t)),
        t_tail(env, els) == Ok::<Option<SpecType>, SpecTypeError>(Some(t)),
    ensures
        t_expr(env, SpecExpr::If { cond: Box::new(cond), then, else_: Some(els), line }) == Ok::<SpecType, SpecTypeError>(t),
{
}

/// Two operands of one numeric type `t`: the arithmetic operators give `t`,
/// the comparisons give `bool`.
pub proof fn law_numeric_operator_types(env: Env, a: SpecExpr, b: SpecExpr, line: usize, t: SpecType)
    requires
        is_numeric(t),
        t_expr(env, a) == Ok::<SpecType, SpecTypeError>(t),
        t_expr(env, b) == Ok::<SpecType, SpecTypeError>(t),
    ensures
        t_expr(env, SpecExpr::BinOp { op: BinOp::Add, left: Box::new(a), right: Box::new(b), line }) == Ok::<SpecType, SpecTypeError>(t),
        t_expr(env, SpecExpr::BinOp { op: BinOp::Sub, left: Box::new(a), right: Box::new(b), line }) == Ok::<SpecType, SpecTypeError>(t),
        t_expr(env, SpecExpr::BinOp { op: BinOp::Mul, left: Box::new(a), right: Box::new(b), line }) == Ok::<SpecType, SpecTypeError>(t),
        t_expr(env, SpecExpr::BinOp { op: BinOp::Div, left: Box::new(a), right: Box::new(b), line }) == Ok::<SpecType, SpecTypeError>(t),
        t_expr(env, SpecExpr::BinOp { op: BinOp::Mod, left: Box::new(a), right: Box::new(b), line }) == Ok::<SpecType, SpecTypeError>(t),
        t_expr(env, SpecExpr::BinOp { op: BinOp::Lt, left: Box::new(a), right: Box::new(b), line }) == Ok::<SpecType, SpecTypeError>(SpecType::Bool),
        t_expr(env, SpecExpr::BinOp { op: BinOp::Gt, left: Box::new(a), right: Box::new(b), line }) == Ok::<SpecType, SpecTypeError>(SpecType::Bool),
        t_expr(env, SpecExpr::BinOp { op: BinOp::LtEq, left: Box::new(a), right: Box::new(b), line }) == Ok::<SpecType, SpecTypeError>(SpecType::Bool),
        t_expr(env, SpecExpr::BinOp { op: BinOp::GtEq, left: Box::new(a), right: Box::new(b), line }) == Ok::<SpecType, SpecTypeError>(SpecType::Bool),
        t_expr(env, SpecExpr::BinOp { op: BinOp::Eq, left: Box::new(a), right: Box::new(b), line }) == Ok::<SpecType, SpecTypeError>(SpecType::Bool),
        t_expr(env, SpecExpr::BinOp { op: BinOp::NotEq, left: Box::new(a), right: Box::new(b), line }) == Ok::<SpecType, SpecTypeError>(SpecType::Bool),
{
}

/// Two `bool` operands: `&&`, `||`, `==` and `!=` give `bool`.
pub proof fn law_bool_operator_types(env: Env, a: SpecExpr, b: SpecExpr, line: usize)
    requires
        t_expr(env, a) == Ok::<SpecType, SpecTypeError>(SpecType::Bool),
        t_expr(env, b) == Ok::<SpecType, SpecTypeError>(SpecType::Bool),
    ensures
        t_expr(env, SpecExpr::BinOp { op: BinOp::And, left: Box::new(a), right: Box::new(b), line }) == Ok::<SpecType, SpecTypeError>(SpecType::Bool),
        t_expr(env, SpecExpr::BinOp { op: BinOp::Or, left: Box::new(a), right: Box::new(b), line }) == Ok::<SpecType, SpecTypeError>(SpecType::Bool),
        t_expr(env, SpecExpr::BinOp { op: BinOp::Eq, left: Box::new(a), right: Box::new(b), line }) == Ok::<SpecType, SpecTypeError>(SpecType::Bool),
        t_expr(env, SpecExpr::BinOp { op: BinOp::NotEq, left: Box::new(a), right: Box::new(b), line }) == Ok::<SpecType, SpecTypeError>(SpecType::Bool),
{
}

/// `-` keeps a numeric operand's type; `!` of a `bool` is a `bool`.
pub proof fn law_unary_operator_types(env: Env, a: SpecExpr, line: usize)
    ensures
        (t_expr(env, a) is Ok && is_numeric(t_expr(env, a)->Ok_0))
            ==> t_expr(env, SpecExpr::UnaryOp { op: UnaryOp::Neg, operand: Box::new(a), line }) == t_expr(env, a),
        t_expr(env, a) == Ok::<SpecType, SpecTypeError>(SpecType::Bool)
            ==> t_expr(env, SpecExpr::UnaryOp { op: UnaryOp::Not, operand: Box::new(a), line }) == Ok::<SpecType, SpecTypeError>(SpecType::Bool),
{
}

} // verus!
