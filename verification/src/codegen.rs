//! What the code generator knows before it emits any instruction: the
//! signatures and struct layouts it collects, the types of the variables in
//! scope, the type it gives each expression, and the machine type that stands
//! for each Pebble type.
use vstd::prelude::*;
use vstd::string::StringExecFns;

use crate::ast::{
    spec_types, lemma_spec_types_len, BinOp, Expr, Stmt, FnDef, Param, StructDef, ImplBlock, Item,
    Type, SpecType, SpecExpr, SpecStmt, SpecItem, SpecParam, SpecFnDef, SpecStructDef,
    SpecImplBlock, SpecArm, spec_exprs, spec_stmts, spec_arms, spec_items, spec_params,
    spec_fn_defs, spec_struct_fields, lemma_types_push,
};
use crate::typing::{find_last_upto, find_last, find_first_from, find_first, index_last_upto, field_list, comparable};
use crate::typing::{Env, lookup_var, t_expr, t_exprs};
use crate::typeck::{type_eq, pairs_view, is_none_type};
use crate::diag::{debug_type, type_debug_text};

pub use crate::emit::Codegen;

verus! {

// ─── Model ───────────────────────────────────────────────────────────────────

/// A signature as code generation sees it: every parameter type (`self`
/// included) and the result type.
pub struct SpecCgSig {
    pub params: Seq<SpecType>,
    pub ret: SpecType,
}

pub struct SpecCgStruct {
    pub fields: Seq<(Seq<char>, SpecType)>,
    pub methods: Seq<(Seq<char>, SpecCgSig)>,
}

/// The code generator's tables: signatures by name, structs by name (in the
/// order they were declared), and the types of the variables in scope.
pub struct CgEnv {
    pub sigs: Seq<(Seq<char>, SpecCgSig)>,
    pub structs: Seq<(Seq<char>, SpecCgStruct)>,
    pub type_scopes: Seq<Seq<(Seq<char>, SpecType)>>,
}

pub type CgResult<T> = Result<T, Seq<char>>;

/// The type of a variable in the first `n` scopes, innermost first.
pub open spec fn cg_lookup_upto(scopes: Seq<Seq<(Seq<char>, SpecType)>>, name: Seq<char>, n: int) -> Option<SpecType>
    decreases n,
{
    if n <= 0 || n > scopes.len() {
        None
    } else {
        match find_last(scopes[n - 1], name) {
            Some(t) => Some(t),
            None => cg_lookup_upto(scopes, name, n - 1),
        }
    }
}

pub open spec fn cg_lookup(env: CgEnv, name: Seq<char>) -> Option<SpecType> {
    cg_lookup_upto(env.type_scopes, name, env.type_scopes.len() as int)
}

/// The type a binary operation yields for a left operand of type `left`.
pub open spec fn binop_result(op: BinOp, left: SpecType) -> SpecType {
    match op {
        BinOp::Eq | BinOp::NotEq | BinOp::Lt | BinOp::Gt | BinOp::LtEq | BinOp::GtEq | BinOp::And
        | BinOp::Or => SpecType::Bool,
        _ => left,
    }
}

/// The type code generation gives an expression.
pub open spec fn cg_type(env: CgEnv, e: SpecExpr) -> CgResult<SpecType>
    decreases e, 0int,
{
    match e {
        SpecExpr::Int(_, _) => Ok(SpecType::I32),
        SpecExpr::Float(_, _) => Ok(SpecType::F64),
        SpecExpr::Bool(_, _) => Ok(SpecType::Bool),
        SpecExpr::Str(_, _) => Ok(SpecType::Str),
        SpecExpr::NoneLit(_) => Ok(SpecType::Optional(Box::new(SpecType::Void))),
        SpecExpr::Tuple(elems, _) => match cg_types(env, elems, 0) {
            Err(m) => Err(m),
            Ok(ts) => Ok(SpecType::Tuple(ts)),
        },
        SpecExpr::Range { .. } => Ok(SpecType::Range),
        SpecExpr::Ident(name, _) => match cg_lookup(env, name) {
            Some(t) => Ok(t),
            None => Err("undefined variable '"@ + name + "'"@),
        },
        SpecExpr::StructLit { name, .. } => Ok(SpecType::Named(name)),
        SpecExpr::FieldAccess { obj, field, .. } => match cg_type(env, *obj) {
            Err(m) => Err(m),
            Ok(ot) => match ot {
                SpecType::Array(_) => if field == "length"@ {
                    Ok(SpecType::I32)
                } else {
                    Err("unknown field on array"@)
                },
                SpecType::Named(sn) => match find_last(env.structs, sn) {
                    None => Err("unknown struct '"@ + sn + "'"@),
                    Some(info) => match find_first(info.fields, field) {
                        Some(t) => Ok(t),
                        None => Err("unknown field '"@ + field + "'"@),
                    },
                },
                _ => Err("field access on non-struct"@),
            },
        },
        SpecExpr::BinOp { op, left, right, .. } => match cg_type(env, *left) {
            Err(m) => Err(m),
            Ok(lt) => match cg_type(env, *right) {
                Err(m) => Err(m),
                Ok(rt) => if lt != rt && !((op == BinOp::Eq || op == BinOp::NotEq) && comparable(lt, rt)) {
                    Err("binop type mismatch"@)
                } else {
                    Ok(binop_result(op, lt))
                },
            },
        },
        SpecExpr::UnaryOp { operand, .. } => cg_type(env, *operand),
        SpecExpr::Call { name, .. } => match find_last(env.sigs, name) {
            Some(s) => Ok(s.ret),
            None => if name == "str"@ {
                Ok(SpecType::Str)
            } else {
                Err("unknown function '"@ + name + "'"@)
            },
        },
        SpecExpr::MethodCall { obj, method, .. } => match cg_type(env, *obj) {
            Err(m) => Err(m),
            Ok(ot) => match ot {
                SpecType::Array(inner) => if method == "length"@ {
                    Ok(SpecType::I32)
                } else if method == "push"@ {
                    Ok(SpecType::Void)
                } else if method == "pop"@ {
                    Ok(SpecType::Optional(inner))
                } else if method == "contains"@ {
                    Ok(SpecType::Bool)
                } else {
                    Err("unknown array method"@)
                },
                SpecType::Named(sn) => match find_last(env.structs, sn) {
                    None => Err("unknown struct '"@ + sn + "'"@),
                    Some(info) => match find_last(info.methods, method) {
                        Some(s) => Ok(s.ret),
                        None => Err("unknown method '"@ + method + "'"@),
                    },
                },
                _ => Err("method call on non-struct"@),
            },
        },
        SpecExpr::Cast { ty, .. } => Ok(ty),
        SpecExpr::If { then, else_, .. } => match cg_tail(env, then) {
            Err(m) => Err(m),
            Ok(then_ty) => match else_ {
                None => Ok(SpecType::Void),
                Some(es) => match cg_tail(env, es) {
                    Err(m) => Err(m),
                    Ok(else_ty) => match (then_ty, else_ty) {
                        (Some(a), Some(b)) => if a == b {
                            Ok(a)
                        } else {
                            Ok(SpecType::Void)
                        },
                        _ => Ok(SpecType::Void),
                    },
                },
            },
        },
        SpecExpr::Match { arms, .. } => match cg_arms(env, arms, 0, None) {
            Err(m) => Err(m),
            Ok(r) => match r {
                Some(t) => Ok(t),
                None => Ok(SpecType::Void),
            },
        },
        SpecExpr::Array(elems, _) => if elems.len() == 0 {
            Ok(SpecType::Array(Box::new(SpecType::Void)))
        } else {
            match cg_type(env, elems[0]) {
                Err(m) => Err(m),
                Ok(t) => Ok(SpecType::Array(Box::new(t))),
            }
        },
        SpecExpr::Index { obj, .. } => match cg_type(env, *obj) {
            Err(m) => Err(m),
            Ok(ot) => match ot {
                SpecType::Array(inner) => Ok(*inner),
                SpecType::Str => Ok(SpecType::Str),
                _ => Err("indexing not supported"@),
            },
        },
    }
}

pub open spec fn cg_types(env: CgEnv, elems: Seq<SpecExpr>, i: int) -> CgResult<Seq<SpecType>>
    decreases elems, elems.len() - i,
{
    if i < 0 || i >= elems.len() {
        Ok(Seq::empty())
    } else {
        match cg_type(env, elems[i]) {
            Err(m) => Err(m),
            Ok(t) => match cg_types(env, elems, i + 1) {
                Err(m) => Err(m),
                Ok(ts) => Ok(seq![t] + ts),
            },
        }
    }
}

/// The type of the last expression of a block, if it ends with one.
pub open spec fn cg_tail(env: CgEnv, stmts: Seq<SpecStmt>) -> CgResult<Option<SpecType>>
    decreases stmts, 0int,
{
    if stmts.len() == 0 {
        Ok(None)
    } else {
        match stmts[stmts.len() - 1] {
            SpecStmt::Expr(e) => match cg_type(env, e) {
                Err(m) => Err(m),
                Ok(t) => Ok(Some(t)),
            },
            _ => Ok(None),
        }
    }
}

/// Match arms from index `i` on: the first arm type found is the result.
pub open spec fn cg_arms(env: CgEnv, arms: Seq<SpecArm>, i: int, acc: Option<SpecType>) -> CgResult<Option<SpecType>>
    decreases arms, arms.len() - i,
{
    if i < 0 || i >= arms.len() {
        Ok(acc)
    } else {
        match cg_tail(env, arms[i].body) {
            Err(m) => Err(m),
            Ok(t) => match (acc, t) {
                (None, Some(t)) => cg_arms(env, arms, i + 1, Some(t)),
                _ => cg_arms(env, arms, i + 1, acc),
            },
        }
    }
}

// ─── Tables ──────────────────────────────────────────────────────────────────

pub open spec fn cg_sig_of(f: SpecFnDef) -> SpecCgSig {
    SpecCgSig { params: f.params.map_values(|p: SpecParam| p.ty), ret: f.ret }
}

pub open spec fn cg_unary(param: SpecType, ret: SpecType) -> SpecCgSig {
    SpecCgSig { params: seq![param], ret }
}

/// The signatures of the runtime functions every program may call.
pub open spec fn cg_builtin_sigs() -> Seq<(Seq<char>, SpecCgSig)> {
    seq![
        ("print"@, cg_unary(SpecType::Str, SpecType::Void)),
        ("input"@, SpecCgSig { params: Seq::empty(), ret: SpecType::Str }),
        ("len"@, cg_unary(SpecType::Str, SpecType::I32)),
        ("int"@, cg_unary(SpecType::Str, SpecType::I32)),
        ("float"@, cg_unary(SpecType::Str, SpecType::F64)),
        ("sqrt"@, cg_unary(SpecType::F64, SpecType::F64)),
    ]
}

/// The name a method is emitted under: `Struct__method`.
pub open spec fn mangled(sname: Seq<char>, method: Seq<char>) -> Seq<char> {
    sname + "__"@ + method
}

/// Adds the methods from index `i` on to struct entry `k` and to the signatures.
pub open spec fn cg_add_methods(env: CgEnv, k: int, sname: Seq<char>, methods: Seq<SpecFnDef>, i: int) -> CgEnv
    decreases methods.len() - i,
{
    if i < 0 || i >= methods.len() || k < 0 || k >= env.structs.len() {
        env
    } else {
        let m = methods[i];
        let (n, info) = env.structs[k];
        let info2 = SpecCgStruct { methods: info.methods.push((m.name, cg_sig_of(m))), ..info };
        let env2 = CgEnv {
            structs: env.structs.update(k, (n, info2)),
            sigs: env.sigs.push((mangled(sname, m.name), cg_sig_of(m))),
            ..env
        };
        cg_add_methods(env2, k, sname, methods, i + 1)
    }
}

/// The signature pass over items from index `i` on.
pub open spec fn cg_collect_from(env: CgEnv, items: Seq<SpecItem>, i: int) -> (CgEnv, CgResult<()>)
    decreases items.len() - i,
{
    if i < 0 || i >= items.len() {
        (env, Ok(()))
    } else {
        match items[i] {
            SpecItem::Fn(f) => if find_last(env.sigs, f.name) is Some {
                (env, Err("function '"@ + f.name + "' already defined"@))
            } else {
                cg_collect_from(CgEnv { sigs: env.sigs.push((f.name, cg_sig_of(f))), ..env }, items, i + 1)
            },
            SpecItem::Struct(_) => cg_collect_from(env, items, i + 1),
            SpecItem::Impl(b) => {
                let k = index_last_upto(env.structs, b.struct_name, env.structs.len() as int);
                if k < 0 {
                    (env, Err("impl for unknown struct '"@ + b.struct_name + "'"@))
                } else {
                    cg_collect_from(cg_add_methods(env, k, b.struct_name, b.methods, 0), items, i + 1)
                }
            },
        }
    }
}

/// `collect_signatures`: the built-in signatures, then every item's.
pub open spec fn cg_collect_signatures(env: CgEnv, items: Seq<SpecItem>) -> (CgEnv, CgResult<()>) {
    cg_collect_from(CgEnv { sigs: env.sigs + cg_builtin_sigs(), ..env }, items, 0)
}

/// The struct pass over items from index `i` on: each struct's fields, refusing
/// a name seen before.
pub open spec fn cg_structs_from(env: CgEnv, items: Seq<SpecItem>, i: int) -> (CgEnv, CgResult<()>)
    decreases items.len() - i,
{
    if i < 0 || i >= items.len() {
        (env, Ok(()))
    } else {
        match items[i] {
            SpecItem::Struct(d) => if find_last(env.structs, d.name) is Some {
                (env, Err("duplicate struct '"@ + d.name + "'"@))
            } else {
                let info = SpecCgStruct { fields: field_list(d.fields), methods: Seq::empty() };
                cg_structs_from(CgEnv { structs: env.structs.push((d.name, info)), ..env }, items, i + 1)
            },
            _ => cg_structs_from(env, items, i + 1),
        }
    }
}

// ─── Machine types ───────────────────────────────────────────────────────────

/// The machine type that stands for a Pebble type.
#[derive(Debug)]
pub enum MachineType {
    I32,
    I64,
    F64,
    /// one-bit boolean
    I1,
    I8,
    /// pointer to bytes (strings)
    BytePtr,
    /// `{ i32, i32, i1 }`: start, end, inclusive
    RangeStruct,
    /// the array header `{ i32, i32, i8* }`
    ArrayHeader,
    /// `{ i1, T }`: present flag and value
    OptionalStruct(Box<MachineType>),
    /// an unnamed struct of the element types
    TupleStruct(Vec<MachineType>),
    /// the named struct type of a Pebble struct
    NamedStruct(String),
}

pub enum SpecMachineType {
    I32,
    I64,
    F64,
    I1,
    I8,
    BytePtr,
    RangeStruct,
    ArrayHeader,
    OptionalStruct(Box<SpecMachineType>),
    TupleStruct(Seq<SpecMachineType>),
    NamedStruct(Seq<char>),
}

pub open spec fn spec_mt(m: MachineType) -> SpecMachineType
    decreases m,
{
    match m {
        MachineType::I32 => SpecMachineType::I32,
        MachineType::I64 => SpecMachineType::I64,
        MachineType::F64 => SpecMachineType::F64,
        MachineType::I1 => SpecMachineType::I1,
        MachineType::I8 => SpecMachineType::I8,
        MachineType::BytePtr => SpecMachineType::BytePtr,
        MachineType::RangeStruct => SpecMachineType::RangeStruct,
        MachineType::ArrayHeader => SpecMachineType::ArrayHeader,
        MachineType::OptionalStruct(b) => SpecMachineType::OptionalStruct(Box::new(spec_mt(*b))),
        MachineType::TupleStruct(v) => SpecMachineType::TupleStruct(spec_mts(v@)),
        MachineType::NamedStruct(n) => SpecMachineType::NamedStruct(n@),
    }
}

pub open spec fn spec_mts(s: Seq<MachineType>) -> Seq<SpecMachineType>
    decreases s,
{
    if s.len() == 0 {
        Seq::empty()
    } else {
        spec_mts(s.drop_last()).push(spec_mt(s.last()))
    }
}

impl View for MachineType {
    type V = SpecMachineType;

    open spec fn view(&self) -> SpecMachineType {
        spec_mt(*self)
    }
}

/// The machine type of a Pebble type; `Self` stands for the struct
/// `self_type` (or one named `self` outside a method). Inside tuples and
/// optionals, `Self` is not resolved.
pub open spec fn machine_type(ty: SpecType, self_type: Option<Seq<char>>) -> SpecMachineType
    decreases ty,
{
    match ty {
        SpecType::I32 => SpecMachineType::I32,
        SpecType::I64 => SpecMachineType::I64,
        SpecType::F64 => SpecMachineType::F64,
        SpecType::Bool => SpecMachineType::I1,
        SpecType::Str => SpecMachineType::BytePtr,
        SpecType::Range => SpecMachineType::RangeStruct,
        SpecType::Tuple(elems) => SpecMachineType::TupleStruct(machine_types(elems)),
        SpecType::Array(_) => SpecMachineType::ArrayHeader,
        SpecType::Optional(inner) => SpecMachineType::OptionalStruct(Box::new(machine_type(*inner, None))),
        SpecType::Named(name) => SpecMachineType::NamedStruct(name),
        SpecType::SelfType => SpecMachineType::NamedStruct(
            match self_type {
                Some(n) => n,
                None => "self"@,
            },
        ),
        SpecType::Void => SpecMachineType::I8,
    }
}

pub open spec fn machine_types(elems: Seq<SpecType>) -> Seq<SpecMachineType>
    decreases elems,
{
    if elems.len() == 0 {
        Seq::empty()
    } else {
        machine_types(elems.drop_last()).push(machine_type(elems.last(), None))
    }
}

// ─── Tables in code ──────────────────────────────────────────────────────────

/// A signature: every parameter type and the result type.
pub struct CgSig {
    pub params: Vec<Type>,
    pub ret: Type,
}

/// A struct's fields in declaration order and its methods.
pub struct CgStructInfo {
    pub fields: Vec<(String, Type)>,
    pub methods: Vec<(String, CgSig)>,
}

pub open spec fn cg_sig_view(s: CgSig) -> SpecCgSig {
    SpecCgSig { params: spec_types(s.params@), ret: s.ret@ }
}

pub open spec fn cg_sigs_view(s: Seq<(String, CgSig)>) -> Seq<(Seq<char>, SpecCgSig)> {
    s.map_values(|p: (String, CgSig)| (p.0@, cg_sig_view(p.1)))
}

pub open spec fn cg_struct_view(i: CgStructInfo) -> SpecCgStruct {
    SpecCgStruct { fields: pairs_view(i.fields@), methods: cg_sigs_view(i.methods@) }
}

pub open spec fn cg_structs_view(s: Seq<(String, CgStructInfo)>) -> Seq<(Seq<char>, SpecCgStruct)> {
    s.map_values(|p: (String, CgStructInfo)| (p.0@, cg_struct_view(p.1)))
}

pub open spec fn cg_scopes_view(s: Seq<Vec<(String, Type)>>) -> Seq<Seq<(Seq<char>, SpecType)>> {
    s.map_values(|sc: Vec<(String, Type)>| pairs_view(sc@))
}

pub open spec fn cg_result_view(r: Result<Type, String>) -> CgResult<SpecType> {
    match r {
        Ok(t) => Ok(t@),
        Err(m) => Err(m@),
    }
}

pub open spec fn cg_unit_view(r: Result<(), String>) -> CgResult<()> {
    match r {
        Ok(_) => Ok(()),
        Err(m) => Err(m@),
    }
}

/// The code generator's type tables.
pub struct CodegenTables {
    sigs: Vec<(String, CgSig)>,
    structs: Vec<(String, CgStructInfo)>,
    type_scopes: Vec<Vec<(String, Type)>>,
}

pub(crate) fn msg3(a: &str, b: &str, c: &str) -> (s: String)
    ensures
        s@ == a@ + b@ + c@,
{
    let mut s = String::from_str(a);
    s.append(b);
    s.append(c);
    s
}

pub(crate) fn same_name(s: &String, w: &str) -> (r: bool)
    ensures
        r == (s@ == w@),
{
    let t = String::from_str(w);
    *s == t
}

#[verifier::loop_isolation(false)]
fn param_types(params: &Vec<Param>) -> (r: Vec<Type>)
    ensures
        spec_types(r@) == spec_params(params@).map_values(|p: SpecParam| p.ty),
{
    let mut out: Vec<Type> = Vec::new();
    let mut i: usize = 0;
    while i < params.len()
        invariant
            i <= params.len(),
            out@.len() == i,
            forall|j: int| 0 <= j < i ==> (#[trigger] out@[j])@ == params@[j].ty@,
        decreases params.len() - i,
    {
        out.push(params[i].ty.clone());
        i = i + 1;
    }
    proof {
        lemma_spec_types_len(out@);
        assert(spec_types(out@) =~= spec_params(params@).map_values(|p: SpecParam| p.ty));
    }
    out
}

#[verifier::loop_isolation(false)]
fn copy_types(v: &Vec<Type>) -> (r: Vec<Type>)
    ensures
        spec_types(r@) == spec_types(v@),
{
    let mut out: Vec<Type> = Vec::new();
    let mut i: usize = 0;
    while i < v.len()
        invariant
            i <= v.len(),
            out@.len() == i,
            forall|j: int| 0 <= j < i ==> (#[trigger] out@[j])@ == v@[j]@,
        decreases v.len() - i,
    {
        out.push(v[i].clone());
        i = i + 1;
    }
    proof {
        lemma_spec_types_len(out@);
        lemma_spec_types_len(v@);
        assert(spec_types(out@) =~= spec_types(v@));
    }
    out
}

impl CodegenTables {
    /// The tables as the model sees them.
    pub closed spec fn env(&self) -> CgEnv {
        CgEnv {
            sigs: cg_sigs_view(self.sigs@),
            structs: cg_structs_view(self.structs@),
            type_scopes: cg_scopes_view(self.type_scopes@),
        }
    }

    pub fn new() -> (t: Self)
        ensures
            t.env() == (CgEnv { sigs: Seq::empty(), structs: Seq::empty(), type_scopes: Seq::empty() }),
    {
        let t = Self { sigs: Vec::new(), structs: Vec::new(), type_scopes: Vec::new() };
        proof {
            assert(t.env().sigs =~= Seq::empty());
            assert(t.env().structs =~= Seq::empty());
            assert(t.env().type_scopes =~= Seq::empty());
        }
        t
    }

    // ── Scopes ────────────────────────────────────────────────────────────────

    pub fn push_scope(&mut self)
        ensures
            final(self).env() == (CgEnv { type_scopes: old(self).env().type_scopes.push(Seq::empty()), ..old(self).env() }),
    {
        self.type_scopes.push(Vec::new());
        proof {
            assert(pairs_view(self.type_scopes@.last()@) =~= Seq::empty());
            assert(self.env().type_scopes =~= old(self).env().type_scopes.push(Seq::empty()));
        }
    }

    pub fn pop_scope(&mut self)
        ensures
            final(self).env() == (if old(self).env().type_scopes.len() == 0 {
                old(self).env()
            } else {
                CgEnv { type_scopes: old(self).env().type_scopes.drop_last(), ..old(self).env() }
            }),
    {
        let _ = self.type_scopes.pop();
        proof {
            if old(self).type_scopes@.len() > 0 {
                assert(self.env().type_scopes =~= old(self).env().type_scopes.drop_last());
            }
        }
    }

    /// Records the type of a variable in the innermost scope (nothing when there
    /// is no scope).
    pub fn bind_var_type(&mut self, name: &String, ty: Type)
        ensures
            final(self).env() == (if old(self).env().type_scopes.len() == 0 {
                old(self).env()
            } else {
                CgEnv {
                    type_scopes: old(self).env().type_scopes.update(
                        old(self).env().type_scopes.len() - 1,
                        old(self).env().type_scopes.last().push((name@, ty@)),
                    ),
                    ..old(self).env()
                }
            }),
    {
        if self.type_scopes.len() > 0 {
            let last = self.type_scopes.len() - 1;
            let ghost tv = ty@;
            let mut scope = self.type_scopes.pop().unwrap();
            let ghost before = scope@;
            scope.push((name.clone(), ty));
            proof {
                assert(pairs_view(scope@) =~= pairs_view(before).push((name@, tv)));
            }
            self.type_scopes.push(scope);
            proof {
                assert(self.env().type_scopes =~= old(self).env().type_scopes.update(
                    old(self).env().type_scopes.len() - 1,
                    old(self).env().type_scopes.last().push((name@, tv)),
                ));
            }
        }
    }

    #[verifier::loop_isolation(false)]
    pub fn lookup_var_type(&self, name: &String) -> (r: Result<Type, String>)
        ensures
            cg_result_view(r) == (match cg_lookup(self.env(), name@) {
                Some(t) => Ok(t),
                None => Err("undefined variable '"@ + name@ + "'"@),
            }),
    {
        let ghost ss = self.env().type_scopes;
        let mut k: usize = self.type_scopes.len();
        while k > 0
            invariant
                k <= self.type_scopes@.len(),
                ss == self.env().type_scopes,
                ss.len() == self.type_scopes@.len(),
                cg_lookup_upto(ss, name@, ss.len() as int) == cg_lookup_upto(ss, name@, k as int),
            decreases k,
        {
            let scope = &self.type_scopes[k - 1];
            let ghost sv = pairs_view(scope@);
            proof {
                assert(sv == ss[k - 1]);
            }
            let mut i: usize = scope.len();
            while i > 0
                invariant
                    i <= scope@.len(),
                    sv == pairs_view(scope@),
                    find_last_upto(sv, name@, scope@.len() as int) == find_last_upto(sv, name@, i as int),
                decreases i,
            {
                if scope[i - 1].0 == *name {
                    return Ok(scope[i - 1].1.clone());
                }
                i = i - 1;
            }
            k = k - 1;
        }
        Err(msg3("undefined variable '", name.as_str(), "'"))
    }

    // ── Lookups ───────────────────────────────────────────────────────────────

    #[verifier::loop_isolation(false)]
    fn index_of_sig(&self, name: &String) -> (r: Option<usize>)
        ensures
            match r {
                Some(k) => k < self.sigs@.len() && find_last(self.env().sigs, name@) == Some(cg_sig_view(self.sigs@[k as int].1)),
                None => find_last(self.env().sigs, name@) is None,
            },
    {
        let ghost s = self.env().sigs;
        let mut i: usize = self.sigs.len();
        while i > 0
            invariant
                i <= self.sigs@.len(),
                s == self.env().sigs,
                find_last_upto(s, name@, self.sigs@.len() as int) == find_last_upto(s, name@, i as int),
            decreases i,
        {
            if self.sigs[i - 1].0 == *name {
                return Some(i - 1);
            }
            i = i - 1;
        }
        None
    }

    #[verifier::loop_isolation(false)]
    fn index_of_struct(&self, name: &String) -> (r: Option<usize>)
        ensures
            match r {
                Some(k) => k < self.structs@.len()
                    && find_last(self.env().structs, name@) == Some(cg_struct_view(self.structs@[k as int].1))
                    && index_last_upto(self.env().structs, name@, self.structs@.len() as int) == k,
                None => find_last(self.env().structs, name@) is None
                    && index_last_upto(self.env().structs, name@, self.structs@.len() as int) == -1,
            },
    {
        let ghost s = self.env().structs;
        let mut i: usize = self.structs.len();
        while i > 0
            invariant
                i <= self.structs@.len(),
                s == self.env().structs,
                find_last_upto(s, name@, self.structs@.len() as int) == find_last_upto(s, name@, i as int),
                index_last_upto(s, name@, self.structs@.len() as int) == index_last_upto(s, name@, i as int),
            decreases i,
        {
            if self.structs[i - 1].0 == *name {
                return Some(i - 1);
            }
            i = i - 1;
        }
        None
    }

    /// How many structs are recorded.
    pub fn struct_count(&self) -> (n: usize)
        ensures
            n == self.env().structs.len(),
    {
        self.structs.len()
    }

    /// The signature recorded under `name`.
    pub fn sig(&self, name: &String) -> (r: Option<&CgSig>)
        ensures
            match r {
                Some(s) => find_last(self.env().sigs, name@) == Some(cg_sig_view(*s)),
                None => find_last(self.env().sigs, name@) is None,
            },
    {
        match self.index_of_sig(name) {
            Some(k) => Some(&self.sigs[k].1),
            None => None,
        }
    }

    /// What is recorded of struct `name`.
    pub fn struct_info(&self, name: &String) -> (r: Option<&CgStructInfo>)
        ensures
            match r {
                Some(i) => find_last(self.env().structs, name@) == Some(cg_struct_view(*i)),
                None => find_last(self.env().structs, name@) is None,
            },
    {
        match self.index_of_struct(name) {
            Some(k) => Some(&self.structs[k].1),
            None => None,
        }
    }
}

impl CodegenTables {
    fn unary(param: Type, ret: Type) -> (s: CgSig)
        ensures
            cg_sig_view(s) == cg_unary(param@, ret@),
    {
        let mut params: Vec<Type> = Vec::new();
        params.push(param);
        let s = CgSig { params, ret };
        proof {
            lemma_spec_types_len(s.params@);
            assert(spec_types(s.params@) =~= seq![s.params@[0]@]);
        }
        s
    }

    /// Records the signatures of the runtime functions.
    fn init_builtins(&mut self)
        ensures
            final(self).env() == (CgEnv { sigs: old(self).env().sigs + cg_builtin_sigs(), ..old(self).env() }),
    {
        let ghost before = self.sigs@;
        self.sigs.push((String::from_str("print"), Self::unary(Type::Str, Type::Void)));
        self.sigs.push((String::from_str("input"), CgSig { params: Vec::new(), ret: Type::Str }));
        self.sigs.push((String::from_str("len"), Self::unary(Type::Str, Type::I32)));
        self.sigs.push((String::from_str("int"), Self::unary(Type::Str, Type::I32)));
        self.sigs.push((String::from_str("float"), Self::unary(Type::Str, Type::F64)));
        self.sigs.push((String::from_str("sqrt"), Self::unary(Type::F64, Type::F64)));
        proof {
            let n = before.len() as int;
            assert(spec_types(self.sigs@[n + 1].1.params@) =~= Seq::empty());
            assert(cg_sigs_view(self.sigs@) =~= cg_sigs_view(before) + cg_builtin_sigs());
        }
    }

    /// The signature pass: built-in functions, free functions (refusing a name
    /// seen before) and the methods of each impl block, which are recorded on
    /// their struct and under `Struct__method`.
    #[verifier::loop_isolation(false)]
    pub fn collect_signatures(&mut self, items: &[Item]) -> (r: Result<(), String>)
        ensures
            (final(self).env(), cg_unit_view(r)) == cg_collect_signatures(old(self).env(), spec_items(items@)),
    {
        self.init_builtins();
        let ghost its = spec_items(items@);
        let mut i: usize = 0;
        while i < items.len()
            invariant
                i <= items.len(),
                its == spec_items(items@),
                cg_collect_signatures(old(self).env(), its) == cg_collect_from(self.env(), its, i as int),
            decreases items.len() - i,
        {
            match &items[i] {
                Item::Fn(f) => {
                    if self.index_of_sig(&f.name).is_some() {
                        return Err(msg3("function '", f.name.as_str(), "' already defined"));
                    }
                    let sig = CgSig { params: param_types(&f.params), ret: f.ret.clone() };
                    let ghost before = self.sigs@;
                    self.sigs.push((f.name.clone(), sig));
                    proof {
                        assert(cg_sigs_view(self.sigs@) =~= cg_sigs_view(before).push((f.name@, cg_sig_of(f@))));
                    }
                },
                Item::Struct(_) => {},
                Item::Impl(b) => {
                    let k = match self.index_of_struct(&b.struct_name) {
                        None => {
                            return Err(msg3("impl for unknown struct '", b.struct_name.as_str(), "'"));
                        },
                        Some(k) => k,
                    };
                    let ghost ms = spec_fn_defs(b.methods@);
                    let ghost name = b.struct_name@;
                    let ghost e0 = self.env();
                    let mut j: usize = 0;
                    while j < b.methods.len()
                        invariant
                            j <= b.methods.len(),
                            k < self.structs@.len(),
                            ms == spec_fn_defs(b.methods@),
                            name == b.struct_name@,
                            cg_add_methods(e0, k as int, name, ms, 0) == cg_add_methods(self.env(), k as int, name, ms, j as int),
                        decreases b.methods.len() - j,
                    {
                        let m = &b.methods[j];
                        let ghost env_before = self.env();
                        let ghost sigs_before = self.sigs@;
                        let ghost structs_before = self.structs@;
                        let sig = CgSig { params: param_types(&m.params), ret: m.ret.clone() };
                        let sig2 = CgSig { params: copy_types(&sig.params), ret: sig.ret.clone() };
                        let mut methods: Vec<(String, CgSig)> = Vec::new();
                        std::mem::swap(&mut methods, &mut self.structs[k].1.methods);
                        methods.push((m.name.clone(), sig));
                        std::mem::swap(&mut methods, &mut self.structs[k].1.methods);
                        let mut full = b.struct_name.clone();
                        full.append("__");
                        full.append(m.name.as_str());
                        self.sigs.push((full, sig2));
                        proof {
                            assert(cg_sigs_view(self.sigs@) =~= cg_sigs_view(sigs_before).push(
                                (mangled(name, m.name@), cg_sig_of(m@)),
                            ));
                            assert(cg_sigs_view(self.structs@[k as int].1.methods@) =~= cg_sigs_view(
                                structs_before[k as int].1.methods@,
                            ).push((m.name@, cg_sig_of(m@))));
                            assert(cg_structs_view(self.structs@) =~= env_before.structs.update(
                                k as int,
                                (env_before.structs[k as int].0, SpecCgStruct {
                                    methods: env_before.structs[k as int].1.methods.push((m.name@, cg_sig_of(m@))),
                                    ..env_before.structs[k as int].1
                                }),
                            ));
                        }
                        j = j + 1;
                    }
                },
            }
            i = i + 1;
        }
        Ok(())
    }

    /// The struct pass: the fields of every struct, refusing a name seen before.
    #[verifier::loop_isolation(false)]
    pub fn collect_structs(&mut self, items: &[Item]) -> (r: Result<(), String>)
        ensures
            (final(self).env(), cg_unit_view(r)) == cg_structs_from(old(self).env(), spec_items(items@), 0),
    {
        let ghost its = spec_items(items@);
        let mut i: usize = 0;
        while i < items.len()
            invariant
                i <= items.len(),
                its == spec_items(items@),
                cg_structs_from(old(self).env(), its, 0) == cg_structs_from(self.env(), its, i as int),
            decreases items.len() - i,
        {
            if let Item::Struct(def) = &items[i] {
                if self.index_of_struct(&def.name).is_some() {
                    return Err(msg3("duplicate struct '", def.name.as_str(), "'"));
                }
                let mut fields: Vec<(String, Type)> = Vec::new();
                let mut j: usize = 0;
                while j < def.fields.len()
                    invariant
                        j <= def.fields.len(),
                        fields@.len() == j,
                        forall|x: int| 0 <= x < j ==> (#[trigger] fields@[x]).0@ == def.fields@[x].name@
                            && fields@[x].1@ == def.fields@[x].ty@,
                    decreases def.fields.len() - j,
                {
                    fields.push((def.fields[j].name.clone(), def.fields[j].ty.clone()));
                    j = j + 1;
                }
                let ghost before = self.structs@;
                self.structs.push((def.name.clone(), CgStructInfo { fields, methods: Vec::new() }));
                proof {
                    assert(pairs_view(self.structs@.last().1.fields@) =~= field_list(spec_struct_fields(def.fields@)));
                    assert(cg_sigs_view(self.structs@.last().1.methods@) =~= Seq::empty());
                    assert(cg_structs_view(self.structs@) =~= cg_structs_view(before).push(
                        (def.name@, SpecCgStruct { fields: field_list(spec_struct_fields(def.fields@)), methods: Seq::empty() }),
                    ));
                }
            }
            i = i + 1;
        }
        Ok(())
    }

    /// The index and type of the first field named `field` of struct `sname`.
    #[verifier::loop_isolation(false)]
    pub fn field_slot(&self, sname: &String, field: &String) -> (r: Option<(usize, Type)>)
        ensures
            match r {
                Some((k, t)) => match find_last(self.env().structs, sname@) {
                    Some(info) => k < info.fields.len() && info.fields[k as int] == (field@, t@)
                        && find_first(info.fields, field@) == Some(t@)
                        && forall|j: int| 0 <= j < k ==> info.fields[j].0 != field@,
                    None => false,
                },
                None => match find_last(self.env().structs, sname@) {
                    Some(info) => find_first(info.fields, field@) is None,
                    None => true,
                },
            },
    {
        match self.index_of_struct(sname) {
            None => None,
            Some(s) => {
                let fields = &self.structs[s].1.fields;
                let ghost fv = pairs_view(fields@);
                let mut i: usize = 0;
                while i < fields.len()
                    invariant
                        i <= fields.len(),
                        fv == pairs_view(fields@),
                        forall|j: int| 0 <= j < i ==> fv[j].0 != field@,
                        find_first_from(fv, field@, 0) == find_first_from(fv, field@, i as int),
                    decreases fields.len() - i,
                {
                    if fields[i].0 == *field {
                        return Some((i, fields[i].1.clone()));
                    }
                    i = i + 1;
                }
                None
            },
        }
    }

    // ── Expression types ──────────────────────────────────────────────────────

    /// The type a binary operation yields for a left operand of type `left`.
    pub fn infer_binop_type(&self, op: BinOp, left: &Type) -> (t: Type)
        ensures
            t@ == binop_result(op, left@),
    {
        match op {
            BinOp::Eq | BinOp::NotEq | BinOp::Lt | BinOp::Gt | BinOp::LtEq | BinOp::GtEq
            | BinOp::And | BinOp::Or => Type::Bool,
            _ => left.clone(),
        }
    }

    /// The type code generation gives an expression.
    #[verifier::loop_isolation(false)]
    pub fn infer_expr_type(&self, expr: &Expr) -> (r: Result<Type, String>)
        ensures
            cg_result_view(r) == cg_type(self.env(), expr@),
        decreases expr, 3int,
    {
        proof {
            reveal_with_fuel(crate::ast::spec_type, 2);
        }
        match expr {
            Expr::Int(_, _) => Ok(Type::I32),
            Expr::Float(_, _) => Ok(Type::F64),
            Expr::Bool(_, _) => Ok(Type::Bool),
            Expr::Str(_, _) => Ok(Type::Str),
            Expr::NoneLit(_) => Ok(Type::Optional(Box::new(Type::Void))),
            Expr::Tuple(elems, _) => {
                let ghost env = self.env();
                let ghost es = spec_exprs(elems@);
                proof {
                    crate::ast::lemma_exprs_index(elems@);
                }
                let mut tys: Vec<Type> = Vec::new();
                let mut i: usize = 0;
                while i < elems.len()
                    invariant
                        i <= elems.len(),
                        env == self.env(),
                        es == spec_exprs(elems@),
                        es.len() == elems.len(),
                        forall|j: int| 0 <= j < elems.len() ==> #[trigger] es[j] == elems@[j]@,
                        match cg_types(env, es, i as int) {
                            Ok(ts) => cg_types(env, es, 0) == Ok::<Seq<SpecType>, Seq<char>>(spec_types(tys@) + ts),
                            Err(e) => cg_types(env, es, 0) == Err::<Seq<SpecType>, Seq<char>>(e),
                        },
                    decreases elems.len() - i,
                {
                    proof {
                        assert(decreases_to!(elems => elems@));
                        assert(decreases_to!(elems@ => elems@[i as int]));
                    }
                    let t = self.infer_expr_type(&elems[i])?;
                    proof {
                        lemma_types_push(tys@, t);
                        match cg_types(env, es, i + 1) {
                            Ok(ts) => {
                                assert(spec_types(tys@) + (seq![t@] + ts) =~= spec_types(tys@).push(t@) + ts);
                            },
                            Err(_) => {},
                        }
                    }
                    tys.push(t);
                    i = i + 1;
                }
                proof {
                    assert(spec_types(tys@) + Seq::<SpecType>::empty() =~= spec_types(tys@));
                }
                Ok(Type::Tuple(tys))
            },
            Expr::Range { .. } => Ok(Type::Range),
            Expr::Ident(name, _) => self.lookup_var_type(name),
            Expr::StructLit { name, .. } => Ok(Type::Named(name.clone())),
            Expr::FieldAccess { obj, field, .. } => {
                let ot = self.infer_expr_type(obj)?;
                if let Type::Array(_) = ot {
                    if same_name(field, "length") {
                        return Ok(Type::I32);
                    }
                    return Err(String::from_str("unknown field on array"));
                }
                let sn = match ot {
                    Type::Named(n) => n,
                    _ => {
                        return Err(String::from_str("field access on non-struct"));
                    },
                };
                match self.struct_info(&sn) {
                    None => Err(msg3("unknown struct '", sn.as_str(), "'")),
                    Some(info) => {
                        let ghost fv = pairs_view(info.fields@);
                        let mut i: usize = 0;
                        while i < info.fields.len()
                            invariant
                                i <= info.fields.len(),
                                fv == pairs_view(info.fields@),
                                find_first_from(fv, field@, 0) == find_first_from(fv, field@, i as int),
                            decreases info.fields.len() - i,
                        {
                            if info.fields[i].0 == *field {
                                return Ok(info.fields[i].1.clone());
                            }
                            i = i + 1;
                        }
                        Err(msg3("unknown field '", field.as_str(), "'"))
                    },
                }
            },
            Expr::BinOp { op, left, right, .. } => {
                let lt = self.infer_expr_type(left)?;
                let rt = self.infer_expr_type(right)?;
                let equality = matches!(op, BinOp::Eq | BinOp::NotEq);
                if !type_eq(&lt, &rt) && !(equality && (
                    (matches!(lt, Type::Optional(_)) && is_none_type(&rt)) || (is_none_type(&lt) && matches!(rt, Type::Optional(_))))) {
                    return Err(String::from_str("binop type mismatch"));
                }
                Ok(self.infer_binop_type(*op, &lt))
            },
            Expr::UnaryOp { operand, .. } => self.infer_expr_type(operand),
            Expr::Call { name, .. } => match self.sig(name) {
                Some(s) => Ok(s.ret.clone()),
                None => if same_name(name, "str") {
                    Ok(Type::Str)
                } else {
                    Err(msg3("unknown function '", name.as_str(), "'"))
                },
            },
            Expr::MethodCall { obj, method, .. } => {
                let ot = self.infer_expr_type(obj)?;
                if let Type::Array(inner) = ot {
                    return if same_name(method, "length") {
                        Ok(Type::I32)
                    } else if same_name(method, "push") {
                        Ok(Type::Void)
                    } else if same_name(method, "pop") {
                        Ok(Type::Optional(inner))
                    } else if same_name(method, "contains") {
                        Ok(Type::Bool)
                    } else {
                        Err(String::from_str("unknown array method"))
                    };
                }
                let sn = match ot {
                    Type::Named(n) => n,
                    _ => {
                        return Err(String::from_str("method call on non-struct"));
                    },
                };
                match self.struct_info(&sn) {
                    None => Err(msg3("unknown struct '", sn.as_str(), "'")),
                    Some(info) => {
                        let ghost ms = cg_sigs_view(info.methods@);
                        let mut i: usize = info.methods.len();
                        while i > 0
                            invariant
                                i <= info.methods@.len(),
                                ms == cg_sigs_view(info.methods@),
                                find_last_upto(ms, method@, info.methods@.len() as int) == find_last_upto(ms, method@, i as int),
                            decreases i,
                        {
                            if info.methods[i - 1].0 == *method {
                                return Ok(info.methods[i - 1].1.ret.clone());
                            }
                            i = i - 1;
                        }
                        Err(msg3("unknown method '", method.as_str(), "'"))
                    },
                }
            },
            Expr::Cast { ty, .. } => Ok(ty.clone()),
            Expr::If { then, else_, .. } => {
                let then_ty = self.infer_block_tail_type(then)?;
                match else_ {
                    None => Ok(Type::Void),
                    Some(es) => {
                        let else_ty = self.infer_block_tail_type(es)?;
                        match (then_ty, else_ty) {
                            (Some(t), Some(e)) => if type_eq(&t, &e) {
                                Ok(t)
                            } else {
                                Ok(Type::Void)
                            },
                            _ => Ok(Type::Void),
                        }
                    },
                }
            },
            Expr::Match { arms, .. } => {
                let ghost env = self.env();
                let ghost a = spec_arms(arms@);
                proof {
                    crate::ast::lemma_arms_index(arms@);
                }
                let mut result: Option<Type> = None;
                let mut i: usize = 0;
                while i < arms.len()
                    invariant
                        i <= arms.len(),
                        env == self.env(),
                        a == spec_arms(arms@),
                        a.len() == arms.len(),
                        forall|j: int| 0 <= j < arms.len() ==> #[trigger] a[j] == arms@[j]@,
                        cg_arms(env, a, 0, None) == cg_arms(env, a, i as int, match result { Some(t) => Some(t@), None => None }),
                    decreases arms.len() - i,
                {
                    proof {
                        assert(decreases_to!(arms => arms@));
                        assert(decreases_to!(arms@ => arms@[i as int]));
                        assert(decreases_to!(arms@[i as int] => arms@[i as int].body));
                    }
                    let arm_ty = self.infer_block_tail_type(&arms[i].body)?;
                    if result.is_none() {
                        result = arm_ty;
                    }
                    i = i + 1;
                }
                match result {
                    Some(t) => Ok(t),
                    None => Ok(Type::Void),
                }
            },
            Expr::Array(elems, _) => {
                if elems.len() == 0 {
                    Ok(Type::Array(Box::new(Type::Void)))
                } else {
                    proof {
                        crate::ast::lemma_exprs_index(elems@);
                        assert(decreases_to!(elems => elems@));
                        assert(decreases_to!(elems@ => elems@[0]));
                    }
                    let t = self.infer_expr_type(&elems[0])?;
                    Ok(Type::Array(Box::new(t)))
                }
            },
            Expr::Index { obj, .. } => {
                let ot = self.infer_expr_type(obj)?;
                match ot {
                    Type::Array(inner) => Ok(*inner),
                    Type::Str => Ok(Type::Str),
                    _ => Err(String::from_str("indexing not supported")),
                }
            },
        }
    }

    /// The type of the last expression of a block, if it ends with one.
    pub fn infer_block_tail_type(&self, stmts: &Vec<Stmt>) -> (r: Result<Option<Type>, String>)
        ensures
            (match r {
                Ok(Some(t)) => Ok(Some(t@)),
                Ok(None) => Ok(None),
                Err(m) => Err(m@),
            }) == cg_tail(self.env(), spec_stmts(stmts@)),
        decreases stmts, 2int,
    {
        proof {
            crate::ast::lemma_stmts_index(stmts@);
        }
        if stmts.len() == 0 {
            return Ok(None);
        }
        let n = stmts.len() - 1;
        match &stmts[n] {
            Stmt::Expr(e) => {
                proof {
                    assert(decreases_to!(stmts => stmts@));
                    assert(decreases_to!(stmts@ => stmts@[n as int]));
                }
                let t = self.infer_expr_type(e)?;
                Ok(Some(t))
            },
            _ => Ok(None),
        }
    }

    // ── Machine types ─────────────────────────────────────────────────────────

    /// The machine type of a Pebble type (what `llvm_type_with_self` builds).
    #[verifier::loop_isolation(false)]
    pub fn machine_type(&self, ty: &Type, self_type: Option<&String>) -> (m: MachineType)
        ensures
            m@ == machine_type(ty@, match self_type { Some(s) => Some(s@), None => None }),
        decreases ty,
    {
        match ty {
            Type::I32 => MachineType::I32,
            Type::I64 => MachineType::I64,
            Type::F64 => MachineType::F64,
            Type::Bool => MachineType::I1,
            Type::Str => MachineType::BytePtr,
            Type::Range => MachineType::RangeStruct,
            Type::Tuple(elems) => {
                proof {
                    lemma_spec_types_len(elems@);
                }
                let mut out: Vec<MachineType> = Vec::new();
                let mut i: usize = 0;
                while i < elems.len()
                    invariant
                        i <= elems.len(),
                        spec_types(elems@).len() == elems.len(),
                        forall|j: int| 0 <= j < elems.len() ==> #[trigger] spec_types(elems@)[j] == elems@[j]@,
                        spec_mts(out@) == machine_types(spec_types(elems@).take(i as int)),
                    decreases elems.len() - i,
                {
                    proof {
                        assert(decreases_to!(elems => elems@));
                        assert(decreases_to!(elems@ => elems@[i as int]));
                        assert(spec_types(elems@).take(i + 1).drop_last() =~= spec_types(elems@).take(i as int));
                    }
                    let m = self.machine_type(&elems[i], None);
                    let ghost before = out@;
                    out.push(m);
                    proof {
                        assert(out@.drop_last() =~= before);
                    }
                    i = i + 1;
                }
                proof {
                    assert(spec_types(elems@).take(elems.len() as int) =~= spec_types(elems@));
                }
                MachineType::TupleStruct(out)
            },
            Type::Array(_) => MachineType::ArrayHeader,
            Type::Optional(inner) => MachineType::OptionalStruct(Box::new(self.machine_type(inner, None))),
            Type::Named(name) => MachineType::NamedStruct(name.clone()),
            Type::SelfType => match self_type {
                Some(n) => MachineType::NamedStruct(n.clone()),
                None => MachineType::NamedStruct(String::from_str("self")),
            },
            Type::Void => MachineType::I8,
        }
    }
}

// ─── Operation plans ─────────────────────────────────────────────────────────

/// How a binary operation on operands of one type is carried out.
#[derive(Debug, Clone, Copy, PartialEq, Eq, Structural)]
pub enum BinOpPlan {
    /// floating-point `+ - * / %`
    FloatArith(BinOp),
    /// signed integer `+ - * / %`
    IntArith(BinOp),
    /// the runtime's string concatenation
    StrConcat,
    /// field-by-field equality of compound values, negated for `!=`
    StructuralEq { negate: bool },
    /// the runtime's string equality, negated for `!=`
    StrEq { negate: bool },
    /// ordered floating-point comparison
    FloatCompare(BinOp),
    /// signed integer comparison
    IntCompare(BinOp),
    /// bitwise `and` / `or` of booleans
    Logic(BinOp),
}

/// The plan for `op` on operands of type `ty`.
pub open spec fn binop_plan_of(op: BinOp, ty: SpecType) -> BinOpPlan {
    match op {
        BinOp::Add | BinOp::Sub | BinOp::Mul | BinOp::Div | BinOp::Mod => if ty is F64 {
            BinOpPlan::FloatArith(op)
        } else if ty is Str && op == BinOp::Add {
            BinOpPlan::StrConcat
        } else {
            BinOpPlan::IntArith(op)
        },
        BinOp::And | BinOp::Or => BinOpPlan::Logic(op),
        _ => if ty is Tuple || ty is Optional || ty is Named || ty is Range || ty is Array {
            BinOpPlan::StructuralEq { negate: op == BinOp::NotEq }
        } else if ty is Str && (op == BinOp::Eq || op == BinOp::NotEq) {
            BinOpPlan::StrEq { negate: op == BinOp::NotEq }
        } else if ty is F64 {
            BinOpPlan::FloatCompare(op)
        } else {
            BinOpPlan::IntCompare(op)
        },
    }
}

/// How a numeric cast is carried out.
#[derive(Debug, Clone, Copy, PartialEq, Eq, Structural)]
pub enum CastPlan {
    /// signed integer to `f64`
    IntToFloat,
    /// `f64` to signed `i32`
    FloatToI32,
    /// `f64` to signed `i64`
    FloatToI64,
    /// `i32` widened to `i64`
    WidenToI64,
    /// `i64` narrowed to `i32`
    NarrowToI32,
}

/// The plan for a cast from `from` to `to`, if code generation supports it.
pub open spec fn cast_plan_of(from: SpecType, to: SpecType) -> Option<CastPlan> {
    if (from is I32 || from is I64) && to is F64 {
        Some(CastPlan::IntToFloat)
    } else if from is F64 && to is I32 {
        Some(CastPlan::FloatToI32)
    } else if from is F64 && to is I64 {
        Some(CastPlan::FloatToI64)
    } else if from is I32 && to is I64 {
        Some(CastPlan::WidenToI64)
    } else if from is I64 && to is I32 {
        Some(CastPlan::NarrowToI32)
    } else {
        None
    }
}

impl CodegenTables {
    /// The plan for `op` on operands of type `ty` (the choices `codegen_binop` makes).
    pub fn binop_plan(&self, op: BinOp, ty: &Type) -> (p: BinOpPlan)
        ensures
            p == binop_plan_of(op, ty@),
    {
        match op {
            BinOp::Add | BinOp::Sub | BinOp::Mul | BinOp::Div | BinOp::Mod => {
                if matches!(ty, Type::F64) {
                    BinOpPlan::FloatArith(op)
                } else if matches!(ty, Type::Str) && op == BinOp::Add {
                    BinOpPlan::StrConcat
                } else {
                    BinOpPlan::IntArith(op)
                }
            },
            BinOp::And | BinOp::Or => BinOpPlan::Logic(op),
            _ => {
                if matches!(ty, Type::Tuple(_) | Type::Optional(_) | Type::Named(_) | Type::Range | Type::Array(_)) {
                    BinOpPlan::StructuralEq { negate: op == BinOp::NotEq }
                } else if matches!(ty, Type::Str) && (op == BinOp::Eq || op == BinOp::NotEq) {
                    BinOpPlan::StrEq { negate: op == BinOp::NotEq }
                } else if matches!(ty, Type::F64) {
                    BinOpPlan::FloatCompare(op)
                } else {
                    BinOpPlan::IntCompare(op)
                }
            },
        }
    }

    /// The plan for a cast (the choices `codegen_cast` makes); an unsupported
    /// cast is reported as `unsupported cast FROM -> TO`.
    pub fn cast_plan(&self, from: &Type, to: &Type) -> (r: Result<CastPlan, String>)
        ensures
            match r {
                Ok(p) => cast_plan_of(from@, to@) == Some(p),
                Err(m) => cast_plan_of(from@, to@) is None
                    && m@ == "unsupported cast "@ + type_debug_text(from@) + " -> "@ + type_debug_text(to@),
            },
    {
        match (from, to) {
            (Type::I32, Type::F64) | (Type::I64, Type::F64) => Ok(CastPlan::IntToFloat),
            (Type::F64, Type::I32) => Ok(CastPlan::FloatToI32),
            (Type::F64, Type::I64) => Ok(CastPlan::FloatToI64),
            (Type::I32, Type::I64) => Ok(CastPlan::WidenToI64),
            (Type::I64, Type::I32) => Ok(CastPlan::NarrowToI32),
            _ => {
                let f = debug_type(from);
                let t = debug_type(to);
                let mut m = String::from_str("unsupported cast ");
                m.append(f.as_str());
                m.append(" -> ");
                m.append(t.as_str());
                Err(m)
            },
        }
    }
}

// ─── Agreement with the type checker ─────────────────────────────────────────

/// The checker's state and code generation's tables agree: every variable the
/// checker sees has the same type here, and every struct it knows has the same
/// fields here.
pub open spec fn tables_agree(tenv: Env, cenv: CgEnv) -> bool {
    &&& forall|name: Seq<char>| #[trigger] lookup_var(tenv, name) is Some
        ==> cg_lookup(cenv, name) == Some((lookup_var(tenv, name)->0).0)
    &&& forall|sn: Seq<char>| #[trigger] find_last(tenv.structs, sn) is Some
        ==> (find_last(cenv.structs, sn) is Some && find_last(cenv.structs, sn)->0.fields == find_last(tenv.structs, sn)->0.fields)
}

/// Expressions whose type code generation reads off the expression and the
/// variable and struct tables: no call, method call, `if` or `match` in the
/// parts whose types it reads.
pub open spec fn plain_expr(e: SpecExpr) -> bool
    decreases e, 0int,
{
    match e {
        SpecExpr::Call { .. } | SpecExpr::MethodCall { .. } | SpecExpr::If { .. } | SpecExpr::Match { .. } => false,
        SpecExpr::BinOp { left, right, .. } => plain_expr(*left) && plain_expr(*right),
        SpecExpr::UnaryOp { operand, .. } => plain_expr(*operand),
        SpecExpr::FieldAccess { obj, .. } => plain_expr(*obj),
        SpecExpr::Index { obj, .. } => plain_expr(*obj),
        SpecExpr::Array(elems, _) => elems.len() == 0 || plain_expr(elems[0]),
        SpecExpr::Tuple(elems, _) => plain_exprs(elems, 0),
        _ => true,
    }
}

pub open spec fn plain_exprs(elems: Seq<SpecExpr>, i: int) -> bool
    decreases elems, elems.len() - i,
{
    if i < 0 || i >= elems.len() {
        true
    } else {
        plain_expr(elems[i]) && plain_exprs(elems, i + 1)
    }
}

/// Code generation gives a plain expression the type the checker infers for
/// it, where the two agree on the variables and structs in scope.
pub proof fn law_cg_type_matches_checker(tenv: Env, cenv: CgEnv, e: SpecExpr)
    requires
        tables_agree(tenv, cenv),
        plain_expr(e),
        t_expr(tenv, e) is Ok,
    ensures
        cg_type(cenv, e) == Ok::<SpecType, Seq<char>>(t_expr(tenv, e)->Ok_0),
    decreases e, 0int,
{
    match e {
        SpecExpr::Tuple(elems, _) => {
            lemma_cg_types_match(tenv, cenv, elems, 0);
        },
        SpecExpr::BinOp { left, right, .. } => {
            law_cg_type_matches_checker(tenv, cenv, *left);
            law_cg_type_matches_checker(tenv, cenv, *right);
        },
        SpecExpr::UnaryOp { operand, .. } => {
            law_cg_type_matches_checker(tenv, cenv, *operand);
        },
        SpecExpr::FieldAccess { obj, field, .. } => {
            law_cg_type_matches_checker(tenv, cenv, *obj);
            let ot = t_expr(tenv, *obj)->Ok_0;
            if let SpecType::Named(sn) = ot {
                assert(find_last(tenv.structs, sn) is Some);
            }
        },
        SpecExpr::Index { obj, .. } => {
            law_cg_type_matches_checker(tenv, cenv, *obj);
        },
        SpecExpr::Array(elems, _) => {
            if elems.len() > 0 {
                law_cg_type_matches_checker(tenv, cenv, elems[0]);
            }
        },
        SpecExpr::Ident(name, _) => {
            assert(lookup_var(tenv, name) is Some);
        },
        _ => {},
    }
}

proof fn lemma_cg_types_match(tenv: Env, cenv: CgEnv, elems: Seq<SpecExpr>, i: int)
    requires
        tables_agree(tenv, cenv),
        plain_exprs(elems, i),
        t_exprs(tenv, elems, i) is Ok,
    ensures
        cg_types(cenv, elems, i) == Ok::<Seq<SpecType>, Seq<char>>(t_exprs(tenv, elems, i)->Ok_0),
    decreases elems, elems.len() - i,
{
    if 0 <= i < elems.len() {
        law_cg_type_matches_checker(tenv, cenv, elems[i]);
        lemma_cg_types_match(tenv, cenv, elems, i + 1);
    }
}

/// Code generation gives an `if` with an `else` whose branches both end in an
/// expression of type `t` the type `t`.
pub proof fn law_cg_if_else_has_branch_type(env: CgEnv, cond: SpecExpr, then: Seq<SpecStmt>, els: Seq<SpecStmt>, line: usize, t: SpecType)
    requires
        cg_tail(env, then) == Ok::<Option<SpecType>, Seq<char>>(Some(t)),
        cg_tail(env, els) == Ok::<Option<SpecType>, Seq<char>>(Some(t)),
    ensures
        cg_type(env, SpecExpr::If { cond: Box::new(cond), then, else_: Some(els), line }) == Ok::<SpecType, Seq<char>>(t),
{
}

/// Code generation types a binary operation on two operands of one type `t`:
/// the arithmetic operators give `t`, the comparisons and logic give `bool`.
pub proof fn law_cg_operator_types(env: CgEnv, a: SpecExpr, b: SpecExpr, line: usize, t: SpecType)
    requires
        cg_type(env, a) == Ok::<SpecType, Seq<char>>(t),
        cg_type(env, b) == Ok::<SpecType, Seq<char>>(t),
    ensures
        cg_type(env, SpecExpr::BinOp { op: BinOp::Add, left: Box::new(a), right: Box::new(b), line }) == Ok::<SpecType, Seq<char>>(t),
        cg_type(env, SpecExpr::BinOp { op: BinOp::Sub, left: Box::new(a), right: Box::new(b), line }) == Ok::<SpecType, Seq<char>>(t),
        cg_type(env, SpecExpr::BinOp { op: BinOp::Mul, left: Box::new(a), right: Box::new(b), line }) == Ok::<SpecType, Seq<char>>(t),
        cg_type(env, SpecExpr::BinOp { op: BinOp::Div, left: Box::new(a), right: Box::new(b), line }) == Ok::<SpecType, Seq<char>>(t),
        cg_type(env, SpecExpr::BinOp { op: BinOp::Mod, left: Box::new(a), right: Box::new(b), line }) == Ok::<SpecType, Seq<char>>(t),
        cg_type(env, SpecExpr::BinOp { op: BinOp::Lt, left: Box::new(a), right: Box::new(b), line }) == Ok::<SpecType, Seq<char>>(SpecType::Bool),
        cg_type(env, SpecExpr::BinOp { op: BinOp::Gt, left: Box::new(a), right: Box::new(b), line }) == Ok::<SpecType, Seq<char>>(SpecType::Bool),
        cg_type(env, SpecExpr::BinOp { op: BinOp::LtEq, left: Box::new(a), right: Box::new(b), line }) == Ok::<SpecType, Seq<char>>(SpecType::Bool),
        cg_type(env, SpecExpr::BinOp { op: BinOp::GtEq, left: Box::new(a), right: Box::new(b), line }) == Ok::<SpecType, Seq<char>>(SpecType::Bool),
        cg_type(env, SpecExpr::BinOp { op: BinOp::Eq, left: Box::new(a), right: Box::new(b), line }) == Ok::<SpecType, Seq<char>>(SpecType::Bool),
        cg_type(env, SpecExpr::BinOp { op: BinOp::NotEq, left: Box::new(a), right: Box::new(b), line }) == Ok::<SpecType, Seq<char>>(SpecType::Bool),
        cg_type(env, SpecExpr::BinOp { op: BinOp::And, left: Box::new(a), right: Box::new(b), line }) == Ok::<SpecType, Seq<char>>(SpecType::Bool),
        cg_type(env, SpecExpr::BinOp { op: BinOp::Or, left: Box::new(a), right: Box::new(b), line }) == Ok::<SpecType, Seq<char>>(SpecType::Bool),
{
}

} // verus!
