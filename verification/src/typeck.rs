//! The type checker: walks the items the parser produced, infers the type of
//! every expression, checks operations, calls, field and method uses,
//! assignments and returns. Every routine is proved to follow the rules in
//! `typing`.
use vstd::prelude::*;
use vstd::string::StringExecFns;

use crate::ast::{
    spec_types, lemma_spec_types_len, BinOp, UnaryOp, Expr, Stmt, AssignTarget, MatchArm, Pattern,
    FnDef, Param, StructDef, ImplBlock, Item, Type, SpecType, SpecExpr, SpecStmt, SpecItem,
    SpecParam, SpecFnDef, spec_exprs, spec_stmts, spec_arms, spec_items, spec_params,
    spec_patterns, spec_field_pats, spec_field_inits, spec_fn_defs, spec_struct_fields,
};
use crate::diag::debug_type;
use crate::text::string_from_chars;
use crate::typing::{
    SpecTypeError, Typed, SpecSig, SpecStructInfo, Env, Checked, terr, find_last_upto, find_last,
    index_last_upto, find_first_from, find_first, lookup_upto, lookup_var, push_scope, pop_scope,
    declare, digit_char, dec_text, dbg, is_numeric, assignable, castable, chk_type, chk_same,
    chk_assignable, chk_numeric, chk_castable, t_binop, t_field, array_obj_mutable,
    expr_is_mutable, t_expr, t_elems_same, t_exprs, t_tail, t_arms, t_call, t_args, t_args_from,
    t_array_method, method_sig, t_lit_fields, lit_known_fields, t_pattern, t_pats, t_field_pats,
    t_target, t_stmt, t_block, t_stmts, bind_params, t_fn, t_methods, t_item, sig_params, sig_of,
    field_list, register_fn, register_struct, add_method, add_methods, register_impl,
    register_item, collect_from, check_items_from, t_program, unary_sig, builtin_sigs,
    initial_env,
};

verus! {

// ─── Error ───────────────────────────────────────────────────────────────────

/// A type error: what went wrong and on which line.
#[derive(Debug)]
pub struct TypeError {
    pub message: String,
    pub line: usize,
}

impl View for TypeError {
    type V = SpecTypeError;

    open spec fn view(&self) -> SpecTypeError {
        SpecTypeError { message: self.message@, line: self.line }
    }
}

impl TypeError {
    fn new(message: String, line: usize) -> (e: Self)
        ensures
            e@ == (SpecTypeError { message: message@, line }),
    {
        Self { message, line }
    }

    /// The text the command line prints for this error.
    pub fn to_display_string(&self) -> (s: String)
        ensures
            s@ == "type error on line "@ + dec_text(self.line as nat) + ": "@ + self.message@,
    {
        let mut s = String::from_str("type error on line ");
        let n = usize_text(self.line);
        s.append(n.as_str());
        s.append(": ");
        s.append(self.message.as_str());
        s
    }
}

pub type TypeResult<T> = Result<T, TypeError>;

/// The model of a typing outcome.
pub open spec fn typed_view(r: TypeResult<Type>) -> Typed<SpecType> {
    match r {
        Ok(t) => Ok(t@),
        Err(e) => Err(e@),
    }
}

pub open spec fn unit_view(r: TypeResult<()>) -> Typed<()> {
    match r {
        Ok(_) => Ok(()),
        Err(e) => Err(e@),
    }
}

// ─── Text helpers ────────────────────────────────────────────────────────────

/// Decimal text of a number.
pub fn usize_text(n: usize) -> (s: String)
    ensures
        s@ == dec_text(n as nat),
{
    let digits = dec_digits(n);
    string_from_chars(&digits)
}

fn dec_digits(n: usize) -> (v: Vec<char>)
    ensures
        v@ == dec_text(n as nat),
    decreases n,
{
    if n < 10 {
        let mut v: Vec<char> = Vec::new();
        v.push(digit(n));
        proof {
            assert(v@ =~= seq![digit_char(n as nat)]);
        }
        v
    } else {
        let mut v = dec_digits(n / 10);
        v.push(digit(n % 10));
        v
    }
}

fn digit(d: usize) -> (c: char)
    requires
        d < 10,
    ensures
        c == digit_char(d as nat),
{
    if d == 0 { '0' } else if d == 1 { '1' } else if d == 2 { '2' } else if d == 3 { '3' }
    else if d == 4 { '4' } else if d == 5 { '5' } else if d == 6 { '6' } else if d == 7 { '7' }
    else if d == 8 { '8' } else { '9' }
}

fn text2(a: &str, b: &str) -> (s: String)
    ensures
        s@ == a@ + b@,
{
    let mut s = String::from_str(a);
    s.append(b);
    s
}

fn text3(a: &str, b: &str, c: &str) -> (s: String)
    ensures
        s@ == a@ + b@ + c@,
{
    let mut s = String::from_str(a);
    s.append(b);
    s.append(c);
    s
}

fn text4(a: &str, b: &str, c: &str, d: &str) -> (s: String)
    ensures
        s@ == a@ + b@ + c@ + d@,
{
    let mut s = String::from_str(a);
    s.append(b);
    s.append(c);
    s.append(d);
    s
}

fn text5(a: &str, b: &str, c: &str, d: &str, e: &str) -> (s: String)
    ensures
        s@ == a@ + b@ + c@ + d@ + e@,
{
    let mut s = String::from_str(a);
    s.append(b);
    s.append(c);
    s.append(d);
    s.append(e);
    s
}

fn err<T>(message: String, line: usize) -> (r: TypeResult<T>)
    ensures
        r is Err,
        r->Err_0@ == (SpecTypeError { message: message@, line }),
{
    Err(TypeError::new(message, line))
}

// ─── Type equality ───────────────────────────────────────────────────────────

/// Structural equality of types.
#[verifier::loop_isolation(false)]
pub fn type_eq(a: &Type, b: &Type) -> (r: bool)
    ensures
        r == (a@ == b@),
    decreases a,
{
    match a {
        Type::I32 => matches!(b, Type::I32),
        Type::I64 => matches!(b, Type::I64),
        Type::F64 => matches!(b, Type::F64),
        Type::Bool => matches!(b, Type::Bool),
        Type::Str => matches!(b, Type::Str),
        Type::Void => matches!(b, Type::Void),
        Type::SelfType => matches!(b, Type::SelfType),
        Type::Range => matches!(b, Type::Range),
        Type::Tuple(x) => match b {
            Type::Tuple(y) => {
                proof {
                    lemma_spec_types_len(x@);
                    lemma_spec_types_len(y@);
                }
                if x.len() != y.len() {
                    return false;
                }
                let mut i: usize = 0;
                while i < x.len()
                    invariant
                        x.len() == y.len(),
                        i <= x.len(),
                        spec_types(x@).len() == x.len(),
                        spec_types(y@).len() == y.len(),
                        forall|j: int| 0 <= j < x.len() ==> #[trigger] spec_types(x@)[j] == (x@[j])@,
                        forall|j: int| 0 <= j < y.len() ==> #[trigger] spec_types(y@)[j] == (y@[j])@,
                        forall|j: int| 0 <= j < i ==> (x@[j])@ == (y@[j])@,
                    decreases x.len() - i,
                {
                    proof {
                        assert(decreases_to!(x => x@));
                        assert(decreases_to!(x@ => x@[i as int]));
                    }
                    if !type_eq(&x[i], &y[i]) {
                        proof {
                            assert(spec_types(x@)[i as int] != spec_types(y@)[i as int]);
                        }
                        return false;
                    }
                    i = i + 1;
                }
                proof {
                    assert(spec_types(x@) =~= spec_types(y@));
                }
                true
            },
            _ => false,
        },
        Type::Array(x) => match b {
            Type::Array(y) => type_eq(x, y),
            _ => false,
        },
        Type::Optional(x) => match b {
            Type::Optional(y) => type_eq(x, y),
            _ => false,
        },
        Type::Named(x) => match b {
            Type::Named(y) => *x == *y,
            _ => false,
        },
    }
}

// ─── Checker state ───────────────────────────────────────────────────────────

/// A function signature: parameters (without `self`) and result type.
struct FnSig {
    params: Vec<(String, Type)>,
    ret: Type,
}

/// A struct's fields, in declaration order, and its methods.
struct StructInfo {
    fields: Vec<(String, Type)>,
    methods: Vec<(String, FnSig)>,
}

/// Lexical scopes, innermost last; each maps a name to (type, mutable).
struct ScopeStack {
    scopes: Vec<Vec<(String, (Type, bool))>>,
}

pub open spec fn pairs_view(s: Seq<(String, Type)>) -> Seq<(Seq<char>, SpecType)> {
    s.map_values(|p: (String, Type)| (p.0@, p.1@))
}

spec fn sig_view(f: FnSig) -> SpecSig {
    SpecSig { params: pairs_view(f.params@), ret: f.ret@ }
}

spec fn sigs_view(s: Seq<(String, FnSig)>) -> Seq<(Seq<char>, SpecSig)> {
    s.map_values(|p: (String, FnSig)| (p.0@, sig_view(p.1)))
}

spec fn info_view(i: StructInfo) -> SpecStructInfo {
    SpecStructInfo { fields: pairs_view(i.fields@), methods: sigs_view(i.methods@) }
}

spec fn structs_view(s: Seq<(String, StructInfo)>) -> Seq<(Seq<char>, SpecStructInfo)> {
    s.map_values(|p: (String, StructInfo)| (p.0@, info_view(p.1)))
}

spec fn scope_view(s: Seq<(String, (Type, bool))>) -> Seq<(Seq<char>, (SpecType, bool))> {
    s.map_values(|b: (String, (Type, bool))| (b.0@, (b.1.0@, b.1.1)))
}

spec fn scopes_view(s: Seq<Vec<(String, (Type, bool))>>) -> Seq<Seq<(Seq<char>, (SpecType, bool))>> {
    s.map_values(|sc: Vec<(String, (Type, bool))>| scope_view(sc@))
}

spec fn opt_type_view(t: Option<Type>) -> Option<SpecType> {
    match t {
        Some(t) => Some(t@),
        None => None,
    }
}

/// The position of the last entry named `name`, if any.
#[verifier::loop_isolation(false)]
fn index_of_sig(v: &Vec<(String, FnSig)>, name: &String) -> (r: Option<usize>)
    ensures
        match r {
            Some(k) => k < v.len() && find_last(sigs_view(v@), name@) == Some(sig_view(v@[k as int].1)),
            None => find_last(sigs_view(v@), name@) is None,
        },
{
    let ghost s = sigs_view(v@);
    let mut i: usize = v.len();
    while i > 0
        invariant
            i <= v.len(),
            s == sigs_view(v@),
            find_last_upto(s, name@, v.len() as int) == find_last_upto(s, name@, i as int),
        decreases i,
    {
        if v[i - 1].0 == *name {
            return Some(i - 1);
        }
        i = i - 1;
    }
    None
}

/// The position of the last struct named `name`, if any.
#[verifier::loop_isolation(false)]
fn index_of_struct(v: &Vec<(String, StructInfo)>, name: &String) -> (r: Option<usize>)
    ensures
        match r {
            Some(k) => k < v.len()
                && find_last(structs_view(v@), name@) == Some(info_view(v@[k as int].1))
                && index_last_upto(structs_view(v@), name@, v.len() as int) == k,
            None => find_last(structs_view(v@), name@) is None
                && index_last_upto(structs_view(v@), name@, v.len() as int) == -1,
        },
{
    let ghost s = structs_view(v@);
    let mut i: usize = v.len();
    while i > 0
        invariant
            i <= v.len(),
            s == structs_view(v@),
            find_last_upto(s, name@, v.len() as int) == find_last_upto(s, name@, i as int),
            index_last_upto(s, name@, v.len() as int) == index_last_upto(s, name@, i as int),
        decreases i,
    {
        if v[i - 1].0 == *name {
            return Some(i - 1);
        }
        i = i - 1;
    }
    None
}

/// The type of the first field named `name`, if any.
#[verifier::loop_isolation(false)]
fn first_field(v: &Vec<(String, Type)>, name: &String) -> (r: Option<Type>)
    ensures
        match r {
            Some(t) => find_first(pairs_view(v@), name@) == Some(t@),
            None => find_first(pairs_view(v@), name@) is None,
        },
{
    let ghost s = pairs_view(v@);
    let mut i: usize = 0;
    while i < v.len()
        invariant
            i <= v.len(),
            s == pairs_view(v@),
            find_first_from(s, name@, 0) == find_first_from(s, name@, i as int),
        decreases v.len() - i,
    {
        if v[i].0 == *name {
            return Some(v[i].1.clone());
        }
        i = i + 1;
    }
    None
}

impl ScopeStack {
    spec fn view_scopes(&self) -> Seq<Seq<(Seq<char>, (SpecType, bool))>> {
        scopes_view(self.scopes@)
    }

    fn new() -> (s: Self)
        ensures
            s.scopes@.len() == 1,
            s.view_scopes() == seq![Seq::<(Seq<char>, (SpecType, bool))>::empty()],
    {
        let mut scopes: Vec<Vec<(String, (Type, bool))>> = Vec::new();
        scopes.push(Vec::new());
        let s = Self { scopes };
        proof {
            assert(scope_view(s.scopes@[0]@) =~= Seq::empty());
            assert(s.view_scopes() =~= seq![Seq::<(Seq<char>, (SpecType, bool))>::empty()]);
        }
        s
    }

    fn push(&mut self)
        ensures
            final(self).scopes@.len() == old(self).scopes@.len() + 1,
            final(self).view_scopes() == old(self).view_scopes().push(Seq::empty()),
    {
        self.scopes.push(Vec::new());
        proof {
            assert(scope_view(self.scopes@.last()@) =~= Seq::empty());
            assert(self.view_scopes() =~= old(self).view_scopes().push(Seq::empty()));
        }
    }

    fn pop(&mut self)
        ensures
            final(self).scopes@.len() == (if old(self).scopes@.len() == 0 { 0 } else { old(self).scopes@.len() - 1 }),
            final(self).view_scopes() == (if old(self).view_scopes().len() == 0 {
                old(self).view_scopes()
            } else {
                old(self).view_scopes().drop_last()
            }),
    {
        let _ = self.scopes.pop();
        proof {
            assert(self.view_scopes() =~= (if old(self).view_scopes().len() == 0 {
                old(self).view_scopes()
            } else {
                old(self).view_scopes().drop_last()
            }));
        }
    }

    fn declare(&mut self, name: String, ty: Type, mutable: bool)
        requires
            old(self).scopes@.len() > 0,
        ensures
            final(self).scopes@.len() == old(self).scopes@.len(),
            final(self).view_scopes() == old(self).view_scopes().update(
                old(self).view_scopes().len() - 1,
                old(self).view_scopes().last().push((name@, (ty@, mutable))),
            ),
    {
        let ghost nv = name@;
        let ghost tv = ty@;
        let mut scope = self.scopes.pop().unwrap();
        let ghost old_scope = scope@;
        scope.push((name, (ty, mutable)));
        proof {
            assert(scope_view(scope@) =~= scope_view(old_scope).push((nv, (tv, mutable))));
        }
        self.scopes.push(scope);
        proof {
            assert(self.view_scopes() =~= old(self).view_scopes().update(
                old(self).view_scopes().len() - 1,
                old(self).view_scopes().last().push((nv, (tv, mutable))),
            ));
        }
    }

    #[verifier::loop_isolation(false)]
    fn lookup(&self, name: &String) -> (r: Option<(Type, bool)>)
        ensures
            match r {
                Some((t, m)) => lookup_upto(self.view_scopes(), name@, self.view_scopes().len() as int)
                    == Some((t@, m)),
                None => lookup_upto(self.view_scopes(), name@, self.view_scopes().len() as int) is None,
            },
    {
        let ghost ss = self.view_scopes();
        let mut k: usize = self.scopes.len();
        while k > 0
            invariant
                k <= self.scopes@.len(),
                ss == self.view_scopes(),
                ss.len() == self.scopes@.len(),
                lookup_upto(ss, name@, ss.len() as int) == lookup_upto(ss, name@, k as int),
            decreases k,
        {
            let scope = &self.scopes[k - 1];
            let ghost sv = scope_view(scope@);
            proof {
                assert(sv == ss[k - 1]);
            }
            let mut i: usize = scope.len();
            while i > 0
                invariant
                    i <= scope@.len(),
                    sv == scope_view(scope@),
                    find_last_upto(sv, name@, scope@.len() as int) == find_last_upto(sv, name@, i as int),
                decreases i,
            {
                if scope[i - 1].0 == *name {
                    return Some((scope[i - 1].1.0.clone(), scope[i - 1].1.1));
                }
                i = i - 1;
            }
            k = k - 1;
        }
        None
    }
}

/// The type checker.
pub struct TypeChecker {
    scopes: ScopeStack,
    functions: Vec<(String, FnSig)>,
    structs: Vec<(String, StructInfo)>,
    current_ret: Option<Type>,
    returned: bool,
}

impl TypeChecker {
    /// The checker's state as the typing rules see it.
    pub closed spec fn env(&self) -> Env {
        Env {
            scopes: self.scopes.view_scopes(),
            functions: sigs_view(self.functions@),
            structs: structs_view(self.structs@),
            current_ret: opt_type_view(self.current_ret),
            returned: self.returned,
        }
    }

    /// The checker's invariant: there is always a scope to declare into.
    pub closed spec fn wf(&self) -> bool {
        self.scopes.scopes@.len() > 0
    }

    pub fn new() -> (tc: Self)
        ensures
            tc.wf(),
            tc.env() == initial_env(),
    {
        let tc = Self {
            scopes: ScopeStack::new(),
            functions: Self::builtin_fns(),
            structs: Vec::new(),
            current_ret: None,
            returned: false,
        };
        proof {
            assert(structs_view(tc.structs@) =~= Seq::empty());
        }
        tc
    }

    fn unary(param: Type, ret: Type) -> (s: FnSig)
        ensures
            sig_view(s) == unary_sig(param@, ret@),
    {
        let mut params: Vec<(String, Type)> = Vec::new();
        params.push((String::from_str("x"), param));
        let s = FnSig { params, ret };
        proof {
            assert(pairs_view(s.params@) =~= seq![("x"@, s.params@[0].1@)]);
        }
        s
    }

    fn builtin_fns() -> (m: Vec<(String, FnSig)>)
        ensures
            sigs_view(m@) == builtin_sigs(),
    {
        let mut m: Vec<(String, FnSig)> = Vec::new();
        m.push((String::from_str("print"), Self::unary(Type::Str, Type::Void)));
        m.push((String::from_str("input"), FnSig { params: Vec::new(), ret: Type::Str }));
        m.push((String::from_str("len"), Self::unary(Type::Str, Type::I32)));
        m.push((String::from_str("str"), Self::unary(Type::I32, Type::Str)));
        m.push((String::from_str("int"), Self::unary(Type::Str, Type::I32)));
        m.push((String::from_str("float"), Self::unary(Type::Str, Type::F64)));
        m.push((String::from_str("sqrt"), Self::unary(Type::F64, Type::F64)));
        proof {
            assert(pairs_view(m@[1].1.params@) =~= Seq::empty());
            assert(sigs_view(m@) =~= builtin_sigs());
        }
        m
    }
}

/// Whether a type is the type of `none`: an optional of `void`.
pub fn is_none_type(t: &Type) -> (r: bool)
    ensures
        r == (t@ == SpecType::Optional(Box::new(SpecType::Void))),
{
    match t {
        Type::Optional(inner) => {
            let r = matches!(**inner, Type::Void);
            proof {
                assert(t@ == SpecType::Optional(Box::new((**inner)@)));
                if !r {
                    assert((**inner)@ != SpecType::Void);
                }
            }
            r
        },
        _ => false,
    }
}

/// Whether `s` is the word `w`.
fn is_word(s: &String, w: &str) -> (r: bool)
    ensures
        r == (s@ == w@),
{
    let t = String::from_str(w);
    *s == t
}

spec fn opt_typed_view(r: TypeResult<Option<Type>>) -> Typed<Option<SpecType>> {
    match r {
        Ok(Some(t)) => Ok(Some(t@)),
        Ok(None) => Ok(None),
        Err(e) => Err(e@),
    }
}

spec fn target_view(r: TypeResult<(Type, bool)>) -> Typed<(SpecType, bool)> {
    match r {
        Ok((t, m)) => Ok((t@, m)),
        Err(e) => Err(e@),
    }
}

/// The position of the last field value given for `name`, if any.
#[verifier::loop_isolation(false)]
fn index_of_init(v: &Vec<(String, Expr)>, name: &String) -> (r: Option<usize>)
    ensures
        ({
            let k = index_last_upto(spec_field_inits(v@), name@, v@.len() as int);
            match r {
                Some(i) => i < v.len() && k == i,
                None => k < 0,
            }
        }),
{
    let ghost s = spec_field_inits(v@);
    proof {
        crate::ast::lemma_field_inits_index(v@);
    }
    let mut i: usize = v.len();
    while i > 0
        invariant
            i <= v.len(),
            s == spec_field_inits(v@),
            s.len() == v@.len(),
            forall|j: int| 0 <= j < v@.len() ==> #[trigger] s[j] == (v@[j].0@, v@[j].1@),
            index_last_upto(s, name@, v@.len() as int) == index_last_upto(s, name@, i as int),
        decreases i,
    {
        if v[i - 1].0 == *name {
            return Some(i - 1);
        }
        i = i - 1;
    }
    None
}

impl TypeChecker {
    // ── Type assertions ───────────────────────────────────────────────────────

    fn assert_type(&self, got: &Type, expected: &Type, line: usize) -> (r: TypeResult<()>)
        ensures
            unit_view(r) == chk_type(got@, expected@, line),
    {
        if type_eq(got, expected) {
            Ok(())
        } else {
            let e = debug_type(expected);
            let g = debug_type(got);
            err(text4("expected ", e.as_str(), ", got ", g.as_str()), line)
        }
    }

    fn assert_same(&self, a: &Type, b: &Type, line: usize) -> (r: TypeResult<()>)
        ensures
            unit_view(r) == chk_same(a@, b@, line),
    {
        if type_eq(a, b) {
            Ok(())
        } else {
            let x = debug_type(a);
            let y = debug_type(b);
            err(text4("type mismatch: ", x.as_str(), " vs ", y.as_str()), line)
        }
    }

    /// `T` is assignable to `?T`; `none` (`?void`) is assignable to any `?T`.
    fn assert_comparable(&self, a: &Type, b: &Type, line: usize) -> (r: TypeResult<()>)
        ensures
            unit_view(r) == crate::typing::chk_comparable(a@, b@, line),
    {
        if type_eq(a, b) || (matches!(a, Type::Optional(_)) && is_none_type(b))
            || (is_none_type(a) && matches!(b, Type::Optional(_))) {
            Ok(())
        } else {
            let x = debug_type(a);
            let y = debug_type(b);
            err(text4("type mismatch: ", x.as_str(), " vs ", y.as_str()), line)
        }
    }

    fn assert_assignable(&self, got: &Type, expected: &Type, line: usize) -> (r: TypeResult<()>)
        ensures
            unit_view(r) == chk_assignable(got@, expected@, line),
    {
        if type_eq(got, expected) {
            return Ok(());
        }
        if let Type::Optional(inner) = expected {
            if type_eq(got, inner) {
                return Ok(());
            }
        }
        if let Type::Optional(b) = got {
            if matches!(**b, Type::Void) && matches!(expected, Type::Optional(_)) {
                proof {
                    assert((**b)@ == SpecType::Void);
                }
                return Ok(());
            }
        }
        proof {
            match got {
                Type::Optional(b) => {
                    assert(got@ == SpecType::Optional(Box::new((**b)@)));
                    if (**b)@ == SpecType::Void {
                        assert(**b is Void);
                    }
                },
                _ => {
                    assert(!(got@ is Optional));
                },
            }
            match expected {
                Type::Optional(inner) => {
                    assert(expected@ == SpecType::Optional(Box::new((**inner)@)));
                },
                _ => {
                    assert(!(expected@ is Optional));
                },
            }
        }
        let g = debug_type(got);
        let e = debug_type(expected);
        err(text4("cannot assign ", g.as_str(), " to ", e.as_str()), line)
    }

    fn assert_numeric(&self, ty: &Type, line: usize) -> (r: TypeResult<()>)
        ensures
            unit_view(r) == chk_numeric(ty@, line),
    {
        match ty {
            Type::I32 | Type::I64 | Type::F64 => Ok(()),
            _ => {
                let d = debug_type(ty);
                err(text2("expected numeric type, got ", d.as_str()), line)
            },
        }
    }

    fn assert_castable(&self, from: &Type, to: &Type, line: usize) -> (r: TypeResult<()>)
        ensures
            unit_view(r) == chk_castable(from@, to@, line),
    {
        let numeric_from = matches!(from, Type::I32 | Type::I64 | Type::F64);
        let numeric_to = matches!(to, Type::I32 | Type::I64 | Type::F64);
        if numeric_from && numeric_to {
            return Ok(());
        }
        if matches!(from, Type::Bool) && numeric_to {
            return Ok(());
        }
        let f = debug_type(from);
        let t = debug_type(to);
        err(text4("cannot cast ", f.as_str(), " to ", t.as_str()), line)
    }

    // ── Field lookup ──────────────────────────────────────────────────────────

    fn lookup_field(&self, obj_ty: &Type, field: &String, line: usize) -> (r: TypeResult<Type>)
        ensures
            typed_view(r) == t_field(self.env(), obj_ty@, field@, line),
    {
        match obj_ty {
            Type::Named(sn) => match index_of_struct(&self.structs, sn) {
                None => err(text3("undefined struct '", sn.as_str(), "'"), line),
                Some(k) => match first_field(&self.structs[k].1.fields, field) {
                    Some(t) => Ok(t),
                    None => err(text5("no field '", field.as_str(), "' on struct '", sn.as_str(), "'"), line),
                },
            },
            _ => {
                if matches!(obj_ty, Type::Array(_)) && is_word(field, "length") {
                    Ok(Type::I32)
                } else {
                    let d = debug_type(obj_ty);
                    err(text4("cannot access field '", field.as_str(), "' on ", d.as_str()), line)
                }
            },
        }
    }

    // ── Patterns ──────────────────────────────────────────────────────────────

    #[verifier::loop_isolation(false)]
    fn check_pattern(&self, pattern: &Pattern, subject_ty: &Type, line: usize) -> (r: TypeResult<()>)
        ensures
            unit_view(r) == t_pattern(self.env(), pattern@, subject_ty@, line),
        decreases pattern,
    {
        match pattern {
            Pattern::Wildcard | Pattern::Binding(_) => Ok(()),
            Pattern::Int(_) => self.assert_type(subject_ty, &Type::I32, line),
            Pattern::Float(_) => self.assert_type(subject_ty, &Type::F64, line),
            Pattern::Bool(_) => self.assert_type(subject_ty, &Type::Bool, line),
            Pattern::Str(_) => self.assert_type(subject_ty, &Type::Str, line),
            Pattern::NoneLit => match subject_ty {
                Type::Optional(_) => Ok(()),
                _ => err(String::from_str("none pattern only matches optional types"), line),
            },
            Pattern::Tuple(pats) => match subject_ty {
                Type::Tuple(tys) => {
                    let ghost env = self.env();
                    let ghost ps = spec_patterns(pats@);
                    let ghost ts = spec_types(tys@);
                    proof {
                        crate::ast::lemma_patterns_index(pats@);
                        lemma_spec_types_len(tys@);
                    }
                    if pats.len() != tys.len() {
                        let a = usize_text(pats.len());
                        let b = usize_text(tys.len());
                        return err(text4("tuple pattern length mismatch: ", a.as_str(), " vs ", b.as_str()), line);
                    }
                    let mut i: usize = 0;
                    while i < pats.len()
                        invariant
                            i <= pats.len(),
                            pats.len() == tys.len(),
                            env == self.env(),
                            ps == spec_patterns(pats@),
                            ts == spec_types(tys@),
                            ps.len() == pats.len(),
                            ts.len() == tys.len(),
                            forall|j: int| 0 <= j < pats.len() ==> #[trigger] ps[j] == pats@[j]@,
                            forall|j: int| 0 <= j < tys.len() ==> #[trigger] ts[j] == tys@[j]@,
                            t_pats(env, ps, ts, 0, line) == t_pats(env, ps, ts, i as int, line),
                        decreases pats.len() - i,
                    {
                        proof {
                            assert(decreases_to!(pats => pats@));
                            assert(decreases_to!(pats@ => pats@[i as int]));
                        }
                        self.check_pattern(&pats[i], &tys[i], line)?;
                        i = i + 1;
                    }
                    Ok(())
                },
                _ => err(String::from_str("tuple pattern requires a tuple subject"), line),
            },
            Pattern::Struct { name, fields } => {
                let matches_name = match subject_ty {
                    Type::Named(n) => *n == *name,
                    _ => false,
                };
                if !matches_name {
                    return err(text3("struct pattern '", name.as_str(), "' does not match subject type"), line);
                }
                match index_of_struct(&self.structs, name) {
                    None => err(text3("unknown struct '", name.as_str(), "'"), line),
                    Some(k) => {
                        let info = &self.structs[k].1;
                        let ghost env = self.env();
                        let ghost decl = pairs_view(info.fields@);
                        let ghost fs = spec_field_pats(fields@);
                        proof {
                            crate::ast::lemma_field_pats_index(fields@);
                        }
                        let mut i: usize = 0;
                        while i < fields.len()
                            invariant
                                i <= fields.len(),
                                env == self.env(),
                                decl == pairs_view(info.fields@),
                                fs == spec_field_pats(fields@),
                                fs.len() == fields.len(),
                                forall|j: int| 0 <= j < fields.len() ==> #[trigger] fs[j] == (fields@[j].0@, fields@[j].1@),
                                t_field_pats(env, decl, fs, 0, name@, line)
                                    == t_field_pats(env, decl, fs, i as int, name@, line),
                            decreases fields.len() - i,
                        {
                            match first_field(&info.fields, &fields[i].0) {
                                None => {
                                    return err(text5("unknown field '", fields[i].0.as_str(), "' in struct '", name.as_str(), "'"), line);
                                },
                                Some(ft) => {
                                    proof {
                                        assert(decreases_to!(fields => fields@));
                                        assert(decreases_to!(fields@ => fields@[i as int]));
                                        assert(decreases_to!(fields@[i as int] => fields@[i as int].1));
                                    }
                                    self.check_pattern(&fields[i].1, &ft, line)?;
                                },
                            }
                            i = i + 1;
                        }
                        Ok(())
                    },
                }
            },
        }
    }
}

impl TypeChecker {
    // ── Expressions ───────────────────────────────────────────────────────────

    /// The type of an expression, or the first type error in it.
    #[verifier::rlimit(30)]
    pub fn infer_expr(&self, expr: &Expr) -> (r: TypeResult<Type>)
        ensures
            typed_view(r) == t_expr(self.env(), expr@),
        decreases expr, 3int,
    {
        proof {
            reveal_with_fuel(crate::ast::spec_type, 2);
        }
        match expr {
            Expr::Int(_, _) => Ok(Type::I32),
            Expr::Float(_, _) => Ok(Type::F64),
            Expr::Bool(_, _) => Ok(Type::Bool),
            Expr::Str(_, _) => Ok(Type::Str),
            Expr::NoneLit(_) => Ok(Type::Optional(Box::new(Type::Void))),
            Expr::Array(_, _) => self.infer_array(expr),
            Expr::Tuple(_, _) => self.infer_tuple(expr),
            Expr::Range { start, end, line, .. } => {
                let s = self.infer_expr(start)?;
                let e = self.infer_expr(end)?;
                self.assert_type(&s, &Type::I32, *line)?;
                self.assert_type(&e, &Type::I32, *line)?;
                Ok(Type::Range)
            },
            Expr::Ident(name, line) => match self.scopes.lookup(name) {
                Some((ty, _)) => Ok(ty),
                None => err(text3("undefined variable '", name.as_str(), "'"), *line),
            },
            Expr::BinOp { op, left, right, line } => {
                let lt = self.infer_expr(left)?;
                let rt = self.infer_expr(right)?;
                self.binop_type(*op, lt, rt, *line)
            },
            Expr::UnaryOp { op, operand, line } => {
                let ty = self.infer_expr(operand)?;
                match op {
                    UnaryOp::Neg => {
                        self.assert_numeric(&ty, *line)?;
                        Ok(ty)
                    },
                    UnaryOp::Not => {
                        self.assert_type(&ty, &Type::Bool, *line)?;
                        Ok(Type::Bool)
                    },
                }
            },
            Expr::Cast { expr: inner, ty, line } => {
                let from = self.infer_expr(inner)?;
                self.assert_castable(&from, ty, *line)?;
                Ok(ty.clone())
            },
            Expr::FieldAccess { obj, field, line } => {
                let ot = self.infer_expr(obj)?;
                self.lookup_field(&ot, field, *line)
            },
            Expr::Index { obj, index, line } => {
                let ot = self.infer_expr(obj)?;
                let it = self.infer_expr(index)?;
                self.assert_type(&it, &Type::I32, *line)?;
                match ot {
                    Type::Array(inner) => Ok(*inner),
                    Type::Str => Ok(Type::Str),
                    other => {
                        let d = debug_type(&other);
                        err(text2("cannot index into ", d.as_str()), *line)
                    },
                }
            },
            Expr::Call { name, args, line } => self.check_call(name, args, *line),
            Expr::MethodCall { .. } => self.infer_method_call(expr),
            Expr::StructLit { .. } => self.infer_struct_lit(expr),
            Expr::If { .. } => self.infer_if(expr),
            Expr::Match { .. } => self.infer_match(expr),
        }
    }

    fn binop_type(&self, op: BinOp, lt: Type, rt: Type, line: usize) -> (r: TypeResult<Type>)
        ensures
            typed_view(r) == t_binop(op, lt@, rt@, line),
    {
        match op {
            BinOp::And | BinOp::Or => {
                self.assert_type(&lt, &Type::Bool, line)?;
                self.assert_type(&rt, &Type::Bool, line)?;
                Ok(Type::Bool)
            },
            BinOp::Eq | BinOp::NotEq => {
                self.assert_comparable(&lt, &rt, line)?;
                Ok(Type::Bool)
            },
            BinOp::Lt | BinOp::Gt | BinOp::LtEq | BinOp::GtEq => {
                self.assert_numeric(&lt, line)?;
                self.assert_same(&lt, &rt, line)?;
                Ok(Type::Bool)
            },
            _ => {
                // str + str is concatenation
                if op == BinOp::Add && matches!(lt, Type::Str) && matches!(rt, Type::Str) {
                    return Ok(Type::Str);
                }
                self.assert_numeric(&lt, line)?;
                self.assert_same(&lt, &rt, line)?;
                Ok(lt)
            },
        }
    }

    #[verifier::loop_isolation(false)]
    fn infer_array(&self, expr: &Expr) -> (r: TypeResult<Type>)
        requires
            expr is Array,
        ensures
            typed_view(r) == t_expr(self.env(), expr@),
        decreases expr, 2int,
    {
        match expr {
            Expr::Array(elems, line) => {
                let ghost env = self.env();
                let ghost es = spec_exprs(elems@);
                proof {
                    crate::ast::lemma_exprs_index(elems@);
                }
                proof {
                    assert(expr@ == SpecExpr::Array(es, *line));
                    reveal_with_fuel(crate::ast::spec_type, 2);
                }
                if elems.len() == 0 {
                    return Ok(Type::Array(Box::new(Type::Void)));
                }
                proof {
                    assert(decreases_to!(elems => elems@));
                    assert(decreases_to!(elems@ => elems@[0]));
                }
                let first = self.infer_expr(&elems[0])?;
                let mut i: usize = 1;
                while i < elems.len()
                    invariant
                        1 <= i <= elems.len(),
                        env == self.env(),
                        es == spec_exprs(elems@),
                        es.len() == elems.len(),
                        forall|j: int| 0 <= j < elems.len() ==> #[trigger] es[j] == elems@[j]@,
                        t_elems_same(env, es, 1, first@, *line) == t_elems_same(env, es, i as int, first@, *line),
                    decreases elems.len() - i,
                {
                    proof {
                        assert(decreases_to!(elems => elems@));
                        assert(decreases_to!(elems@ => elems@[i as int]));
                    }
                    let t = self.infer_expr(&elems[i])?;
                    self.assert_same(&t, &first, *line)?;
                    i = i + 1;
                }
                Ok(Type::Array(Box::new(first)))
            },
            _ => Ok(Type::Void),
        }
    }

    #[verifier::loop_isolation(false)]
    fn infer_tuple(&self, expr: &Expr) -> (r: TypeResult<Type>)
        requires
            expr is Tuple,
        ensures
            typed_view(r) == t_expr(self.env(), expr@),
        decreases expr, 2int,
    {
        match expr {
            Expr::Tuple(elems, _) => {
                let ghost env = self.env();
                let ghost es = spec_exprs(elems@);
                proof {
                    crate::ast::lemma_exprs_index(elems@);
                }
                let mut tys: Vec<Type> = Vec::new();
                let mut i: usize = 0;
                while i < elems.len()
                    invariant
                        i <= elems.len(),
                        env == self.env(),
                        es == spec_exprs(elems@),
                        es.len() == elems.len(),
                        forall|j: int| 0 <= j < elems.len() ==> #[trigger] es[j] == elems@[j]@,
                        match t_exprs(env, es, i as int) {
                            Ok(ts) => t_exprs(env, es, 0) == Ok::<Seq<SpecType>, SpecTypeError>(spec_types(tys@) + ts),
                            Err(e) => t_exprs(env, es, 0) == Err::<Seq<SpecType>, SpecTypeError>(e),
                        },
                    decreases elems.len() - i,
                {
                    proof {
                        assert(decreases_to!(elems => elems@));
                        assert(decreases_to!(elems@ => elems@[i as int]));
                    }
                    let t = self.infer_expr(&elems[i])?;
                    proof {
                        crate::ast::lemma_types_push(tys@, t);
                        match t_exprs(env, es, i + 1) {
                            Ok(ts) => {
                                assert(spec_types(tys@) + (seq![t@] + ts) =~= spec_types(tys@).push(t@) + ts);
                            },
                            Err(_) => {},
                        }
                    }
                    tys.push(t);
                    i = i + 1;
                }
                proof {
                    assert(spec_types(tys@) + Seq::<SpecType>::empty() =~= spec_types(tys@));
                }
                Ok(Type::Tuple(tys))
            },
            _ => Ok(Type::Void),
        }
    }

    fn check_call(&self, name: &String, args: &Vec<Expr>, line: usize) -> (r: TypeResult<Type>)
        ensures
            typed_view(r) == t_call(self.env(), name@, spec_exprs(args@), line),
        decreases args, 2int,
    {
        proof {
            crate::ast::lemma_exprs_index(args@);
        }
        // len() accepts any array or str
        if is_word(name, "len") {
            if args.len() != 1 {
                return err(String::from_str("len() takes exactly 1 argument"), line);
            }
            proof {
                assert(decreases_to!(args => args@));
                assert(decreases_to!(args@ => args@[0]));
            }
            let t = self.infer_expr(&args[0])?;
            return match t {
                Type::Array(_) | Type::Str => Ok(Type::I32),
                other => {
                    let d = debug_type(&other);
                    err(text2("len() expects array or str, got ", d.as_str()), line)
                },
            };
        }
        // print() accepts any type
        if is_word(name, "print") {
            if args.len() != 1 {
                return err(String::from_str("print() takes exactly 1 argument"), line);
            }
            proof {
                assert(decreases_to!(args => args@));
                assert(decreases_to!(args@ => args@[0]));
            }
            self.infer_expr(&args[0])?;
            return Ok(Type::Void);
        }
        // str() accepts any type
        if is_word(name, "str") {
            if args.len() != 1 {
                return err(String::from_str("str() takes exactly 1 argument"), line);
            }
            proof {
                assert(decreases_to!(args => args@));
                assert(decreases_to!(args@ => args@[0]));
            }
            self.infer_expr(&args[0])?;
            return Ok(Type::Str);
        }
        match index_of_sig(&self.functions, name) {
            None => err(text3("undefined function '", name.as_str(), "'"), line),
            Some(k) => {
                let sig = &self.functions[k].1;
                self.check_args(&sig.params, args, line)?;
                Ok(sig.ret.clone())
            },
        }
    }

    #[verifier::loop_isolation(false)]
    fn check_args(&self, params: &Vec<(String, Type)>, args: &Vec<Expr>, line: usize) -> (r: TypeResult<()>)
        ensures
            unit_view(r) == t_args(self.env(), pairs_view(params@), spec_exprs(args@), line),
        decreases args, 1int,
    {
        let ghost env = self.env();
        let ghost ps = pairs_view(params@);
        let ghost es = spec_exprs(args@);
        proof {
            crate::ast::lemma_exprs_index(args@);
        }
        if args.len() != params.len() {
            let a = usize_text(params.len());
            let b = usize_text(args.len());
            return err(text4("expected ", a.as_str(), " argument(s), got ", b.as_str()), line);
        }
        let mut i: usize = 0;
        while i < args.len()
            invariant
                i <= args.len(),
                args.len() == params.len(),
                env == self.env(),
                ps == pairs_view(params@),
                es == spec_exprs(args@),
                es.len() == args.len(),
                forall|j: int| 0 <= j < args.len() ==> #[trigger] es[j] == args@[j]@,
                t_args_from(env, ps, es, 0, line) == t_args_from(env, ps, es, i as int, line),
            decreases args.len() - i,
        {
            proof {
                assert(decreases_to!(args => args@));
                assert(decreases_to!(args@ => args@[i as int]));
            }
            let at = self.infer_expr(&args[i])?;
            self.assert_assignable(&at, &params[i].1, line)?;
            i = i + 1;
        }
        Ok(())
    }

    fn check_array_method(
        &self,
        arr_ty: &Type,
        method: &String,
        args: &Vec<Expr>,
        line: usize,
        mutable: bool,
    ) -> (r: TypeResult<Type>)
        requires
            arr_ty is Array,
        ensures
            typed_view(r) == t_array_method(
                self.env(),
                match arr_ty@ { SpecType::Array(inner) => *inner, _ => SpecType::Void },
                method@,
                spec_exprs(args@),
                line,
                mutable,
            ),
        decreases args, 2int,
    {
        let elem_ty = match arr_ty {
            Type::Array(inner) => (**inner).clone(),
            _ => Type::Void,
        };
        proof {
            crate::ast::lemma_exprs_index(args@);
        }
        if is_word(method, "length") && args.len() == 0 {
            Ok(Type::I32)
        } else if is_word(method, "push") && args.len() == 1 {
            if !mutable {
                return err(String::from_str("push() requires a mutable array"), line);
            }
            proof {
                assert(decreases_to!(args => args@));
                assert(decreases_to!(args@ => args@[0]));
            }
            let at = self.infer_expr(&args[0])?;
            self.assert_assignable(&at, &elem_ty, line)?;
            Ok(Type::Void)
        } else if is_word(method, "pop") && args.len() == 0 {
            if !mutable {
                return err(String::from_str("pop() requires a mutable array"), line);
            }
            Ok(Type::Optional(Box::new(elem_ty)))
        } else if is_word(method, "contains") && args.len() == 1 {
            if matches!(elem_ty, Type::Array(_)) {
                return err(String::from_str("contains() does not support array elements yet"), line);
            }
            proof {
                assert(decreases_to!(args => args@));
                assert(decreases_to!(args@ => args@[0]));
            }
            let at = self.infer_expr(&args[0])?;
            self.assert_same(&at, &elem_ty, line)?;
            Ok(Type::Bool)
        } else {
            err(text3("no method '", method.as_str(), "' on array"), line)
        }
    }

    /// Whether an array receiver is a mutable variable.
    fn array_obj_mutable(&self, expr: &Expr) -> (b: bool)
        ensures
            b == array_obj_mutable(self.env(), expr@),
    {
        match expr {
            Expr::Ident(name, _) => match self.scopes.lookup(name) {
                Some((_, m)) => m,
                None => false,
            },
            _ => false,
        }
    }

    /// Whether an assignment through `expr` is allowed.
    fn expr_is_mutable(&self, expr: &Expr) -> (b: bool)
        ensures
            b == expr_is_mutable(self.env(), expr@),
    {
        match expr {
            Expr::Ident(name, _) => match self.scopes.lookup(name) {
                Some((_, m)) => m,
                None => false,
            },
            _ => true,
        }
    }

    fn infer_method_call(&self, expr: &Expr) -> (r: TypeResult<Type>)
        requires
            expr is MethodCall,
        ensures
            typed_view(r) == t_expr(self.env(), expr@),
        decreases expr, 2int,
    {
        match expr {
            Expr::MethodCall { obj, method, args, line } => {
                let ot = self.infer_expr(obj)?;
                match &ot {
                    Type::Array(_) => {
                        let mutable = self.array_obj_mutable(obj);
                        self.check_array_method(&ot, method, args, *line, mutable)
                    },
                    Type::Named(sn) => match index_of_struct(&self.structs, sn) {
                        None => err(text5("no method '", method.as_str(), "' on '", sn.as_str(), "'"), *line),
                        Some(k) => match index_of_sig(&self.structs[k].1.methods, method) {
                            None => err(text5("no method '", method.as_str(), "' on '", sn.as_str(), "'"), *line),
                            Some(j) => {
                                let sig = &self.structs[k].1.methods[j].1;
                                self.check_args(&sig.params, args, *line)?;
                                Ok(sig.ret.clone())
                            },
                        },
                    },
                    _ => {
                        let d = debug_type(&ot);
                        err(text2("cannot call method on ", d.as_str()), *line)
                    },
                }
            },
            _ => Ok(Type::Void),
        }
    }

    #[verifier::loop_isolation(false)]
    fn infer_struct_lit(&self, expr: &Expr) -> (r: TypeResult<Type>)
        requires
            expr is StructLit,
        ensures
            typed_view(r) == t_expr(self.env(), expr@),
        decreases expr, 2int,
    {
        match expr {
            Expr::StructLit { name, fields, line } => match index_of_struct(&self.structs, name) {
                None => err(text3("undefined struct '", name.as_str(), "'"), *line),
                Some(k) => {
                    let info = &self.structs[k].1;
                    let ghost env = self.env();
                    let ghost decl = pairs_view(info.fields@);
                    let ghost given = spec_field_inits(fields@);
                    proof {
                        crate::ast::lemma_field_inits_index(fields@);
                    }
                    // every declared field must be given, with a value of the right type
                    let mut i: usize = 0;
                    while i < info.fields.len()
                        invariant
                            i <= info.fields.len(),
                            env == self.env(),
                            decl == pairs_view(info.fields@),
                            given == spec_field_inits(fields@),
                            given.len() == fields.len(),
                            forall|j: int| 0 <= j < fields.len() ==> #[trigger] given[j] == (fields@[j].0@, fields@[j].1@),
                            t_lit_fields(env, decl, 0, given, name@, *line)
                                == t_lit_fields(env, decl, i as int, given, name@, *line),
                        decreases info.fields.len() - i,
                    {
                        let fname = &info.fields[i].0;
                        match index_of_init(fields, fname) {
                            None => {
                                return err(text5("missing field '", fname.as_str(), "' in '", name.as_str(), "' literal"), *line);
                            },
                            Some(j) => {
                                proof {
                                    assert(decreases_to!(fields => fields@));
                                    assert(decreases_to!(fields@ => fields@[j as int]));
                                    assert(decreases_to!(fields@[j as int] => fields@[j as int].1));
                                }
                                let vt = self.infer_expr(&fields[j].1)?;
                                self.assert_assignable(&vt, &info.fields[i].1, *line)?;
                            },
                        }
                        i = i + 1;
                    }
                    // no unknown fields
                    let mut i: usize = 0;
                    while i < fields.len()
                        invariant
                            i <= fields.len(),
                            decl == pairs_view(info.fields@),
                            given == spec_field_inits(fields@),
                            given.len() == fields.len(),
                            forall|j: int| 0 <= j < fields.len() ==> #[trigger] given[j] == (fields@[j].0@, fields@[j].1@),
                            lit_known_fields(decl, given, 0, name@, *line)
                                == lit_known_fields(decl, given, i as int, name@, *line),
                        decreases fields.len() - i,
                    {
                        if first_field(&info.fields, &fields[i].0).is_none() {
                            return err(text5("unknown field '", fields[i].0.as_str(), "' in struct '", name.as_str(), "'"), *line);
                        }
                        i = i + 1;
                    }
                    Ok(Type::Named(name.clone()))
                },
            },
            _ => Ok(Type::Void),
        }
    }

    /// The type of the last expression of a block, if it ends with one.
    fn block_tail_type(&self, stmts: &Vec<Stmt>) -> (r: TypeResult<Option<Type>>)
        ensures
            opt_typed_view(r) == t_tail(self.env(), spec_stmts(stmts@)),
        decreases stmts, 2int,
    {
        proof {
            crate::ast::lemma_stmts_index(stmts@);
        }
        if stmts.len() == 0 {
            return Ok(None);
        }
        let n = stmts.len() - 1;
        match &stmts[n] {
            Stmt::Expr(e) => {
                proof {
                    assert(decreases_to!(stmts => stmts@));
                    assert(decreases_to!(stmts@ => stmts@[n as int]));
                }
                let t = self.infer_expr(e)?;
                Ok(Some(t))
            },
            _ => Ok(None),
        }
    }

    fn infer_if(&self, expr: &Expr) -> (r: TypeResult<Type>)
        requires
            expr is If,
        ensures
            typed_view(r) == t_expr(self.env(), expr@),
        decreases expr, 2int,
    {
        match expr {
            Expr::If { cond, then, else_, line } => {
                let ct = self.infer_expr(cond)?;
                self.assert_type(&ct, &Type::Bool, *line)?;
                let then_ty = self.block_tail_type(then)?;
                match else_ {
                    None => Ok(Type::Void),
                    Some(es) => {
                        let else_ty = self.block_tail_type(es)?;
                        match (then_ty, else_ty) {
                            (Some(t), Some(e)) => {
                                self.assert_same(&t, &e, *line)?;
                                Ok(t)
                            },
                            _ => Ok(Type::Void),
                        }
                    },
                }
            },
            _ => Ok(Type::Void),
        }
    }

    #[verifier::loop_isolation(false)]
    fn infer_match(&self, expr: &Expr) -> (r: TypeResult<Type>)
        requires
            expr is Match,
        ensures
            typed_view(r) == t_expr(self.env(), expr@),
        decreases expr, 2int,
    {
        match expr {
            Expr::Match { subject, arms, line } => {
                let st = self.infer_expr(subject)?;
                let ghost env = self.env();
                let ghost a = spec_arms(arms@);
                proof {
                    crate::ast::lemma_arms_index(arms@);
                }
                let mut result_ty: Option<Type> = None;
                let mut i: usize = 0;
                while i < arms.len()
                    invariant
                        i <= arms.len(),
                        env == self.env(),
                        a == spec_arms(arms@),
                        a.len() == arms.len(),
                        forall|j: int| 0 <= j < arms.len() ==> #[trigger] a[j] == arms@[j]@,
                        t_arms(env, a, 0, st@, *line, None)
                            == t_arms(env, a, i as int, st@, *line, opt_type_view(result_ty)),
                    decreases arms.len() - i,
                {
                    self.check_pattern(&arms[i].pattern, &st, *line)?;
                    proof {
                        assert(decreases_to!(arms => arms@));
                        assert(decreases_to!(arms@ => arms@[i as int]));
                        assert(decreases_to!(arms@[i as int] => arms@[i as int].body));
                    }
                    let arm_ty = self.block_tail_type(&arms[i].body)?;
                    match arm_ty {
                        Some(t) => {
                            if result_ty.is_none() {
                                result_ty = Some(t);
                            } else {
                                let ex = result_ty.unwrap();
                                self.assert_same(&ex, &t, *line)?;
                                result_ty = Some(ex);
                            }
                        },
                        None => {},
                    }
                    i = i + 1;
                }
                match result_ty {
                    Some(t) => Ok(t),
                    None => Ok(Type::Void),
                }
            },
            _ => Ok(Type::Void),
        }
    }
}

spec fn opt_name_view(n: Option<&String>) -> Option<Seq<char>> {
    match n {
        Some(s) => Some(s@),
        None => None,
    }
}

/// The signature parameters of a function: all but `self`, by name and type.
#[verifier::loop_isolation(false)]
fn sig_params_of(params: &Vec<Param>) -> (r: Vec<(String, Type)>)
    ensures
        pairs_view(r@) == sig_params(spec_params(params@)),
{
    let ghost ps = spec_params(params@);
    let mut out: Vec<(String, Type)> = Vec::new();
    let self_name = String::from_str("self");
    let mut i: usize = 0;
    proof {
        assert(ps.take(0) =~= Seq::<SpecParam>::empty());
        assert(pairs_view(out@) =~= Seq::empty());
    }
    while i < params.len()
        invariant
            i <= params.len(),
            ps == spec_params(params@),
            self_name@ == "self"@,
            pairs_view(out@) == sig_params(ps.take(i as int)),
        decreases params.len() - i,
    {
        proof {
            assert(ps.take(i + 1).drop_last() =~= ps.take(i as int));
        }
        if params[i].name != self_name {
            let ghost before = out@;
            out.push((params[i].name.clone(), params[i].ty.clone()));
            proof {
                assert(pairs_view(out@) =~= pairs_view(before).push((params@[i as int].name@, params@[i as int].ty@)));
            }
        }
        i = i + 1;
    }
    proof {
        assert(ps.take(params.len() as int) =~= ps);
    }
    out
}

/// The fields of a struct by name and type.
#[verifier::loop_isolation(false)]
fn field_pairs(fields: &Vec<crate::ast::StructField>) -> (r: Vec<(String, Type)>)
    ensures
        pairs_view(r@) == field_list(spec_struct_fields(fields@)),
{
    let mut out: Vec<(String, Type)> = Vec::new();
    let mut i: usize = 0;
    while i < fields.len()
        invariant
            i <= fields.len(),
            out@.len() == i,
            forall|j: int| 0 <= j < i ==> (#[trigger] out@[j]).0@ == fields@[j].name@ && out@[j].1@ == fields@[j].ty@,
        decreases fields.len() - i,
    {
        out.push((fields[i].name.clone(), fields[i].ty.clone()));
        i = i + 1;
    }
    proof {
        assert(pairs_view(out@) =~= field_list(spec_struct_fields(fields@)));
    }
    out
}

impl TypeChecker {
    // ── Statements ────────────────────────────────────────────────────────────

    fn check_assign_target(&self, target: &AssignTarget) -> (r: TypeResult<(Type, bool)>)
        ensures
            target_view(r) == t_target(self.env(), target@),
    {
        match target {
            AssignTarget::Ident(name, line) => match self.scopes.lookup(name) {
                Some(b) => Ok(b),
                None => err(text3("undefined variable '", name.as_str(), "'"), *line),
            },
            AssignTarget::Field { obj, field, line } => {
                let ot = self.infer_expr(obj)?;
                let mutable = self.expr_is_mutable(obj);
                let ft = self.lookup_field(&ot, field, *line)?;
                Ok((ft, mutable))
            },
            AssignTarget::Index { obj, index, line } => {
                let ot = self.infer_expr(obj)?;
                let mutable = self.expr_is_mutable(obj);
                let elem = match ot {
                    Type::Array(inner) => *inner,
                    other => {
                        let d = debug_type(&other);
                        return err(text2("cannot index into ", d.as_str()), *line);
                    },
                };
                let it = self.infer_expr(index)?;
                self.assert_type(&it, &Type::I32, *line)?;
                Ok((elem, mutable))
            },
        }
    }

    fn check_stmt(&mut self, stmt: &Stmt) -> (r: TypeResult<()>)
        requires
            old(self).wf(),
        ensures
            final(self).wf(),
            old(self).scopes.scopes@.len() <= final(self).scopes.scopes@.len(),
            r is Ok ==> old(self).scopes.scopes@.len() == final(self).scopes.scopes@.len(),
            (final(self).env(), unit_view(r)) == t_stmt(old(self).env(), stmt@),
        decreases stmt, 0int,
    {
        match stmt {
            Stmt::Let { name, ty, value, mutable, line } => {
                let val_ty = self.infer_expr(value)?;
                let declared = match ty {
                    Some(ann) => {
                        self.assert_assignable(&val_ty, ann, *line)?;
                        ann.clone()
                    },
                    None => val_ty,
                };
                self.scopes.declare(name.clone(), declared, *mutable);
                Ok(())
            },
            Stmt::Assign { target, value, line } => {
                let (tt, m) = self.check_assign_target(target)?;
                if !m {
                    return err(String::from_str("cannot assign to immutable variable"), *line);
                }
                let vt = self.infer_expr(value)?;
                self.assert_assignable(&vt, &tt, *line)
            },
            Stmt::Return { value, line } => {
                let ret_ty = match &self.current_ret {
                    Some(t) => t.clone(),
                    None => {
                        return err(String::from_str("return outside of function"), *line);
                    },
                };
                let vt = match value {
                    Some(e) => self.infer_expr(e)?,
                    None => Type::Void,
                };
                self.assert_assignable(&vt, &ret_ty, *line)?;
                self.returned = true;
                Ok(())
            },
            Stmt::While { cond, body, line } => {
                let ct = self.infer_expr(cond)?;
                self.assert_type(&ct, &Type::Bool, *line)?;
                self.check_block(body)
            },
            Stmt::For { var, iter, body, line } => {
                let it = self.infer_expr(iter)?;
                let elem = match it {
                    Type::Array(inner) => *inner,
                    Type::Range => Type::I32,
                    other => {
                        let d = debug_type(&other);
                        return err(text2("cannot iterate over ", d.as_str()), *line);
                    },
                };
                self.scopes.push();
                self.scopes.declare(var.clone(), elem, false);
                self.check_block(body)?;
                self.scopes.pop();
                Ok(())
            },
            Stmt::Break { .. } | Stmt::Continue { .. } => Ok(()),
            Stmt::Expr(e) => {
                self.infer_expr(e)?;
                Ok(())
            },
        }
    }

    #[verifier::loop_isolation(false)]
    fn check_block(&mut self, stmts: &Vec<Stmt>) -> (r: TypeResult<()>)
        requires
            old(self).wf(),
        ensures
            final(self).wf(),
            old(self).scopes.scopes@.len() <= final(self).scopes.scopes@.len(),
            r is Ok ==> old(self).scopes.scopes@.len() == final(self).scopes.scopes@.len(),
            (final(self).env(), unit_view(r)) == t_block(old(self).env(), spec_stmts(stmts@)),
        decreases stmts, 1int,
    {
        let ghost ss = spec_stmts(stmts@);
        proof {
            crate::ast::lemma_stmts_index(stmts@);
        }
        self.scopes.push();
        let mut i: usize = 0;
        while i < stmts.len()
            invariant
                i <= stmts.len(),
                self.wf(),
                old(self).scopes.scopes@.len() + 1 <= self.scopes.scopes@.len(),
                old(self).scopes.scopes@.len() + 1 == self.scopes.scopes@.len(),
                ss == spec_stmts(stmts@),
                ss.len() == stmts.len(),
                forall|j: int| 0 <= j < stmts.len() ==> #[trigger] ss[j] == stmts@[j]@,
                t_stmts(push_scope(old(self).env()), ss, 0) == t_stmts(self.env(), ss, i as int),
            decreases stmts.len() - i,
        {
            proof {
                assert(decreases_to!(stmts => stmts@));
                assert(decreases_to!(stmts@ => stmts@[i as int]));
            }
            self.check_stmt(&stmts[i])?;
            i = i + 1;
        }
        self.scopes.pop();
        Ok(())
    }

    // ── Functions and items ───────────────────────────────────────────────────

    #[verifier::loop_isolation(false)]
    fn check_fn(&mut self, f: &FnDef, self_type: Option<&String>) -> (r: TypeResult<()>)
        requires
            old(self).wf(),
        ensures
            final(self).wf(),
            old(self).scopes.scopes@.len() <= final(self).scopes.scopes@.len(),
            r is Ok ==> old(self).scopes.scopes@.len() == final(self).scopes.scopes@.len(),
            (final(self).env(), unit_view(r)) == t_fn(old(self).env(), f@, opt_name_view(self_type)),
    {
        let prev_ret = self.current_ret.take();
        self.current_ret = Some(f.ret.clone());
        let prev_returned = self.returned;
        self.returned = false;
        self.scopes.push();
        // bind `self` for methods
        if let Some(tname) = self_type {
            let mutable = if f.params.len() > 0 { f.params[0].mutable } else { false };
            self.scopes.declare(String::from_str("self"), Type::Named(tname.clone()), mutable);
        }
        let ghost e2 = self.env();
        let ghost ps = spec_params(f.params@);
        let self_name = String::from_str("self");
        let mut i: usize = 0;
        while i < f.params.len()
            invariant
                i <= f.params.len(),
                self.wf(),
                old(self).scopes.scopes@.len() + 1 == self.scopes.scopes@.len(),
                ps == spec_params(f.params@),
                self_name@ == "self"@,
                bind_params(e2, ps, 0) == bind_params(self.env(), ps, i as int),
            decreases f.params.len() - i,
        {
            if f.params[i].name != self_name {
                self.scopes.declare(f.params[i].name.clone(), f.params[i].ty.clone(), f.params[i].mutable);
            }
            i = i + 1;
        }
        self.check_block(&f.body)?;
        self.scopes.pop();
        self.current_ret = prev_ret;
        self.returned = prev_returned;
        Ok(())
    }

    #[verifier::loop_isolation(false)]
    fn check_item(&mut self, item: &Item) -> (r: TypeResult<()>)
        requires
            old(self).wf(),
        ensures
            final(self).wf(),
            (final(self).env(), unit_view(r)) == t_item(old(self).env(), item@),
    {
        match item {
            Item::Fn(f) => self.check_fn(f, None),
            Item::Struct(_) => Ok(()),
            Item::Impl(b) => {
                let ghost ms = spec_fn_defs(b.methods@);
                let mut i: usize = 0;
                while i < b.methods.len()
                    invariant
                        i <= b.methods.len(),
                        self.wf(),
                        ms == spec_fn_defs(b.methods@),
                        t_methods(old(self).env(), ms, 0, b.struct_name@)
                            == t_methods(self.env(), ms, i as int, b.struct_name@),
                    decreases b.methods.len() - i,
                {
                    self.check_fn(&b.methods[i], Some(&b.struct_name))?;
                    i = i + 1;
                }
                Ok(())
            },
        }
    }

    // ── Signatures ────────────────────────────────────────────────────────────

    fn register_fn(&mut self, f: &FnDef) -> (r: TypeResult<()>)
        ensures
            final(self).scopes == old(self).scopes,
            (final(self).env(), unit_view(r)) == register_fn(old(self).env(), f@),
    {
        if index_of_sig(&self.functions, &f.name).is_some() {
            return err(text3("function '", f.name.as_str(), "' already defined"), f.line);
        }
        let sig = FnSig { params: sig_params_of(&f.params), ret: f.ret.clone() };
        let ghost before = self.functions@;
        self.functions.push((f.name.clone(), sig));
        proof {
            assert(sigs_view(self.functions@) =~= sigs_view(before).push((f.name@, sig_of(f@))));
        }
        Ok(())
    }

    fn register_struct(&mut self, s: &StructDef) -> (r: TypeResult<()>)
        ensures
            final(self).scopes == old(self).scopes,
            (final(self).env(), unit_view(r)) == register_struct(old(self).env(), s@),
    {
        if index_of_struct(&self.structs, &s.name).is_some() {
            return err(text3("struct '", s.name.as_str(), "' already defined"), s.line);
        }
        let info = StructInfo { fields: field_pairs(&s.fields), methods: Vec::new() };
        let ghost before = self.structs@;
        self.structs.push((s.name.clone(), info));
        proof {
            assert(sigs_view(self.structs@.last().1.methods@) =~= Seq::empty());
            assert(structs_view(self.structs@) =~= structs_view(before).push(
                (s.name@, SpecStructInfo { fields: field_list(spec_struct_fields(s.fields@)), methods: Seq::empty() }),
            ));
        }
        Ok(())
    }

    #[verifier::loop_isolation(false)]
    fn register_impl(&mut self, b: &ImplBlock) -> (r: TypeResult<()>)
        ensures
            final(self).scopes == old(self).scopes,
            (final(self).env(), unit_view(r)) == register_impl(old(self).env(), b@),
    {
        let k = match index_of_struct(&self.structs, &b.struct_name) {
            None => {
                return err(text3("impl for unknown struct '", b.struct_name.as_str(), "'"), b.line);
            },
            Some(k) => k,
        };
        let ghost ms = spec_fn_defs(b.methods@);
        let ghost name = b.struct_name@;
        let mut i: usize = 0;
        while i < b.methods.len()
            invariant
                i <= b.methods.len(),
                k < self.structs@.len(),
                self.scopes == old(self).scopes,
                ms == spec_fn_defs(b.methods@),
                name == b.struct_name@,
                self.structs@.len() == old(self).structs@.len(),
                forall|x: int| 0 <= x < self.structs@.len() ==> #[trigger] self.structs@[x].0@ == old(self).structs@[x].0@,
                index_last_upto(structs_view(self.structs@), name, self.structs@.len() as int) == k,
                add_methods(old(self).env(), name, ms, 0) == add_methods(self.env(), name, ms, i as int),
            decreases b.methods.len() - i,
        {
            let m = &b.methods[i];
            let sig = FnSig { params: sig_params_of(&m.params), ret: m.ret.clone() };
            let ghost env_before = self.env();
            let mut methods: Vec<(String, FnSig)> = Vec::new();
            let ghost mname = m.name@;
            let ghost msig = sig_view(sig);
            std::mem::swap(&mut methods, &mut self.structs[k].1.methods);
            methods.push((m.name.clone(), sig));
            std::mem::swap(&mut methods, &mut self.structs[k].1.methods);
            proof {
                let eb = env_before.structs;
                let n0 = eb[k as int].0;
                let info0 = eb[k as int].1;
                let info2 = SpecStructInfo { methods: info0.methods.push((mname, msig)), ..info0 };
                assert(sigs_view(self.structs@[k as int].1.methods@) =~= info0.methods.push((mname, msig)));
                assert(structs_view(self.structs@) =~= eb.update(k as int, (n0, info2)));
                crate::typing::lemma_index_last_update(eb, k as int, info2, name, self.structs@.len() as int);
                assert(self.env() == add_method(env_before, name, m@));
            }
            i = i + 1;
        }
        Ok(())
    }

    #[verifier::loop_isolation(false)]
    fn collect_signatures(&mut self, items: &[Item]) -> (r: TypeResult<()>)
        ensures
            final(self).scopes == old(self).scopes,
            (final(self).env(), unit_view(r)) == collect_from(old(self).env(), spec_items(items@), 0),
    {
        let ghost its = spec_items(items@);
        let mut i: usize = 0;
        while i < items.len()
            invariant
                i <= items.len(),
                self.scopes == old(self).scopes,
                its == spec_items(items@),
                collect_from(old(self).env(), its, 0) == collect_from(self.env(), its, i as int),
            decreases items.len() - i,
        {
            match &items[i] {
                Item::Fn(f) => self.register_fn(f)?,
                Item::Struct(s) => self.register_struct(s)?,
                Item::Impl(b) => self.register_impl(b)?,
            }
            i = i + 1;
        }
        Ok(())
    }

    /// Checks a whole program: the signatures of all items first, then every
    /// function and method body.
    #[verifier::loop_isolation(false)]
    pub fn check(&mut self, items: &[Item]) -> (r: TypeResult<()>)
        requires
            old(self).wf(),
        ensures
            final(self).wf(),
            (final(self).env(), unit_view(r)) == t_program(old(self).env(), spec_items(items@)),
    {
        self.collect_signatures(items)?;
        let ghost e1 = self.env();
        let ghost its = spec_items(items@);
        let mut i: usize = 0;
        while i < items.len()
            invariant
                i <= items.len(),
                self.wf(),
                its == spec_items(items@),
                check_items_from(e1, its, 0) == check_items_from(self.env(), its, i as int),
            decreases items.len() - i,
        {
            self.check_item(&items[i])?;
            i = i + 1;
        }
        Ok(())
    }
}

} // verus!
