//! Abstract syntax of Pebble programs, with a mathematical model of every node.
use vstd::prelude::*;

verus! {

/// A lexical token. Floating-point literals are kept as the decimal text
/// that appeared in the source.
#[derive(Debug)]
pub enum Token {
    Int(i64),
    Float(String),
    Str(String),
    StringLit(String),
    Bool(bool),
    Ident(String),
    Let,
    Mut,
    Fn,
    Return,
    If,
    Else,
    While,
    For,
    In,
    Break,
    Continue,
    Match,
    Struct,
    Impl,
    Self_,
    As,
    True,
    False,
    None_,
    Underscore,
    Plus,
    Minus,
    Star,
    Slash,
    Percent,
    Eq,
    NotEq,
    Lt,
    Gt,
    LtEq,
    GtEq,
    And,
    Or,
    Bang,
    Assign,
    PlusAssign,
    MinusAssign,
    StarAssign,
    SlashAssign,
    Arrow,
    FatArrow,
    DotDot,
    DotDotEq,
    Dot,
    Comma,
    Colon,
    Semicolon,
    LParen,
    RParen,
    LBrace,
    RBrace,
    LBracket,
    RBracket,
    Question,
    EOF,
}

/// Model of a token: the text payloads become character sequences.
pub enum SpecToken {
    Int(i64),
    Float(Seq<char>),
    Str(Seq<char>),
    StringLit(Seq<char>),
    Bool(bool),
    Ident(Seq<char>),
    Let,
    Mut,
    Fn,
    Return,
    If,
    Else,
    While,
    For,
    In,
    Break,
    Continue,
    Match,
    Struct,
    Impl,
    Self_,
    As,
    True,
    False,
    None_,
    Underscore,
    Plus,
    Minus,
    Star,
    Slash,
    Percent,
    Eq,
    NotEq,
    Lt,
    Gt,
    LtEq,
    GtEq,
    And,
    Or,
    Bang,
    Assign,
    PlusAssign,
    MinusAssign,
    StarAssign,
    SlashAssign,
    Arrow,
    FatArrow,
    DotDot,
    DotDotEq,
    Dot,
    Comma,
    Colon,
    Semicolon,
    LParen,
    RParen,
    LBrace,
    RBrace,
    LBracket,
    RBracket,
    Question,
    EOF,
}

impl View for Token {
    type V = SpecToken;

    open spec fn view(&self) -> SpecToken {
        match self {
            Token::Int(n) => SpecToken::Int(*n),
            Token::Float(s) => SpecToken::Float(s@),
            Token::Str(s) => SpecToken::Str(s@),
            Token::StringLit(s) => SpecToken::StringLit(s@),
            Token::Bool(b) => SpecToken::Bool(*b),
            Token::Ident(s) => SpecToken::Ident(s@),
            Token::Let => SpecToken::Let,
            Token::Mut => SpecToken::Mut,
            Token::Fn => SpecToken::Fn,
            Token::Return => SpecToken::Return,
            Token::If => SpecToken::If,
            Token::Else => SpecToken::Else,
            Token::While => SpecToken::While,
            Token::For => SpecToken::For,
            Token::In => SpecToken::In,
            Token::Break => SpecToken::Break,
            Token::Continue => SpecToken::Continue,
            Token::Match => SpecToken::Match,
            Token::Struct => SpecToken::Struct,
            Token::Impl => SpecToken::Impl,
            Token::Self_ => SpecToken::Self_,
            Token::As => SpecToken::As,
            Token::True => SpecToken::True,
            Token::False => SpecToken::False,
            Token::None_ => SpecToken::None_,
            Token::Underscore => SpecToken::Underscore,
            Token::Plus => SpecToken::Plus,
            Token::Minus => SpecToken::Minus,
            Token::Star => SpecToken::Star,
            Token::Slash => SpecToken::Slash,
            Token::Percent => SpecToken::Percent,
            Token::Eq => SpecToken::Eq,
            Token::NotEq => SpecToken::NotEq,
            Token::Lt => SpecToken::Lt,
            Token::Gt => SpecToken::Gt,
            Token::LtEq => SpecToken::LtEq,
            Token::GtEq => SpecToken::GtEq,
            Token::And => SpecToken::And,
            Token::Or => SpecToken::Or,
            Token::Bang => SpecToken::Bang,
            Token::Assign => SpecToken::Assign,
            Token::PlusAssign => SpecToken::PlusAssign,
            Token::MinusAssign => SpecToken::MinusAssign,
            Token::StarAssign => SpecToken::StarAssign,
            Token::SlashAssign => SpecToken::SlashAssign,
            Token::Arrow => SpecToken::Arrow,
            Token::FatArrow => SpecToken::FatArrow,
            Token::DotDot => SpecToken::DotDot,
            Token::DotDotEq => SpecToken::DotDotEq,
            Token::Dot => SpecToken::Dot,
            Token::Comma => SpecToken::Comma,
            Token::Colon => SpecToken::Colon,
            Token::Semicolon => SpecToken::Semicolon,
            Token::LParen => SpecToken::LParen,
            Token::RParen => SpecToken::RParen,
            Token::LBrace => SpecToken::LBrace,
            Token::RBrace => SpecToken::RBrace,
            Token::LBracket => SpecToken::LBracket,
            Token::RBracket => SpecToken::RBracket,
            Token::Question => SpecToken::Question,
            Token::EOF => SpecToken::EOF,
        }
    }
}

// ─── Types ────────────────────────────────────────────────────────────────────

#[derive(Debug)]
pub enum Type {
    I32,
    I64,
    F64,
    Bool,
    Str,
    Void,
    SelfType,
    Range,
    Tuple(Vec<Type>),
    Array(Box<Type>),
    Optional(Box<Type>),
    Named(String),
}

pub enum SpecType {
    I32,
    I64,
    F64,
    Bool,
    Str,
    Void,
    SelfType,
    Range,
    Tuple(Seq<SpecType>),
    Array(Box<SpecType>),
    Optional(Box<SpecType>),
    Named(Seq<char>),
}

pub open spec fn spec_types(s: Seq<Type>) -> Seq<SpecType>
    decreases s,
{
    if s.len() == 0 {
        Seq::empty()
    } else {
        spec_types(s.drop_last()).push(spec_type(s.last()))
    }
}

pub open spec fn spec_type(t: Type) -> SpecType
    decreases t,
{
    match t {
        Type::I32 => SpecType::I32,
        Type::I64 => SpecType::I64,
        Type::F64 => SpecType::F64,
        Type::Bool => SpecType::Bool,
        Type::Str => SpecType::Str,
        Type::Void => SpecType::Void,
        Type::SelfType => SpecType::SelfType,
        Type::Range => SpecType::Range,
        Type::Tuple(v) => SpecType::Tuple(spec_types(v@)),
        Type::Array(b) => SpecType::Array(Box::new(spec_type(*b))),
        Type::Optional(b) => SpecType::Optional(Box::new(spec_type(*b))),
        Type::Named(n) => SpecType::Named(n@),
    }
}

pub proof fn lemma_spec_types_len(a: Seq<Type>)
    ensures
        spec_types(a).len() == a.len(),
        forall|j: int| 0 <= j < a.len() ==> #[trigger] spec_types(a)[j] == spec_type(a[j]),
    decreases a.len(),
{
    if a.len() > 0 {
        lemma_spec_types_len(a.drop_last());
    }
}

pub proof fn lemma_spec_types_ext(a: Seq<Type>, b: Seq<Type>)
    requires
        a.len() == b.len(),
        forall|j: int| 0 <= j < a.len() ==> spec_type(a[j]) == spec_type(b[j]),
    ensures
        spec_types(a) == spec_types(b),
    decreases a.len(),
{
    if a.len() > 0 {
        lemma_spec_types_ext(a.drop_last(), b.drop_last());
    }
}

impl View for Type {
    type V = SpecType;

    open spec fn view(&self) -> SpecType {
        spec_type(*self)
    }
}

impl Clone for Type {
    #[verifier::loop_isolation(false)]
    fn clone(&self) -> (res: Self)
        ensures
            res@ == self@,
        decreases self,
    {
        match self {
            Type::I32 => Type::I32,
            Type::I64 => Type::I64,
            Type::F64 => Type::F64,
            Type::Bool => Type::Bool,
            Type::Str => Type::Str,
            Type::Void => Type::Void,
            Type::SelfType => Type::SelfType,
            Type::Range => Type::Range,
            Type::Tuple(v) => {
                let mut out: Vec<Type> = Vec::new();
                let mut i: usize = 0;
                while i < v.len()
                    invariant
                        i <= v.len(),
                        out@.len() == i,
                        forall|j: int| 0 <= j < i ==> spec_type(out@[j]) == spec_type(v@[j]),
                    decreases v.len() - i,
                {
                    proof {
                        assert(decreases_to!(v => v@));
                        assert(decreases_to!(v@ => v@[i as int]));
                    }
                    out.push(v[i].clone());
                    i = i + 1;
                }
                proof {
                    lemma_spec_types_ext(out@, v@);
                }
                Type::Tuple(out)
            },
            Type::Array(b) => Type::Array(Box::new((**b).clone())),
            Type::Optional(b) => Type::Optional(Box::new((**b).clone())),
            Type::Named(n) => Type::Named(n.clone()),
        }
    }
}


// ─── Top-level items ──────────────────────────────────────────────────────────

#[derive(Debug)]
pub enum Item {
    Fn(FnDef),
    Struct(StructDef),
    Impl(ImplBlock),
}

#[derive(Debug)]
pub struct FnDef {
    pub name: String,
    pub params: Vec<Param>,
    pub ret: Type,
    pub body: Vec<Stmt>,
    pub line: usize,
}

#[derive(Debug)]
pub struct Param {
    pub name: String,
    pub ty: Type,
    pub mutable: bool,
}

#[derive(Debug)]
pub struct StructDef {
    pub name: String,
    pub fields: Vec<StructField>,
    pub line: usize,
}

#[derive(Debug)]
pub struct StructField {
    pub name: String,
    pub ty: Type,
}

#[derive(Debug)]
pub struct ImplBlock {
    pub struct_name: String,
    pub methods: Vec<FnDef>,
    pub line: usize,
}

// ─── Statements ───────────────────────────────────────────────────────────────

#[derive(Debug)]
pub enum Stmt {
    /// let [mut] name [: Type] = expr
    Let { name: String, ty: Option<Type>, value: Expr, mutable: bool, line: usize },
    /// target = expr  (also desugared from +=, -=, *=, /=)
    Assign { target: AssignTarget, value: Expr, line: usize },
    /// return [expr]
    Return { value: Option<Expr>, line: usize },
    /// while cond { body }
    While { cond: Expr, body: Vec<Stmt>, line: usize },
    /// for var in iter { body }
    For { var: String, iter: Expr, body: Vec<Stmt>, line: usize },
    Break { line: usize },
    Continue { line: usize },
    /// A bare expression used as a statement
    Expr(Expr),
}

/// What can appear on the left-hand side of an assignment.
#[derive(Debug)]
pub enum AssignTarget {
    Ident(String, usize),
    Field { obj: Box<Expr>, field: String, line: usize },
    Index { obj: Box<Expr>, index: Box<Expr>, line: usize },
}

// ─── Expressions ─────────────────────────────────────────────────────────────

#[derive(Debug)]
pub enum Expr {
    Int(i64, usize),
    /// A floating-point literal, kept as its decimal text.
    Float(String, usize),
    Bool(bool, usize),
    Str(String, usize),
    NoneLit(usize),
    Array(Vec<Expr>, usize),
    Tuple(Vec<Expr>, usize),
    Range { start: Box<Expr>, end: Box<Expr>, inclusive: bool, line: usize },
    Ident(String, usize),
    FieldAccess { obj: Box<Expr>, field: String, line: usize },
    Index { obj: Box<Expr>, index: Box<Expr>, line: usize },
    Call { name: String, args: Vec<Expr>, line: usize },
    MethodCall { obj: Box<Expr>, method: String, args: Vec<Expr>, line: usize },
    StructLit { name: String, fields: Vec<(String, Expr)>, line: usize },
    BinOp { op: BinOp, left: Box<Expr>, right: Box<Expr>, line: usize },
    UnaryOp { op: UnaryOp, operand: Box<Expr>, line: usize },
    Cast { expr: Box<Expr>, ty: Type, line: usize },
    If { cond: Box<Expr>, then: Vec<Stmt>, else_: Option<Vec<Stmt>>, line: usize },
    Match { subject: Box<Expr>, arms: Vec<MatchArm>, line: usize },
}

#[derive(Debug, Clone, Copy, PartialEq, Eq, Structural)]
pub enum BinOp {
    Add,
    Sub,
    Mul,
    Div,
    Mod,
    Eq,
    NotEq,
    Lt,
    Gt,
    LtEq,
    GtEq,
    And,
    Or,
}

#[derive(Debug, Clone, Copy, PartialEq, Eq, Structural)]
pub enum UnaryOp {
    Neg,
    Not,
}

#[derive(Debug)]
pub struct MatchArm {
    pub pattern: Pattern,
    pub body: Vec<Stmt>,
}

#[derive(Debug)]
pub enum Pattern {
    Wildcard,
    Int(i64),
    /// A floating-point literal pattern, kept as its decimal text.
    Float(String),
    Bool(bool),
    Str(String),
    NoneLit,
    Binding(String),
    Tuple(Vec<Pattern>),
    Struct { name: String, fields: Vec<(String, Pattern)> },
}

// ─── Models ───────────────────────────────────────────────────────────────────

pub enum SpecPattern {
    Wildcard,
    Int(i64),
    Float(Seq<char>),
    Bool(bool),
    Str(Seq<char>),
    NoneLit,
    Binding(Seq<char>),
    Tuple(Seq<SpecPattern>),
    Struct { name: Seq<char>, fields: Seq<(Seq<char>, SpecPattern)> },
}

pub enum SpecExpr {
    Int(i64, usize),
    Float(Seq<char>, usize),
    Bool(bool, usize),
    Str(Seq<char>, usize),
    NoneLit(usize),
    Array(Seq<SpecExpr>, usize),
    Tuple(Seq<SpecExpr>, usize),
    Range { start: Box<SpecExpr>, end: Box<SpecExpr>, inclusive: bool, line: usize },
    Ident(Seq<char>, usize),
    FieldAccess { obj: Box<SpecExpr>, field: Seq<char>, line: usize },
    Index { obj: Box<SpecExpr>, index: Box<SpecExpr>, line: usize },
    Call { name: Seq<char>, args: Seq<SpecExpr>, line: usize },
    MethodCall { obj: Box<SpecExpr>, method: Seq<char>, args: Seq<SpecExpr>, line: usize },
    StructLit { name: Seq<char>, fields: Seq<(Seq<char>, SpecExpr)>, line: usize },
    BinOp { op: BinOp, left: Box<SpecExpr>, right: Box<SpecExpr>, line: usize },
    UnaryOp { op: UnaryOp, operand: Box<SpecExpr>, line: usize },
    Cast { expr: Box<SpecExpr>, ty: SpecType, line: usize },
    If { cond: Box<SpecExpr>, then: Seq<SpecStmt>, else_: Option<Seq<SpecStmt>>, line: usize },
    Match { subject: Box<SpecExpr>, arms: Seq<SpecArm>, line: usize },
}

pub enum SpecTarget {
    Ident(Seq<char>, usize),
    Field { obj: Box<SpecExpr>, field: Seq<char>, line: usize },
    Index { obj: Box<SpecExpr>, index: Box<SpecExpr>, line: usize },
}

pub enum SpecStmt {
    Let { name: Seq<char>, ty: Option<SpecType>, value: SpecExpr, mutable: bool, line: usize },
    Assign { target: SpecTarget, value: SpecExpr, line: usize },
    Return { value: Option<SpecExpr>, line: usize },
    While { cond: SpecExpr, body: Seq<SpecStmt>, line: usize },
    For { var: Seq<char>, iter: SpecExpr, body: Seq<SpecStmt>, line: usize },
    Break { line: usize },
    Continue { line: usize },
    Expr(SpecExpr),
}

pub struct SpecArm {
    pub pattern: SpecPattern,
    pub body: Seq<SpecStmt>,
}

pub struct SpecParam {
    pub name: Seq<char>,
    pub ty: SpecType,
    pub mutable: bool,
}

pub struct SpecFnDef {
    pub name: Seq<char>,
    pub params: Seq<SpecParam>,
    pub ret: SpecType,
    pub body: Seq<SpecStmt>,
    pub line: usize,
}

pub struct SpecField {
    pub name: Seq<char>,
    pub ty: SpecType,
}

pub struct SpecStructDef {
    pub name: Seq<char>,
    pub fields: Seq<SpecField>,
    pub line: usize,
}

pub struct SpecImplBlock {
    pub struct_name: Seq<char>,
    pub methods: Seq<SpecFnDef>,
    pub line: usize,
}

pub enum SpecItem {
    Fn(SpecFnDef),
    Struct(SpecStructDef),
    Impl(SpecImplBlock),
}

// ─── Views ────────────────────────────────────────────────────────────────────

pub open spec fn spec_patterns(s: Seq<Pattern>) -> Seq<SpecPattern>
    decreases s,
{
    if s.len() == 0 {
        Seq::empty()
    } else {
        spec_patterns(s.drop_last()).push(spec_pattern(s.last()))
    }
}

pub open spec fn spec_field_pats(s: Seq<(String, Pattern)>) -> Seq<(Seq<char>, SpecPattern)>
    decreases s,
{
    if s.len() == 0 {
        Seq::empty()
    } else {
        spec_field_pats(s.drop_last()).push((s.last().0@, spec_pattern(s.last().1)))
    }
}

pub open spec fn spec_pattern(p: Pattern) -> SpecPattern
    decreases p,
{
    match p {
        Pattern::Wildcard => SpecPattern::Wildcard,
        Pattern::Int(n) => SpecPattern::Int(n),
        Pattern::Float(s) => SpecPattern::Float(s@),
        Pattern::Bool(b) => SpecPattern::Bool(b),
        Pattern::Str(s) => SpecPattern::Str(s@),
        Pattern::NoneLit => SpecPattern::NoneLit,
        Pattern::Binding(s) => SpecPattern::Binding(s@),
        Pattern::Tuple(ps) => SpecPattern::Tuple(spec_patterns(ps@)),
        Pattern::Struct { name, fields } => SpecPattern::Struct {
            name: name@,
            fields: spec_field_pats(fields@),
        },
    }
}

impl View for Pattern {
    type V = SpecPattern;

    open spec fn view(&self) -> SpecPattern {
        spec_pattern(*self)
    }
}

pub open spec fn spec_exprs(s: Seq<Expr>) -> Seq<SpecExpr>
    decreases s,
{
    if s.len() == 0 {
        Seq::empty()
    } else {
        spec_exprs(s.drop_last()).push(spec_expr(s.last()))
    }
}

pub open spec fn spec_field_inits(s: Seq<(String, Expr)>) -> Seq<(Seq<char>, SpecExpr)>
    decreases s,
{
    if s.len() == 0 {
        Seq::empty()
    } else {
        spec_field_inits(s.drop_last()).push((s.last().0@, spec_expr(s.last().1)))
    }
}

pub open spec fn spec_stmts(s: Seq<Stmt>) -> Seq<SpecStmt>
    decreases s,
{
    if s.len() == 0 {
        Seq::empty()
    } else {
        spec_stmts(s.drop_last()).push(spec_stmt(s.last()))
    }
}

pub open spec fn spec_arms(s: Seq<MatchArm>) -> Seq<SpecArm>
    decreases s,
{
    if s.len() == 0 {
        Seq::empty()
    } else {
        spec_arms(s.drop_last()).push(SpecArm { pattern: spec_pattern(s.last().pattern), body: spec_stmts(s.last().body@) })

    }
}

pub open spec fn spec_expr(e: Expr) -> SpecExpr
    decreases e,
{
    match e {
        Expr::Int(n, l) => SpecExpr::Int(n, l),
        Expr::Float(s, l) => SpecExpr::Float(s@, l),
        Expr::Bool(b, l) => SpecExpr::Bool(b, l),
        Expr::Str(s, l) => SpecExpr::Str(s@, l),
        Expr::NoneLit(l) => SpecExpr::NoneLit(l),
        Expr::Array(v, l) => SpecExpr::Array(spec_exprs(v@), l),
        Expr::Tuple(v, l) => SpecExpr::Tuple(spec_exprs(v@), l),
        Expr::Range { start, end, inclusive, line } => SpecExpr::Range {
            start: Box::new(spec_expr(*start)),
            end: Box::new(spec_expr(*end)),
            inclusive,
            line,
        },
        Expr::Ident(s, l) => SpecExpr::Ident(s@, l),
        Expr::FieldAccess { obj, field, line } => SpecExpr::FieldAccess {
            obj: Box::new(spec_expr(*obj)),
            field: field@,
            line,
        },
        Expr::Index { obj, index, line } => SpecExpr::Index {
            obj: Box::new(spec_expr(*obj)),
            index: Box::new(spec_expr(*index)),
            line,
        },
        Expr::Call { name, args, line } => SpecExpr::Call { name: name@, args: spec_exprs(args@), line },
        Expr::MethodCall { obj, method, args, line } => SpecExpr::MethodCall {
            obj: Box::new(spec_expr(*obj)),
            method: method@,
            args: spec_exprs(args@),
            line,
        },
        Expr::StructLit { name, fields, line } => SpecExpr::StructLit {
            name: name@,
            fields: spec_field_inits(fields@),
            line,
        },
        Expr::BinOp { op, left, right, line } => SpecExpr::BinOp {
            op,
            left: Box::new(spec_expr(*left)),
            right: Box::new(spec_expr(*right)),
            line,
        },
        Expr::UnaryOp { op, operand, line } => SpecExpr::UnaryOp {
            op,
            operand: Box::new(spec_expr(*operand)),
            line,
        },
        Expr::Cast { expr, ty, line } => SpecExpr::Cast {
            expr: Box::new(spec_expr(*expr)),
            ty: spec_type(ty),
            line,
        },
        Expr::If { cond, then, else_, line } => SpecExpr::If {
            cond: Box::new(spec_expr(*cond)),
            then: spec_stmts(then@),
            else_: match else_ {
                Option::Some(b) => Option::Some(spec_stmts(b@)),
                Option::None => Option::None,
            },
            line,
        },
        Expr::Match { subject, arms, line } => SpecExpr::Match {
            subject: Box::new(spec_expr(*subject)),
            arms: spec_arms(arms@),
            line,
        },
    }
}

pub open spec fn spec_target(t: AssignTarget) -> SpecTarget
    decreases t,
{
    match t {
        AssignTarget::Ident(s, l) => SpecTarget::Ident(s@, l),
        AssignTarget::Field { obj, field, line } => SpecTarget::Field {
            obj: Box::new(spec_expr(*obj)),
            field: field@,
            line,
        },
        AssignTarget::Index { obj, index, line } => SpecTarget::Index {
            obj: Box::new(spec_expr(*obj)),
            index: Box::new(spec_expr(*index)),
            line,
        },
    }
}

pub open spec fn spec_stmt(s: Stmt) -> SpecStmt
    decreases s,
{
    match s {
        Stmt::Let { name, ty, value, mutable, line } => SpecStmt::Let {
            name: name@,
            ty: match ty {
                Option::Some(t) => Option::Some(spec_type(t)),
                Option::None => Option::None,
            },
            value: spec_expr(value),
            mutable,
            line,
        },
        Stmt::Assign { target, value, line } => SpecStmt::Assign {
            target: spec_target(target),
            value: spec_expr(value),
            line,
        },
        Stmt::Return { value, line } => SpecStmt::Return {
            value: match value {
                Option::Some(e) => Option::Some(spec_expr(e)),
                Option::None => Option::None,
            },
            line,
        },
        Stmt::While { cond, body, line } => SpecStmt::While {
            cond: spec_expr(cond),
            body: spec_stmts(body@),
            line,
        },
        Stmt::For { var, iter, body, line } => SpecStmt::For {
            var: var@,
            iter: spec_expr(iter),
            body: spec_stmts(body@),
            line,
        },
        Stmt::Break { line } => SpecStmt::Break { line },
        Stmt::Continue { line } => SpecStmt::Continue { line },
        Stmt::Expr(e) => SpecStmt::Expr(spec_expr(e)),
    }
}

impl View for Expr {
    type V = SpecExpr;

    open spec fn view(&self) -> SpecExpr {
        spec_expr(*self)
    }
}

impl View for Stmt {
    type V = SpecStmt;

    open spec fn view(&self) -> SpecStmt {
        spec_stmt(*self)
    }
}

impl View for AssignTarget {
    type V = SpecTarget;

    open spec fn view(&self) -> SpecTarget {
        spec_target(*self)
    }
}

impl View for MatchArm {
    type V = SpecArm;

    open spec fn view(&self) -> SpecArm {
        SpecArm { pattern: spec_pattern(self.pattern), body: spec_stmts(self.body@) }
    }
}

impl View for Param {
    type V = SpecParam;

    open spec fn view(&self) -> SpecParam {
        SpecParam { name: self.name@, ty: spec_type(self.ty), mutable: self.mutable }
    }
}

impl View for StructField {
    type V = SpecField;

    open spec fn view(&self) -> SpecField {
        SpecField { name: self.name@, ty: spec_type(self.ty) }
    }
}

pub open spec fn spec_params(s: Seq<Param>) -> Seq<SpecParam> {
    s.map_values(|p: Param| p@)
}

pub open spec fn spec_struct_fields(s: Seq<StructField>) -> Seq<SpecField> {
    s.map_values(|f: StructField| f@)
}

impl View for FnDef {
    type V = SpecFnDef;

    open spec fn view(&self) -> SpecFnDef {
        SpecFnDef {
            name: self.name@,
            params: spec_params(self.params@),
            ret: spec_type(self.ret),
            body: spec_stmts(self.body@),
            line: self.line,
        }
    }
}

impl View for StructDef {
    type V = SpecStructDef;

    open spec fn view(&self) -> SpecStructDef {
        SpecStructDef { name: self.name@, fields: spec_struct_fields(self.fields@), line: self.line }
    }
}

pub open spec fn spec_fn_defs(s: Seq<FnDef>) -> Seq<SpecFnDef> {
    s.map_values(|f: FnDef| f@)
}

impl View for ImplBlock {
    type V = SpecImplBlock;

    open spec fn view(&self) -> SpecImplBlock {
        SpecImplBlock { struct_name: self.struct_name@, methods: spec_fn_defs(self.methods@), line: self.line }
    }
}

impl View for Item {
    type V = SpecItem;

    open spec fn view(&self) -> SpecItem {
        match self {
            Item::Fn(f) => SpecItem::Fn(f@),
            Item::Struct(s) => SpecItem::Struct(s@),
            Item::Impl(i) => SpecItem::Impl(i@),
        }
    }
}

pub open spec fn spec_items(s: Seq<Item>) -> Seq<SpecItem> {
    s.map_values(|i: Item| i@)
}

impl SpecExpr {
    /// The source line recorded in an expression.
    pub open spec fn line_of(self) -> usize {
        match self {
            SpecExpr::Int(_, l) => l,
            SpecExpr::Float(_, l) => l,
            SpecExpr::Bool(_, l) => l,
            SpecExpr::Str(_, l) => l,
            SpecExpr::NoneLit(l) => l,
            SpecExpr::Array(_, l) => l,
            SpecExpr::Tuple(_, l) => l,
            SpecExpr::Ident(_, l) => l,
            SpecExpr::Range { line, .. } => line,
            SpecExpr::FieldAccess { line, .. } => line,
            SpecExpr::Index { line, .. } => line,
            SpecExpr::Call { line, .. } => line,
            SpecExpr::MethodCall { line, .. } => line,
            SpecExpr::StructLit { line, .. } => line,
            SpecExpr::BinOp { line, .. } => line,
            SpecExpr::UnaryOp { line, .. } => line,
            SpecExpr::Cast { line, .. } => line,
            SpecExpr::If { line, .. } => line,
            SpecExpr::Match { line, .. } => line,
        }
    }
}

impl Expr {
    /// The source line on which this expression starts.
    pub fn line(&self) -> (l: usize)
        ensures
            l == self@.line_of(),
    {
        match self {
            Expr::Int(_, l) | Expr::Float(_, l) | Expr::Bool(_, l) | Expr::Str(_, l)
            | Expr::NoneLit(l) | Expr::Array(_, l) | Expr::Tuple(_, l) | Expr::Ident(_, l) => *l,
            Expr::BinOp { line, .. } | Expr::UnaryOp { line, .. } | Expr::Call { line, .. }
            | Expr::MethodCall { line, .. } | Expr::FieldAccess { line, .. }
            | Expr::Index { line, .. } | Expr::StructLit { line, .. } | Expr::Cast { line, .. }
            | Expr::If { line, .. } | Expr::Match { line, .. } | Expr::Range { line, .. } => *line,
        }
    }
}


// ─── Push lemmas for the list models ─────────────────────────────────────────

pub proof fn lemma_exprs_push(s: Seq<Expr>, x: Expr)
    ensures
        spec_exprs(s.push(x)) == spec_exprs(s).push(spec_expr(x)),
{
    assert(s.push(x).drop_last() =~= s);
}

pub proof fn lemma_stmts_push(s: Seq<Stmt>, x: Stmt)
    ensures
        spec_stmts(s.push(x)) == spec_stmts(s).push(spec_stmt(x)),
{
    assert(s.push(x).drop_last() =~= s);
}

pub proof fn lemma_arms_push(s: Seq<MatchArm>, x: MatchArm)
    ensures
        spec_arms(s.push(x)) == spec_arms(s).push(x@),
{
    assert(s.push(x).drop_last() =~= s);
}

pub proof fn lemma_field_inits_push(s: Seq<(String, Expr)>, x: (String, Expr))
    ensures
        spec_field_inits(s.push(x)) == spec_field_inits(s).push((x.0@, spec_expr(x.1))),
{
    assert(s.push(x).drop_last() =~= s);
}

pub proof fn lemma_patterns_push(s: Seq<Pattern>, x: Pattern)
    ensures
        spec_patterns(s.push(x)) == spec_patterns(s).push(spec_pattern(x)),
{
    assert(s.push(x).drop_last() =~= s);
}

pub proof fn lemma_field_pats_push(s: Seq<(String, Pattern)>, x: (String, Pattern))
    ensures
        spec_field_pats(s.push(x)) == spec_field_pats(s).push((x.0@, spec_pattern(x.1))),
{
    assert(s.push(x).drop_last() =~= s);
}

pub proof fn lemma_types_push(s: Seq<Type>, x: Type)
    ensures
        spec_types(s.push(x)) == spec_types(s).push(spec_type(x)),
{
    assert(s.push(x).drop_last() =~= s);
}

// ─── Index lemmas for the list models ────────────────────────────────────────

pub proof fn lemma_exprs_index(s: Seq<Expr>)
    ensures
        spec_exprs(s).len() == s.len(),
        forall|j: int| 0 <= j < s.len() ==> #[trigger] spec_exprs(s)[j] == spec_expr(s[j]),
    decreases s.len(),
{
    if s.len() > 0 {
        lemma_exprs_index(s.drop_last());
    }
}

pub proof fn lemma_stmts_index(s: Seq<Stmt>)
    ensures
        spec_stmts(s).len() == s.len(),
        forall|j: int| 0 <= j < s.len() ==> #[trigger] spec_stmts(s)[j] == spec_stmt(s[j]),
    decreases s.len(),
{
    if s.len() > 0 {
        lemma_stmts_index(s.drop_last());
    }
}

pub proof fn lemma_arms_index(s: Seq<MatchArm>)
    ensures
        spec_arms(s).len() == s.len(),
        forall|j: int| 0 <= j < s.len() ==> #[trigger] spec_arms(s)[j] == s[j]@,
    decreases s.len(),
{
    if s.len() > 0 {
        lemma_arms_index(s.drop_last());
    }
}

pub proof fn lemma_field_inits_index(s: Seq<(String, Expr)>)
    ensures
        spec_field_inits(s).len() == s.len(),
        forall|j: int| 0 <= j < s.len() ==> #[trigger] spec_field_inits(s)[j] == (s[j].0@, spec_expr(s[j].1)),
    decreases s.len(),
{
    if s.len() > 0 {
        lemma_field_inits_index(s.drop_last());
    }
}

pub proof fn lemma_patterns_index(s: Seq<Pattern>)
    ensures
        spec_patterns(s).len() == s.len(),
        forall|j: int| 0 <= j < s.len() ==> #[trigger] spec_patterns(s)[j] == spec_pattern(s[j]),
    decreases s.len(),
{
    if s.len() > 0 {
        lemma_patterns_index(s.drop_last());
    }
}

pub proof fn lemma_field_pats_index(s: Seq<(String, Pattern)>)
    ensures
        spec_field_pats(s).len() == s.len(),
        forall|j: int| 0 <= j < s.len() ==> #[trigger] spec_field_pats(s)[j] == (s[j].0@, spec_pattern(s[j].1)),
    decreases s.len(),
{
    if s.len() > 0 {
        lemma_field_pats_index(s.drop_last());
    }
}

// ─── Deep copies ──────────────────────────────────────────────────────────────

#[verifier::loop_isolation(false)]
pub fn copy_pattern(p: &Pattern) -> (r: Pattern)
    ensures
        r@ == p@,
    decreases p,
{
    match p {
        Pattern::Wildcard => Pattern::Wildcard,
        Pattern::Int(n) => Pattern::Int(*n),
        Pattern::Float(s) => Pattern::Float(s.clone()),
        Pattern::Bool(b) => Pattern::Bool(*b),
        Pattern::Str(s) => Pattern::Str(s.clone()),
        Pattern::NoneLit => Pattern::NoneLit,
        Pattern::Binding(s) => Pattern::Binding(s.clone()),
        Pattern::Tuple(ps) => {
            let mut out: Vec<Pattern> = Vec::new();
            let mut i: usize = 0;
            while i < ps.len()
                invariant
                    i <= ps@.len(),
                    spec_patterns(out@) == spec_patterns(ps@.take(i as int)),
                    *p == Pattern::Tuple(*ps),
                decreases ps.len() - i,
            {
                proof {
                    assert(decreases_to!(ps => ps@));
                    assert(decreases_to!(ps@ => ps@[i as int]));
                }
                let q = copy_pattern(&ps[i]);
                proof {
                    lemma_patterns_push(out@, q);
                    lemma_patterns_push(ps@.take(i as int), ps@[i as int]);
                    assert(ps@.take(i + 1) =~= ps@.take(i as int).push(ps@[i as int]));
                }
                out.push(q);
                i = i + 1;
            }
            proof {
                assert(ps@.take(ps@.len() as int) =~= ps@);
            }
            Pattern::Tuple(out)
        },
        Pattern::Struct { name, fields } => {
            let mut out: Vec<(String, Pattern)> = Vec::new();
            let mut i: usize = 0;
            while i < fields.len()
                invariant
                    i <= fields@.len(),
                    spec_field_pats(out@) == spec_field_pats(fields@.take(i as int)),
                    *p == (Pattern::Struct { name: *name, fields: *fields }),
                decreases fields.len() - i,
            {
                proof {
                    assert(decreases_to!(fields => fields@));
                    assert(decreases_to!(fields@ => fields@[i as int]));
                    assert(decreases_to!(fields@[i as int] => fields@[i as int].1));
                }
                let q = copy_pattern(&fields[i].1);
                let n = fields[i].0.clone();
                proof {
                    lemma_field_pats_push(out@, (n, q));
                    lemma_field_pats_push(fields@.take(i as int), fields@[i as int]);
                    assert(fields@.take(i + 1) =~= fields@.take(i as int).push(fields@[i as int]));
                }
                out.push((n, q));
                i = i + 1;
            }
            proof {
                assert(fields@.take(fields@.len() as int) =~= fields@);
            }
            Pattern::Struct { name: name.clone(), fields: out }
        },
    }
}

pub fn copy_exprs(v: &Vec<Expr>) -> (r: Vec<Expr>)
    ensures
        spec_exprs(r@) == spec_exprs(v@),
    decreases v,
{
    let mut out: Vec<Expr> = Vec::new();
    let mut i: usize = 0;
    while i < v.len()
        invariant
            i <= v@.len(),
            spec_exprs(out@) == spec_exprs(v@.take(i as int)),
        decreases v.len() - i,
    {
        proof {
            assert(decreases_to!(v => v@));
            assert(decreases_to!(v@ => v@[i as int]));
        }
        let q = copy_expr(&v[i]);
        proof {
            lemma_exprs_push(out@, q);
            lemma_exprs_push(v@.take(i as int), v@[i as int]);
            assert(v@.take(i + 1) =~= v@.take(i as int).push(v@[i as int]));
        }
        out.push(q);
        i = i + 1;
    }
    proof {
        assert(v@.take(v@.len() as int) =~= v@);
    }
    out
}

pub fn copy_stmts(v: &Vec<Stmt>) -> (r: Vec<Stmt>)
    ensures
        spec_stmts(r@) == spec_stmts(v@),
    decreases v,
{
    let mut out: Vec<Stmt> = Vec::new();
    let mut i: usize = 0;
    while i < v.len()
        invariant
            i <= v@.len(),
            spec_stmts(out@) == spec_stmts(v@.take(i as int)),
        decreases v.len() - i,
    {
        proof {
            assert(decreases_to!(v => v@));
            assert(decreases_to!(v@ => v@[i as int]));
        }
        let q = copy_stmt(&v[i]);
        proof {
            lemma_stmts_push(out@, q);
            lemma_stmts_push(v@.take(i as int), v@[i as int]);
            assert(v@.take(i + 1) =~= v@.take(i as int).push(v@[i as int]));
        }
        out.push(q);
        i = i + 1;
    }
    proof {
        assert(v@.take(v@.len() as int) =~= v@);
    }
    out
}

pub fn copy_field_inits(v: &Vec<(String, Expr)>) -> (r: Vec<(String, Expr)>)
    ensures
        spec_field_inits(r@) == spec_field_inits(v@),
    decreases v,
{
    let mut out: Vec<(String, Expr)> = Vec::new();
    let mut i: usize = 0;
    while i < v.len()
        invariant
            i <= v@.len(),
            spec_field_inits(out@) == spec_field_inits(v@.take(i as int)),
        decreases v.len() - i,
    {
        proof {
            assert(decreases_to!(v => v@));
            assert(decreases_to!(v@ => v@[i as int]));
            assert(decreases_to!(v@[i as int] => v@[i as int].1));
        }
        let q = copy_expr(&v[i].1);
        let n = v[i].0.clone();
        proof {
            lemma_field_inits_push(out@, (n, q));
            lemma_field_inits_push(v@.take(i as int), v@[i as int]);
            assert(v@.take(i + 1) =~= v@.take(i as int).push(v@[i as int]));
        }
        out.push((n, q));
        i = i + 1;
    }
    proof {
        assert(v@.take(v@.len() as int) =~= v@);
    }
    out
}

pub fn copy_arms(v: &Vec<MatchArm>) -> (r: Vec<MatchArm>)
    ensures
        spec_arms(r@) == spec_arms(v@),
    decreases v,
{
    let mut out: Vec<MatchArm> = Vec::new();
    let mut i: usize = 0;
    while i < v.len()
        invariant
            i <= v@.len(),
            spec_arms(out@) == spec_arms(v@.take(i as int)),
        decreases v.len() - i,
    {
        proof {
            assert(decreases_to!(v => v@));
            assert(decreases_to!(v@ => v@[i as int]));
            assert(decreases_to!(v@[i as int] => v@[i as int].body));
        }
        let body = copy_stmts(&v[i].body);
        let pattern = copy_pattern(&v[i].pattern);
        let q = MatchArm { pattern, body };
        proof {
            lemma_arms_push(out@, q);
            lemma_arms_push(v@.take(i as int), v@[i as int]);
            assert(v@.take(i + 1) =~= v@.take(i as int).push(v@[i as int]));
        }
        out.push(q);
        i = i + 1;
    }
    proof {
        assert(v@.take(v@.len() as int) =~= v@);
    }
    out
}

pub fn copy_expr(e: &Expr) -> (r: Expr)
    ensures
        r@ == e@,
    decreases e,
{
    match e {
        Expr::Int(n, l) => Expr::Int(*n, *l),
        Expr::Float(s, l) => Expr::Float(s.clone(), *l),
        Expr::Bool(b, l) => Expr::Bool(*b, *l),
        Expr::Str(s, l) => Expr::Str(s.clone(), *l),
        Expr::NoneLit(l) => Expr::NoneLit(*l),
        Expr::Array(v, l) => Expr::Array(copy_exprs(v), *l),
        Expr::Tuple(v, l) => Expr::Tuple(copy_exprs(v), *l),
        Expr::Range { start, end, inclusive, line } => Expr::Range {
            start: Box::new(copy_expr(start)),
            end: Box::new(copy_expr(end)),
            inclusive: *inclusive,
            line: *line,
        },
        Expr::Ident(s, l) => Expr::Ident(s.clone(), *l),
        Expr::FieldAccess { obj, field, line } => Expr::FieldAccess {
            obj: Box::new(copy_expr(obj)),
            field: field.clone(),
            line: *line,
        },
        Expr::Index { obj, index, line } => Expr::Index {
            obj: Box::new(copy_expr(obj)),
            index: Box::new(copy_expr(index)),
            line: *line,
        },
        Expr::Call { name, args, line } => Expr::Call { name: name.clone(), args: copy_exprs(args), line: *line },
        Expr::MethodCall { obj, method, args, line } => Expr::MethodCall {
            obj: Box::new(copy_expr(obj)),
            method: method.clone(),
            args: copy_exprs(args),
            line: *line,
        },
        Expr::StructLit { name, fields, line } => Expr::StructLit {
            name: name.clone(),
            fields: copy_field_inits(fields),
            line: *line,
        },
        Expr::BinOp { op, left, right, line } => Expr::BinOp {
            op: *op,
            left: Box::new(copy_expr(left)),
            right: Box::new(copy_expr(right)),
            line: *line,
        },
        Expr::UnaryOp { op, operand, line } => Expr::UnaryOp {
            op: *op,
            operand: Box::new(copy_expr(operand)),
            line: *line,
        },
        Expr::Cast { expr, ty, line } => Expr::Cast {
            expr: Box::new(copy_expr(expr)),
            ty: ty.clone(),
            line: *line,
        },
        Expr::If { cond, then, else_, line } => Expr::If {
            cond: Box::new(copy_expr(cond)),
            then: copy_stmts(then),
            else_: match else_ {
                Some(b) => Some(copy_stmts(b)),
                None => None,
            },
            line: *line,
        },
        Expr::Match { subject, arms, line } => Expr::Match {
            subject: Box::new(copy_expr(subject)),
            arms: copy_arms(arms),
            line: *line,
        },
    }
}

pub fn copy_target(t: &AssignTarget) -> (r: AssignTarget)
    ensures
        r@ == t@,
    decreases t,
{
    match t {
        AssignTarget::Ident(s, l) => AssignTarget::Ident(s.clone(), *l),
        AssignTarget::Field { obj, field, line } => AssignTarget::Field {
            obj: Box::new(copy_expr(obj)),
            field: field.clone(),
            line: *line,
        },
        AssignTarget::Index { obj, index, line } => AssignTarget::Index {
            obj: Box::new(copy_expr(obj)),
            index: Box::new(copy_expr(index)),
            line: *line,
        },
    }
}

pub fn copy_stmt(s: &Stmt) -> (r: Stmt)
    ensures
        r@ == s@,
    decreases s,
{
    match s {
        Stmt::Let { name, ty, value, mutable, line } => Stmt::Let {
            name: name.clone(),
            ty: match ty {
                Some(t) => Some(t.clone()),
                None => None,
            },
            value: copy_expr(value),
            mutable: *mutable,
            line: *line,
        },
        Stmt::Assign { target, value, line } => Stmt::Assign {
            target: copy_target(target),
            value: copy_expr(value),
            line: *line,
        },
        Stmt::Return { value, line } => Stmt::Return {
            value: match value {
                Some(e) => Some(copy_expr(e)),
                None => None,
            },
            line: *line,
        },
        Stmt::While { cond, body, line } => Stmt::While {
            cond: copy_expr(cond),
            body: copy_stmts(body),
            line: *line,
        },
        Stmt::For { var, iter, body, line } => Stmt::For {
            var: var.clone(),
            iter: copy_expr(iter),
            body: copy_stmts(body),
            line: *line,
        },
        Stmt::Break { line } => Stmt::Break { line: *line },
        Stmt::Continue { line } => Stmt::Continue { line: *line },
        Stmt::Expr(e) => Stmt::Expr(copy_expr(e)),
    }
}

impl Clone for Expr {
    fn clone(&self) -> (res: Self)
        ensures
            res@ == self@,
    {
        copy_expr(self)
    }
}

impl Clone for Stmt {
    fn clone(&self) -> (res: Self)
        ensures
            res@ == self@,
    {
        copy_stmt(self)
    }
}

impl Clone for Pattern {
    fn clone(&self) -> (res: Self)
        ensures
            res@ == self@,
    {
        copy_pattern(self)
    }
}

} // verus!
