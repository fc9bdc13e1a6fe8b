//! The Pebble grammar, as the parser reads it: for a token list and a position,
//! what each parsing routine produces and how many tokens it consumes.
use vstd::prelude::*;

use crate::ast::{BinOp, UnaryOp, SpecExpr, SpecStmt, SpecTarget, SpecArm, SpecPattern, SpecParam, SpecField, SpecFnDef, SpecStructDef, SpecImplBlock, SpecItem, SpecToken, SpecType};
use crate::diag::token_debug_text;

verus! {

pub type Toks = Seq<(SpecToken, usize)>;

/// Model of a parse error: its message and line.
pub struct SpecParseError {
    pub message: Seq<char>,
    pub line: usize,
}

/// A parsing outcome: the value and the number of tokens consumed.
pub type Parsed<T> = Result<(T, nat), SpecParseError>;

pub open spec fn tk(t: Toks, i: int) -> SpecToken {
    if 0 <= i < t.len() {
        t[i].0
    } else {
        SpecToken::EOF
    }
}

pub open spec fn ln(t: Toks, i: int) -> usize {
    if 0 <= i < t.len() {
        t[i].1
    } else {
        0
    }
}

/// Tokens left from position `i`: the first measure of every recursive routine.
pub open spec fn rem(t: Toks, i: int) -> int {
    if 0 <= i < t.len() {
        t.len() - i
    } else {
        0
    }
}

pub open spec fn in_range(t: Toks, i: int) -> bool {
    0 <= i < t.len()
}

/// The outcome of a routine asked to start outside the token list.
pub open spec fn out_of_range<T>() -> Parsed<T> {
    Err(SpecParseError { message: Seq::empty(), line: 0 })
}

/// The value of an `Ok` outcome.
pub open spec fn ok_part<T, E>(r: Result<T, E>) -> T {
    match r {
        Ok(v) => v,
        Err(_) => arbitrary(),
    }
}

/// The error of an `Err` outcome.
pub open spec fn err_part<T, E>(r: Result<T, E>) -> E {
    match r {
        Err(e) => e,
        Ok(_) => arbitrary(),
    }
}

/// The outcome is the error `e`.
pub open spec fn fails_with<T>(g: Parsed<T>, e: SpecParseError) -> bool {
    g == Err::<(T, nat), SpecParseError>(e)
}

/// Adds `d` to the number of tokens consumed.
pub open spec fn shift<T>(p: Parsed<T>, d: nat) -> Parsed<T> {
    match p {
        Ok((v, c)) => Ok((v, c + d)),
        Err(e) => Err(e),
    }
}

// ─── Error messages ───────────────────────────────────────────────────────────

pub open spec fn err_expected(expected: SpecToken, found: SpecToken, line: usize) -> SpecParseError {
    SpecParseError {
        message: "expected "@ + token_debug_text(expected) + ", found "@ + token_debug_text(found),
        line,
    }
}

pub open spec fn err_ident(found: SpecToken, line: usize) -> SpecParseError {
    SpecParseError { message: "expected identifier, found "@ + token_debug_text(found), line }
}

pub open spec fn err_item(found: SpecToken, line: usize) -> SpecParseError {
    SpecParseError {
        message: "expected top-level item (fn, struct, impl), found "@ + token_debug_text(found),
        line,
    }
}

pub open spec fn err_type(found: SpecToken, line: usize) -> SpecParseError {
    SpecParseError { message: "expected type, found "@ + token_debug_text(found), line }
}

pub open spec fn err_unexpected(found: SpecToken, line: usize) -> SpecParseError {
    SpecParseError { message: "unexpected token in expression: "@ + token_debug_text(found), line }
}

pub open spec fn err_pattern(found: SpecToken, line: usize) -> SpecParseError {
    SpecParseError { message: "expected pattern, found "@ + token_debug_text(found), line }
}

pub open spec fn err_target(line: usize) -> SpecParseError {
    SpecParseError { message: "invalid assignment target"@, line }
}

// ─── Small routines ───────────────────────────────────────────────────────────

/// Number of semicolons at position `i`.
pub open spec fn g_semis(t: Toks, i: int) -> nat
    decreases rem(t, i),
{
    if in_range(t, i) && tk(t, i) is Semicolon {
        1 + g_semis(t, i + 1)
    } else {
        0
    }
}

pub open spec fn g_expect(t: Toks, i: int, e: SpecToken) -> Result<nat, SpecParseError> {
    if tk(t, i) == e {
        Ok(1)
    } else {
        Err(err_expected(e, tk(t, i), ln(t, i)))
    }
}

pub open spec fn g_ident(t: Toks, i: int) -> Parsed<Seq<char>> {
    match tk(t, i) {
        SpecToken::Ident(n) => Ok((n, 1)),
        other => Err(err_ident(other, ln(t, i))),
    }
}

/// The type that a name stands for.
pub open spec fn named_type(n: Seq<char>) -> SpecType {
    if n == seq!['i', '3', '2'] {
        SpecType::I32
    } else if n == seq!['i', '6', '4'] {
        SpecType::I64
    } else if n == seq!['f', '6', '4'] {
        SpecType::F64
    } else if n == seq!['b', 'o', 'o', 'l'] {
        SpecType::Bool
    } else if n == seq!['s', 't', 'r'] {
        SpecType::Str
    } else if n == seq!['v', 'o', 'i', 'd'] {
        SpecType::Void
    } else {
        SpecType::Named(n)
    }
}

/// `?T`, `[T]`, or a type name.
#[verifier::opaque]
pub open spec fn g_type(t: Toks, i: int) -> Parsed<SpecType>
    decreases rem(t, i),
{
    if !in_range(t, i) {
        out_of_range()
    } else if tk(t, i) is Question {
        match g_type(t, i + 1) {
            Ok((inner, c)) => Ok((SpecType::Optional(Box::new(inner)), c + 1)),
            Err(e) => Err(e),
        }
    } else if tk(t, i) is LBracket {
        match g_type(t, i + 1) {
            Ok((inner, c)) => match g_expect(t, i + 1 + c, SpecToken::RBracket) {
                Ok(_) => Ok((SpecType::Array(Box::new(inner)), c + 2)),
                Err(e) => Err(e),
            },
            Err(e) => Err(e),
        }
    } else {
        match tk(t, i) {
            SpecToken::Ident(n) => Ok((named_type(n), 1)),
            other => Err(err_type(other, ln(t, i))),
        }
    }
}

pub open spec fn g_is_struct_literal(t: Toks, k: int) -> bool {
    if k + 2 >= t.len() {
        false
    } else {
        tk(t, k + 1) is Ident && tk(t, k + 2) is Colon
    }
}

pub open spec fn g_to_target(e: SpecExpr) -> Option<SpecTarget> {
    match e {
        SpecExpr::Ident(n, l) => Some(SpecTarget::Ident(n, l)),
        SpecExpr::FieldAccess { obj, field, line } => Some(SpecTarget::Field { obj, field, line }),
        SpecExpr::Index { obj, index, line } => Some(SpecTarget::Index { obj, index, line }),
        _ => None,
    }
}

// ─── Patterns ─────────────────────────────────────────────────────────────────

#[verifier::opaque]
pub open spec fn g_pattern(t: Toks, i: int) -> Parsed<SpecPattern>
    decreases rem(t, i), 1int,
{
    if !in_range(t, i) {
        out_of_range()
    } else {
        match tk(t, i) {
            SpecToken::Underscore => Ok((SpecPattern::Wildcard, 1)),
            SpecToken::Int(n) => Ok((SpecPattern::Int(n), 1)),
            SpecToken::Float(f) => Ok((SpecPattern::Float(f), 1)),
            SpecToken::Bool(b) => Ok((SpecPattern::Bool(b), 1)),
            SpecToken::StringLit(s) => Ok((SpecPattern::Str(s), 1)),
            SpecToken::None_ => Ok((SpecPattern::NoneLit, 1)),
            SpecToken::LParen => match g_tuple_pats(t, i + 1, Seq::empty()) {
                Ok((pats, c)) => match g_expect(t, i + 1 + c, SpecToken::RParen) {
                    Ok(_) => Ok((SpecPattern::Tuple(pats), c + 2)),
                    Err(e) => Err(e),
                },
                Err(e) => Err(e),
            },
            SpecToken::Ident(name) => if tk(t, i + 1) is LBrace {
                match g_field_pats(t, i + 2, Seq::empty()) {
                    Ok((fields, c)) => match g_expect(t, i + 2 + c, SpecToken::RBrace) {
                        Ok(_) => Ok((SpecPattern::Struct { name, fields }, c + 3)),
                        Err(e) => Err(e),
                    },
                    Err(e) => Err(e),
                }
            } else {
                Ok((SpecPattern::Binding(name), 1))
            },
            other => Err(err_pattern(other, ln(t, i))),
        }
    }
}

/// Patterns of a tuple pattern, up to `)`; `acc` holds those already read.
#[verifier::opaque]
pub open spec fn g_tuple_pats(t: Toks, j: int, acc: Seq<SpecPattern>) -> Parsed<Seq<SpecPattern>>
    decreases rem(t, j), 2int,
{
    if !in_range(t, j) {
        out_of_range()
    } else if tk(t, j) is RParen || tk(t, j) is EOF {
        Ok((acc, 0))
    } else {
        match g_pattern(t, j) {
            Ok((p, c)) => {
                let k = j + c;
                let sep: nat = if tk(t, k) is Comma { 1 } else { 0 };
                if c + sep == 0 {
                    out_of_range()
                } else {
                    match g_tuple_pats(t, k + sep, acc.push(p)) {
                        Ok((ps, c2)) => Ok((ps, c + sep + c2)),
                        Err(e) => Err(e),
                    }
                }
            },
            Err(e) => Err(e),
        }
    }
}

/// Fields of a struct pattern (`name` or `name: pattern`), up to `}`.
#[verifier::opaque]
pub open spec fn g_field_pats(t: Toks, j: int, acc: Seq<(Seq<char>, SpecPattern)>) -> Parsed<
    Seq<(Seq<char>, SpecPattern)>,
>
    decreases rem(t, j), 2int,
{
    if !in_range(t, j) {
        out_of_range()
    } else if tk(t, j) is RBrace || tk(t, j) is EOF {
        Ok((acc, 0))
    } else {
        match g_ident(t, j) {
            Ok((fname, _)) => {
                let r: Parsed<SpecPattern> = if tk(t, j + 1) is Colon {
                    match g_pattern(t, j + 2) {
                        Ok((p, c)) => Ok((p, c + 2)),
                        Err(e) => Err(e),
                    }
                } else {
                    Ok((SpecPattern::Binding(fname), 1))
                };
                match r {
                    Ok((p, c)) => {
                        let k = j + c;
                        let sep: nat = if tk(t, k) is Comma { 1 } else { 0 };
                        match g_field_pats(t, k + sep, acc.push((fname, p))) {
                            Ok((fs, c2)) => Ok((fs, c + sep + c2)),
                            Err(e) => Err(e),
                        }
                    },
                    Err(e) => Err(e),
                }
            },
            Err(e) => Err(e),
        }
    }
}

// ─── Expressions and statements ──────────────────────────────────────────────
//
// Measures: tokens left, then a level. A routine may call one of a lower level
// at its own position; calls at later positions may go to any level.
// Binary levels k: 1 = * / %, 2 = + -, 3 = comparisons, 4 = == !=, 5 = &&, 6 = ||.

/// The operator that token `tok` stands for at binary level `k`.
pub open spec fn bin_op_at(tok: SpecToken, k: int) -> Option<BinOp> {
    if k == 1 {
        match tok {
            SpecToken::Star => Some(BinOp::Mul),
            SpecToken::Slash => Some(BinOp::Div),
            SpecToken::Percent => Some(BinOp::Mod),
            _ => None,
        }
    } else if k == 2 {
        match tok {
            SpecToken::Plus => Some(BinOp::Add),
            SpecToken::Minus => Some(BinOp::Sub),
            _ => None,
        }
    } else if k == 3 {
        match tok {
            SpecToken::Lt => Some(BinOp::Lt),
            SpecToken::Gt => Some(BinOp::Gt),
            SpecToken::LtEq => Some(BinOp::LtEq),
            SpecToken::GtEq => Some(BinOp::GtEq),
            _ => None,
        }
    } else if k == 4 {
        match tok {
            SpecToken::Eq => Some(BinOp::Eq),
            SpecToken::NotEq => Some(BinOp::NotEq),
            _ => None,
        }
    } else if k == 5 {
        match tok {
            SpecToken::And => Some(BinOp::And),
            _ => None,
        }
    } else {
        match tok {
            SpecToken::Or => Some(BinOp::Or),
            _ => None,
        }
    }
}

/// `if cond { .. } [else if .. | else { .. }]`
#[verifier::opaque]
pub open spec fn g_if(t: Toks, i: int) -> Parsed<SpecExpr>
    decreases rem(t, i), 0int,
{
    if !in_range(t, i) {
        out_of_range()
    } else {
        let line = ln(t, i);
        match g_expect(t, i, SpecToken::If) {
            Err(e) => Err(e),
            Ok(_) => match g_expr(t, i + 1) {
                Err(e) => Err(e),
                Ok((cond, c1)) => match g_expect(t, i + 1 + c1, SpecToken::LBrace) {
                    Err(e) => Err(e),
                    Ok(_) => match g_block(t, i + 2 + c1) {
                        Err(e) => Err(e),
                        Ok((then, c2)) => match g_expect(t, i + 2 + c1 + c2, SpecToken::RBrace) {
                            Err(e) => Err(e),
                            Ok(_) => {
                                let j = i + 3 + c1 + c2;
                                let base: nat = 3 + c1 + c2;
                                if tk(t, j) is Else {
                                    if tk(t, j + 1) is If {
                                        match g_if(t, j + 1) {
                                            Err(e) => Err(e),
                                            Ok((e2, c3)) => Ok((
                                                SpecExpr::If {
                                                    cond: Box::new(cond),
                                                    then,
                                                    else_: Some(seq![SpecStmt::Expr(e2)]),
                                                    line,
                                                },
                                                base + 1 + c3,
                                            )),
                                        }
                                    } else {
                                        match g_expect(t, j + 1, SpecToken::LBrace) {
                                            Err(e) => Err(e),
                                            Ok(_) => match g_block(t, j + 2) {
                                                Err(e) => Err(e),
                                                Ok((els, c3)) => match g_expect(t, j + 2 + c3, SpecToken::RBrace) {
                                                    Err(e) => Err(e),
                                                    Ok(_) => Ok((
                                                        SpecExpr::If {
                                                            cond: Box::new(cond),
                                                            then,
                                                            else_: Some(els),
                                                            line,
                                                        },
                                                        base + 3 + c3,
                                                    )),
                                                },
                                            },
                                        }
                                    }
                                } else {
                                    Ok((SpecExpr::If { cond: Box::new(cond), then, else_: None, line }, base))
                                }
                            },
                        },
                    },
                },
            },
        }
    }
}

/// `match subject { pattern => body ... }`
#[verifier::opaque]
pub open spec fn g_match(t: Toks, i: int) -> Parsed<SpecExpr>
    decreases rem(t, i), 0int,
{
    if !in_range(t, i) {
        out_of_range()
    } else {
        let line = ln(t, i);
        match g_expect(t, i, SpecToken::Match) {
            Err(e) => Err(e),
            Ok(_) => match g_expr(t, i + 1) {
                Err(e) => Err(e),
                Ok((subject, c1)) => match g_expect(t, i + 1 + c1, SpecToken::LBrace) {
                    Err(e) => Err(e),
                    Ok(_) => {
                        let s = g_semis(t, i + 2 + c1);
                        match g_arms(t, i + 2 + c1 + s, Seq::empty()) {
                            Err(e) => Err(e),
                            Ok((arms, c2)) => match g_expect(t, i + 2 + c1 + s + c2, SpecToken::RBrace) {
                                Err(e) => Err(e),
                                Ok(_) => Ok((
                                    SpecExpr::Match { subject: Box::new(subject), arms, line },
                                    3 + c1 + s + c2,
                                )),
                            },
                        }
                    },
                },
            },
        }
    }
}

/// One match arm: `pattern => { block }` or `pattern => expr`.
pub open spec fn g_arm(t: Toks, j: int) -> Parsed<SpecArm>
    decreases rem(t, j), 0int,
{
    if !in_range(t, j) {
        out_of_range()
    } else {
        match g_pattern(t, j) {
            Err(e) => Err(e),
            Ok((pattern, cp)) => match g_expect(t, j + cp, SpecToken::FatArrow) {
                Err(e) => Err(e),
                Ok(_) => {
                    let b = j + cp + 1;
                    if tk(t, b) is LBrace {
                        match g_block(t, b + 1) {
                            Err(e) => Err(e),
                            Ok((stmts, cb)) => match g_expect(t, b + 1 + cb, SpecToken::RBrace) {
                                Err(e) => Err(e),
                                Ok(_) => Ok((SpecArm { pattern, body: stmts }, cp + 1 + cb + 2)),
                            },
                        }
                    } else {
                        match g_expr(t, b) {
                            Err(e) => Err(e),
                            Ok((e, ce)) => Ok((SpecArm { pattern, body: seq![SpecStmt::Expr(e)] }, cp + 1 + ce)),
                        }
                    }
                },
            },
        }
    }
}

/// Match arms (each followed by an optional comma and semicolons) up to `}`.
#[verifier::opaque]
pub open spec fn g_arms(t: Toks, j: int, acc: Seq<SpecArm>) -> Parsed<Seq<SpecArm>>
    decreases rem(t, j), 1int,
{
    if !in_range(t, j) {
        out_of_range()
    } else if tk(t, j) is RBrace || tk(t, j) is EOF {
        Ok((acc, 0))
    } else {
        match g_arm(t, j) {
            Err(e) => Err(e),
            Ok((arm, ca)) => {
                let k = j + ca;
                let comma: nat = if tk(t, k) is Comma { 1 } else { 0 };
                let s = g_semis(t, k + comma);
                if ca + comma + s == 0 {
                    out_of_range()
                } else {
                    match g_arms(t, k + comma + s, acc.push(arm)) {
                        Err(e) => Err(e),
                        Ok((arms, c2)) => Ok((arms, ca + comma + s + c2)),
                    }
                }
            },
        }
    }
}

/// Expressions separated by commas, up to `)` (call arguments).
#[verifier::opaque]
pub open spec fn g_args(t: Toks, j: int, acc: Seq<SpecExpr>) -> Parsed<Seq<SpecExpr>>
    decreases rem(t, j), 17int,
{
    if !in_range(t, j) {
        out_of_range()
    } else if tk(t, j) is RParen || tk(t, j) is EOF {
        Ok((acc, 0))
    } else {
        match g_expr(t, j) {
            Err(e) => Err(e),
            Ok((e, c)) => if tk(t, j + c) is Comma {
                match g_args(t, j + c + 1, acc.push(e)) {
                    Err(e2) => Err(e2),
                    Ok((es, c2)) => Ok((es, c + 1 + c2)),
                }
            } else {
                Ok((acc.push(e), c))
            },
        }
    }
}

/// Array literal elements, up to `]`.
#[verifier::opaque]
pub open spec fn g_elems(t: Toks, j: int, acc: Seq<SpecExpr>) -> Parsed<Seq<SpecExpr>>
    decreases rem(t, j), 17int,
{
    if !in_range(t, j) {
        out_of_range()
    } else if tk(t, j) is RBracket || tk(t, j) is EOF {
        Ok((acc, 0))
    } else {
        match g_expr(t, j) {
            Err(e) => Err(e),
            Ok((e, c)) => if tk(t, j + c) is Comma {
                match g_elems(t, j + c + 1, acc.push(e)) {
                    Err(e2) => Err(e2),
                    Ok((es, c2)) => Ok((es, c + 1 + c2)),
                }
            } else {
                Ok((acc.push(e), c))
            },
        }
    }
}

/// The rest of a tuple literal after its first element: `, e` repeated.
#[verifier::opaque]
pub open spec fn g_tuple_rest(t: Toks, j: int, acc: Seq<SpecExpr>) -> Parsed<Seq<SpecExpr>>
    decreases rem(t, j), 17int,
{
    if !in_range(t, j) {
        out_of_range()
    } else if tk(t, j) is Comma {
        if tk(t, j + 1) is RParen {
            Ok((acc, 1))
        } else {
            match g_expr(t, j + 1) {
                Err(e) => Err(e),
                Ok((e, c)) => match g_tuple_rest(t, j + 1 + c, acc.push(e)) {
                    Err(e2) => Err(e2),
                    Ok((es, c2)) => Ok((es, 1 + c + c2)),
                },
            }
        }
    } else {
        Ok((acc, 0))
    }
}

/// Struct literal fields `name: expr`, up to `}`.
#[verifier::opaque]
pub open spec fn g_field_inits(t: Toks, j: int, acc: Seq<(Seq<char>, SpecExpr)>) -> Parsed<
    Seq<(Seq<char>, SpecExpr)>,
>
    decreases rem(t, j), 17int,
{
    if !in_range(t, j) {
        out_of_range()
    } else if tk(t, j) is RBrace || tk(t, j) is EOF {
        Ok((acc, 0))
    } else {
        match g_ident(t, j) {
            Err(e) => Err(e),
            Ok((name, _)) => match g_expect(t, j + 1, SpecToken::Colon) {
                Err(e) => Err(e),
                Ok(_) => match g_expr(t, j + 2) {
                    Err(e) => Err(e),
                    Ok((v, c)) => if tk(t, j + 2 + c) is Comma {
                        match g_field_inits(t, j + 3 + c, acc.push((name, v))) {
                            Err(e2) => Err(e2),
                            Ok((fs, c2)) => Ok((fs, c + 3 + c2)),
                        }
                    } else {
                        Ok((acc.push((name, v)), c + 2))
                    },
                },
            },
        }
    }
}

/// One struct literal field `name: expr` (the step `g_field_inits` repeats).
pub open spec fn field_init_at(t: Toks, j: int) -> Parsed<(Seq<char>, SpecExpr)> {
    match g_ident(t, j) {
        Err(e) => Err(e),
        Ok((name, _)) => match g_expect(t, j + 1, SpecToken::Colon) {
            Err(e) => Err(e),
            Ok(_) => match g_expr(t, j + 2) {
                Err(e) => Err(e),
                Ok((v, c)) => Ok(((name, v), c + 2)),
            },
        },
    }
}

/// A range `start..end` or `start..=end` whose start has been read and whose
/// operator is at position `j`.
#[verifier::opaque]
pub open spec fn g_range_from(t: Toks, j: int, start: SpecExpr, line: usize, inclusive: bool) -> Parsed<SpecExpr>
    decreases rem(t, j), 17int,
{
    if !in_range(t, j) {
        out_of_range()
    } else {
        match g_expr(t, j + 1) {
            Err(e) => Err(e),
            Ok((end, c)) => Ok((SpecExpr::Range { start: Box::new(start), end: Box::new(end), inclusive, line }, 1 + c)),
        }
    }
}

#[verifier::opaque]
pub open spec fn g_primary(t: Toks, i: int) -> Parsed<SpecExpr>
    decreases rem(t, i), 1int,
{
    if !in_range(t, i) {
        out_of_range()
    } else {
        let line = ln(t, i);
        match tk(t, i) {
            SpecToken::Int(n) => if tk(t, i + 1) is DotDot {
                match g_range_from(t, i + 1, SpecExpr::Int(n, line), line, false) {
                    Err(e) => Err(e),
                    Ok((r, c)) => Ok((r, 1 + c)),
                }
            } else if tk(t, i + 1) is DotDotEq {
                match g_range_from(t, i + 1, SpecExpr::Int(n, line), line, true) {
                    Err(e) => Err(e),
                    Ok((r, c)) => Ok((r, 1 + c)),
                }
            } else {
                Ok((SpecExpr::Int(n, line), 1))
            },
            SpecToken::Float(f) => Ok((SpecExpr::Float(f, line), 1)),
            SpecToken::Bool(b) => Ok((SpecExpr::Bool(b, line), 1)),
            SpecToken::StringLit(s) => Ok((SpecExpr::Str(s, line), 1)),
            SpecToken::None_ => Ok((SpecExpr::NoneLit(line), 1)),
            SpecToken::Self_ => Ok((SpecExpr::Ident("self"@, line), 1)),
            SpecToken::LParen => if tk(t, i + 1) is RParen {
                Ok((SpecExpr::Tuple(Seq::empty(), line), 2))
            } else {
                match g_expr(t, i + 1) {
                    Err(e) => Err(e),
                    Ok((first, c1)) => if tk(t, i + 1 + c1) is Comma {
                        match g_tuple_rest(t, i + 1 + c1, seq![first]) {
                            Err(e) => Err(e),
                            Ok((elems, c2)) => match g_expect(t, i + 1 + c1 + c2, SpecToken::RParen) {
                                Err(e) => Err(e),
                                Ok(_) => Ok((SpecExpr::Tuple(elems, line), c1 + c2 + 2)),
                            },
                        }
                    } else {
                        match g_expect(t, i + 1 + c1, SpecToken::RParen) {
                            Err(e) => Err(e),
                            Ok(_) => Ok((first, c1 + 2)),
                        }
                    },
                }
            },
            SpecToken::LBracket => match g_elems(t, i + 1, Seq::empty()) {
                Err(e) => Err(e),
                Ok((elems, c)) => match g_expect(t, i + 1 + c, SpecToken::RBracket) {
                    Err(e) => Err(e),
                    Ok(_) => Ok((SpecExpr::Array(elems, line), c + 2)),
                },
            },
            SpecToken::If => g_if(t, i),
            SpecToken::Match => g_match(t, i),
            SpecToken::Ident(name) => if tk(t, i + 1) is LParen {
                match g_args(t, i + 2, Seq::empty()) {
                    Err(e) => Err(e),
                    Ok((args, c)) => match g_expect(t, i + 2 + c, SpecToken::RParen) {
                        Err(e) => Err(e),
                        Ok(_) => Ok((SpecExpr::Call { name, args, line }, c + 3)),
                    },
                }
            } else if tk(t, i + 1) is LBrace && g_is_struct_literal(t, i + 1) {
                match g_field_inits(t, i + 2, Seq::empty()) {
                    Err(e) => Err(e),
                    Ok((fields, c)) => match g_expect(t, i + 2 + c, SpecToken::RBrace) {
                        Err(e) => Err(e),
                        Ok(_) => Ok((SpecExpr::StructLit { name, fields, line }, c + 3)),
                    },
                }
            } else if tk(t, i + 1) is DotDot {
                match g_range_from(t, i + 1, SpecExpr::Ident(name, line), line, false) {
                    Err(e) => Err(e),
                    Ok((r, c)) => Ok((r, 1 + c)),
                }
            } else if tk(t, i + 1) is DotDotEq {
                match g_range_from(t, i + 1, SpecExpr::Ident(name, line), line, true) {
                    Err(e) => Err(e),
                    Ok((r, c)) => Ok((r, 1 + c)),
                }
            } else {
                Ok((SpecExpr::Ident(name, line), 1))
            },
            other => Err(err_unexpected(other, line)),
        }
    }
}

/// Field accesses, method calls, indexing and casts following `e`, from position `j`.
#[verifier::opaque]
pub open spec fn g_postfix_rest(t: Toks, j: int, e: SpecExpr, line: usize) -> Parsed<SpecExpr>
    decreases rem(t, j), 1int,
{
    if !in_range(t, j) {
        out_of_range()
    } else {
        match tk(t, j) {
            SpecToken::Dot => match g_ident(t, j + 1) {
                Err(err) => Err(err),
                Ok((field, _)) => if tk(t, j + 2) is LParen {
                    match g_args(t, j + 3, Seq::empty()) {
                        Err(err) => Err(err),
                        Ok((args, ca)) => match g_expect(t, j + 3 + ca, SpecToken::RParen) {
                            Err(err) => Err(err),
                            Ok(_) => match g_postfix_rest(
                                t,
                                j + 4 + ca,
                                SpecExpr::MethodCall { obj: Box::new(e), method: field, args, line },
                                line,
                            ) {
                                Err(err) => Err(err),
                                Ok((r, c)) => Ok((r, 4 + ca + c)),
                            },
                        },
                    }
                } else {
                    match g_postfix_rest(t, j + 2, SpecExpr::FieldAccess { obj: Box::new(e), field, line }, line) {
                        Err(err) => Err(err),
                        Ok((r, c)) => Ok((r, 2 + c)),
                    }
                },
            },
            SpecToken::LBracket => match g_expr(t, j + 1) {
                Err(err) => Err(err),
                Ok((index, ci)) => match g_expect(t, j + 1 + ci, SpecToken::RBracket) {
                    Err(err) => Err(err),
                    Ok(_) => match g_postfix_rest(
                        t,
                        j + 2 + ci,
                        SpecExpr::Index { obj: Box::new(e), index: Box::new(index), line },
                        line,
                    ) {
                        Err(err) => Err(err),
                        Ok((r, c)) => Ok((r, 2 + ci + c)),
                    },
                },
            },
            SpecToken::As => match g_type(t, j + 1) {
                Err(err) => Err(err),
                Ok((ty, ct)) => match g_postfix_rest(t, j + 1 + ct, SpecExpr::Cast { expr: Box::new(e), ty, line }, line) {
                    Err(err) => Err(err),
                    Ok((r, c)) => Ok((r, 1 + ct + c)),
                },
            },
            _ => Ok((e, 0)),
        }
    }
}

#[verifier::opaque]
pub open spec fn g_postfix(t: Toks, i: int) -> Parsed<SpecExpr>
    decreases rem(t, i), 2int,
{
    if !in_range(t, i) {
        out_of_range()
    } else {
        match g_primary(t, i) {
            Err(e) => Err(e),
            Ok((e, c)) => match g_postfix_rest(t, i + c, e, ln(t, i)) {
                Err(err) => Err(err),
                Ok((r, c2)) => Ok((r, c + c2)),
            },
        }
    }
}

#[verifier::opaque]
pub open spec fn g_unary(t: Toks, i: int) -> Parsed<SpecExpr>
    decreases rem(t, i), 3int,
{
    if !in_range(t, i) {
        out_of_range()
    } else {
        let line = ln(t, i);
        if tk(t, i) is Bang {
            match g_unary(t, i + 1) {
                Err(e) => Err(e),
                Ok((o, c)) => Ok((SpecExpr::UnaryOp { op: UnaryOp::Not, operand: Box::new(o), line }, 1 + c)),
            }
        } else if tk(t, i) is Minus {
            match g_unary(t, i + 1) {
                Err(e) => Err(e),
                Ok((o, c)) => Ok((SpecExpr::UnaryOp { op: UnaryOp::Neg, operand: Box::new(o), line }, 1 + c)),
            }
        } else {
            g_postfix(t, i)
        }
    }
}

/// An operand of binary level `k`.
#[verifier::opaque]
pub open spec fn g_operand(t: Toks, i: int, k: int) -> Parsed<SpecExpr>
    decreases rem(t, i), 2 * k + 2,
{
    if !in_range(t, i) || k < 1 {
        out_of_range()
    } else if k == 1 {
        g_unary(t, i)
    } else {
        g_binary(t, i, k - 1)
    }
}

/// Binary level `k` (1 ..= 6): left-associative chains of its operators.
#[verifier::opaque]
pub open spec fn g_binary(t: Toks, i: int, k: int) -> Parsed<SpecExpr>
    decreases rem(t, i), 2 * k + 3,
{
    if !in_range(t, i) || k < 1 {
        out_of_range()
    } else {
        match g_operand(t, i, k) {
            Err(e) => Err(e),
            Ok((left, c)) => match g_binary_rest(t, i + c, left, ln(t, i), k) {
                Err(e) => Err(e),
                Ok((r, c2)) => Ok((r, c + c2)),
            },
        }
    }
}

#[verifier::opaque]
pub open spec fn g_binary_rest(t: Toks, j: int, left: SpecExpr, line: usize, k: int) -> Parsed<SpecExpr>
    decreases rem(t, j), 2 * k + 2,
{
    if !in_range(t, j) || k < 1 {
        out_of_range()
    } else {
        match bin_op_at(tk(t, j), k) {
            None => Ok((left, 0)),
            Some(op) => match g_operand(t, j + 1, k) {
                Err(e) => Err(e),
                Ok((right, c)) => match g_binary_rest(
                    t,
                    j + 1 + c,
                    SpecExpr::BinOp { op, left: Box::new(left), right: Box::new(right), line },
                    line,
                    k,
                ) {
                    Err(e) => Err(e),
                    Ok((r, c2)) => Ok((r, 1 + c + c2)),
                },
            },
        }
    }
}

#[verifier::opaque]
pub open spec fn g_expr(t: Toks, i: int) -> Parsed<SpecExpr>
    decreases rem(t, i), 16int,
{
    if !in_range(t, i) {
        out_of_range()
    } else {
        g_binary(t, i, 6)
    }
}

/// `x op= rhs` desugared to `x = x op rhs`; the operator is at position `j`.
#[verifier::opaque]
pub open spec fn g_aug_assign(t: Toks, j: int, target: SpecExpr, op: BinOp, line: usize) -> Parsed<SpecStmt>
    decreases rem(t, j), 0int,
{
    if !in_range(t, j) {
        out_of_range()
    } else {
        match g_expr(t, j + 1) {
            Err(e) => Err(e),
            Ok((rhs, c)) => match g_to_target(target) {
                None => Err(err_target(line)),
                Some(tg) => Ok((
                    SpecStmt::Assign {
                        target: tg,
                        value: SpecExpr::BinOp { op, left: Box::new(target), right: Box::new(rhs), line },
                        line,
                    },
                    1 + c,
                )),
            },
        }
    }
}

#[verifier::opaque]
pub open spec fn g_let(t: Toks, i: int) -> Parsed<SpecStmt>
    decreases rem(t, i), 17int,
{
    if !in_range(t, i) {
        out_of_range()
    } else {
        let line = ln(t, i);
        match g_expect(t, i, SpecToken::Let) {
            Err(e) => Err(e),
            Ok(_) => {
                let m: nat = if tk(t, i + 1) is Mut { 1 } else { 0 };
                match g_ident(t, i + 1 + m) {
                    Err(e) => Err(e),
                    Ok((name, _)) => {
                        let j = i + 2 + m;
                        let ty: Parsed<Option<SpecType>> = if tk(t, j) is Colon {
                            match g_type(t, j + 1) {
                                Err(e) => Err(e),
                                Ok((ty, c)) => Ok((Some(ty), c + 1)),
                            }
                        } else {
                            Ok((None, 0))
                        };
                        match ty {
                            Err(e) => Err(e),
                            Ok((ty, ct)) => match g_expect(t, j + ct, SpecToken::Assign) {
                                Err(e) => Err(e),
                                Ok(_) => match g_expr(t, j + ct + 1) {
                                    Err(e) => Err(e),
                                    Ok((value, cv)) => Ok((
                                        SpecStmt::Let { name, ty, value, mutable: m == 1, line },
                                        2 + m + ct + 1 + cv,
                                    )),
                                },
                            },
                        }
                    },
                }
            },
        }
    }
}

#[verifier::opaque]
pub open spec fn g_return(t: Toks, i: int) -> Parsed<SpecStmt>
    decreases rem(t, i), 17int,
{
    if !in_range(t, i) {
        out_of_range()
    } else {
        let line = ln(t, i);
        match g_expect(t, i, SpecToken::Return) {
            Err(e) => Err(e),
            Ok(_) => if tk(t, i + 1) is RBrace || tk(t, i + 1) is Semicolon || tk(t, i + 1) is EOF {
                Ok((SpecStmt::Return { value: None, line }, 1))
            } else {
                match g_expr(t, i + 1) {
                    Err(e) => Err(e),
                    Ok((v, c)) => Ok((SpecStmt::Return { value: Some(v), line }, 1 + c)),
                }
            },
        }
    }
}

#[verifier::opaque]
pub open spec fn g_while(t: Toks, i: int) -> Parsed<SpecStmt>
    decreases rem(t, i), 17int,
{
    if !in_range(t, i) {
        out_of_range()
    } else {
        let line = ln(t, i);
        match g_expect(t, i, SpecToken::While) {
            Err(e) => Err(e),
            Ok(_) => match g_expr(t, i + 1) {
                Err(e) => Err(e),
                Ok((cond, c1)) => match g_expect(t, i + 1 + c1, SpecToken::LBrace) {
                    Err(e) => Err(e),
                    Ok(_) => match g_block(t, i + 2 + c1) {
                        Err(e) => Err(e),
                        Ok((body, c2)) => match g_expect(t, i + 2 + c1 + c2, SpecToken::RBrace) {
                            Err(e) => Err(e),
                            Ok(_) => Ok((SpecStmt::While { cond, body, line }, 3 + c1 + c2)),
                        },
                    },
                },
            },
        }
    }
}

#[verifier::opaque]
pub open spec fn g_for(t: Toks, i: int) -> Parsed<SpecStmt>
    decreases rem(t, i), 17int,
{
    if !in_range(t, i) {
        out_of_range()
    } else {
        let line = ln(t, i);
        match g_expect(t, i, SpecToken::For) {
            Err(e) => Err(e),
            Ok(_) => match g_ident(t, i + 1) {
                Err(e) => Err(e),
                Ok((name, _)) => match g_expect(t, i + 2, SpecToken::In) {
                    Err(e) => Err(e),
                    Ok(_) => match g_expr(t, i + 3) {
                        Err(e) => Err(e),
                        Ok((iter, c1)) => match g_expect(t, i + 3 + c1, SpecToken::LBrace) {
                            Err(e) => Err(e),
                            Ok(_) => match g_block(t, i + 4 + c1) {
                                Err(e) => Err(e),
                                Ok((body, c2)) => match g_expect(t, i + 4 + c1 + c2, SpecToken::RBrace) {
                                    Err(e) => Err(e),
                                    Ok(_) => Ok((SpecStmt::For { var: name, iter, body, line }, 5 + c1 + c2)),
                                },
                            },
                        },
                    },
                },
            },
        }
    }
}

#[verifier::opaque]
pub open spec fn g_stmt(t: Toks, i: int) -> Parsed<SpecStmt>
    decreases rem(t, i), 18int,
{
    if !in_range(t, i) {
        out_of_range()
    } else {
        let line = ln(t, i);
        match tk(t, i) {
            SpecToken::Let => g_let(t, i),
            SpecToken::Return => g_return(t, i),
            SpecToken::If => match g_if(t, i) {
                Err(e) => Err(e),
                Ok((e, c)) => Ok((SpecStmt::Expr(e), c)),
            },
            SpecToken::While => g_while(t, i),
            SpecToken::For => g_for(t, i),
            SpecToken::Break => Ok((SpecStmt::Break { line }, 1)),
            SpecToken::Continue => Ok((SpecStmt::Continue { line }, 1)),
            SpecToken::Ident(_) => match g_expr(t, i) {
                Err(e) => Err(e),
                Ok((e, c)) => {
                    let j = i + c;
                    match tk(t, j) {
                        SpecToken::Assign => match g_expr(t, j + 1) {
                            Err(err) => Err(err),
                            Ok((value, cv)) => match g_to_target(e) {
                                None => Err(err_target(line)),
                                Some(target) => Ok((SpecStmt::Assign { target, value, line }, c + 1 + cv)),
                            },
                        },
                        SpecToken::PlusAssign => g_aug_then(t, j, e, BinOp::Add, line, c),
                        SpecToken::MinusAssign => g_aug_then(t, j, e, BinOp::Sub, line, c),
                        SpecToken::StarAssign => g_aug_then(t, j, e, BinOp::Mul, line, c),
                        SpecToken::SlashAssign => g_aug_then(t, j, e, BinOp::Div, line, c),
                        _ => Ok((SpecStmt::Expr(e), c)),
                    }
                },
            },
            _ => match g_expr(t, i) {
                Err(e) => Err(e),
                Ok((e, c)) => Ok((SpecStmt::Expr(e), c)),
            },
        }
    }
}

/// An augmented assignment whose target took `c` tokens.
#[verifier::opaque]
pub open spec fn g_aug_then(t: Toks, j: int, e: SpecExpr, op: BinOp, line: usize, c: nat) -> Parsed<SpecStmt>
    decreases rem(t, j), 17int,
{
    match g_aug_assign(t, j, e, op, line) {
        Err(err) => Err(err),
        Ok((s, c2)) => Ok((s, c + c2)),
    }
}

/// Statements (each followed by optional semicolons) up to `}`.
#[verifier::opaque]
pub open spec fn g_stmts(t: Toks, j: int, acc: Seq<SpecStmt>) -> Parsed<Seq<SpecStmt>>
    decreases rem(t, j), 19int,
{
    if !in_range(t, j) {
        out_of_range()
    } else if tk(t, j) is RBrace || tk(t, j) is EOF {
        Ok((acc, 0))
    } else {
        match g_stmt(t, j) {
            Err(e) => Err(e),
            Ok((s, c)) => if c == 0 {
                out_of_range()
            } else {
                let n = g_semis(t, j + c);
                match g_stmts(t, j + c + n, acc.push(s)) {
                    Err(e) => Err(e),
                    Ok((ss, c2)) => Ok((ss, c + n + c2)),
                }
            },
        }
    }
}

/// A block body: leading semicolons, then statements.
#[verifier::opaque]
pub open spec fn g_block(t: Toks, i: int) -> Parsed<Seq<SpecStmt>>
    decreases rem(t, i), 20int,
{
    if !in_range(t, i) {
        out_of_range()
    } else {
        let n = g_semis(t, i);
        match g_stmts(t, i + n, Seq::empty()) {
            Err(e) => Err(e),
            Ok((ss, c)) => Ok((ss, n + c)),
        }
    }
}

// ─── Items ────────────────────────────────────────────────────────────────────

pub open spec fn self_name() -> Seq<char> {
    seq!['s', 'e', 'l', 'f']
}

/// One parameter: `[mut] name: Type`.
pub open spec fn g_param(t: Toks, j: int) -> Parsed<SpecParam> {
    let m: nat = if tk(t, j) is Mut { 1 } else { 0 };
    match g_ident(t, j + m) {
        Err(e) => Err(e),
        Ok((name, _)) => match g_expect(t, j + m + 1, SpecToken::Colon) {
            Err(e) => Err(e),
            Ok(_) => match g_type(t, j + m + 2) {
                Err(e) => Err(e),
                Ok((ty, ct)) => Ok((SpecParam { name, ty, mutable: m == 1 }, m + 2 + ct)),
            },
        },
    }
}

/// Parameters after an optional `self` / `mut self`.
#[verifier::opaque]
pub open spec fn g_params_rest(t: Toks, j: int, acc: Seq<SpecParam>) -> Parsed<Seq<SpecParam>>
    decreases rem(t, j),
{
    if !in_range(t, j) {
        out_of_range()
    } else if tk(t, j) is RParen || tk(t, j) is EOF {
        Ok((acc, 0))
    } else {
        match g_param(t, j) {
            Err(e) => Err(e),
            Ok((p, c)) => {
                let k = j + c;
                if tk(t, k) is Comma {
                    match g_params_rest(t, k + 1, acc.push(p)) {
                        Err(e) => Err(e),
                        Ok((ps, c2)) => Ok((ps, c + 1 + c2)),
                    }
                } else {
                    Ok((acc.push(p), c))
                }
            },
        }
    }
}

/// An optional leading `self` or `mut self` (with its comma): the parameters it
/// gives and the tokens it takes.
pub open spec fn g_params_first(t: Toks, i: int) -> (Seq<SpecParam>, nat) {
    if tk(t, i) is Self_ {
        (seq![SpecParam { name: self_name(), ty: SpecType::SelfType, mutable: false }],
            if tk(t, i + 1) is Comma { 2nat } else { 1nat })
    } else if tk(t, i) is Mut && tk(t, i + 1) is Self_ {
        (seq![SpecParam { name: self_name(), ty: SpecType::SelfType, mutable: true }],
            if tk(t, i + 2) is Comma { 3nat } else { 2nat })
    } else {
        (Seq::empty(), 0nat)
    }
}

#[verifier::opaque]
pub open spec fn g_params(t: Toks, i: int) -> Parsed<Seq<SpecParam>> {
    let (first, c) = g_params_first(t, i);
    match g_params_rest(t, i + c, first) {
        Err(e) => Err(e),
        Ok((ps, c2)) => Ok((ps, c + c2)),
    }
}

#[verifier::opaque]
pub open spec fn g_fn(t: Toks, i: int) -> Parsed<SpecFnDef> {
    let line = ln(t, i);
    match g_expect(t, i, SpecToken::Fn) {
        Err(e) => Err(e),
        Ok(_) => match g_ident(t, i + 1) {
            Err(e) => Err(e),
            Ok((name, _)) => match g_expect(t, i + 2, SpecToken::LParen) {
                Err(e) => Err(e),
                Ok(_) => match g_params(t, i + 3) {
                    Err(e) => Err(e),
                    Ok((params, cp)) => match g_expect(t, i + 3 + cp, SpecToken::RParen) {
                        Err(e) => Err(e),
                        Ok(_) => {
                            let j = i + 4 + cp;
                            let ret: Parsed<SpecType> = if tk(t, j) is Arrow {
                                match g_type(t, j + 1) {
                                    Err(e) => Err(e),
                                    Ok((ty, c)) => Ok((ty, c + 1)),
                                }
                            } else {
                                Ok((SpecType::Void, 0))
                            };
                            match ret {
                                Err(e) => Err(e),
                                Ok((ret, cr)) => match g_expect(t, j + cr, SpecToken::LBrace) {
                                    Err(e) => Err(e),
                                    Ok(_) => match g_block(t, j + cr + 1) {
                                        Err(e) => Err(e),
                                        Ok((body, cb)) => match g_expect(t, j + cr + 1 + cb, SpecToken::RBrace) {
                                            Err(e) => Err(e),
                                            Ok(_) => Ok((
                                                SpecFnDef { name, params, ret, body, line },
                                                4 + cp + cr + cb + 2,
                                            )),
                                        },
                                    },
                                },
                            }
                        },
                    },
                },
            },
        },
    }
}

/// One struct field: `name: Type`.
pub open spec fn g_field(t: Toks, k: int) -> Parsed<SpecField> {
    match g_ident(t, k) {
        Err(e) => Err(e),
        Ok((name, _)) => match g_expect(t, k + 1, SpecToken::Colon) {
            Err(e) => Err(e),
            Ok(_) => match g_type(t, k + 2) {
                Err(e) => Err(e),
                Ok((ty, ct)) => Ok((SpecField { name, ty }, 2 + ct)),
            },
        },
    }
}

/// Struct fields (separated by semicolons or commas) up to `}`.
#[verifier::opaque]
pub open spec fn g_fields(t: Toks, j: int, acc: Seq<SpecField>) -> Parsed<Seq<SpecField>>
    decreases rem(t, j),
{
    if !in_range(t, j) {
        out_of_range()
    } else if tk(t, j) is RBrace || tk(t, j) is EOF {
        Ok((acc, 0))
    } else {
        let n = g_semis(t, j);
        let k = j + n;
        if tk(t, k) is RBrace {
            Ok((acc, n))
        } else {
            match g_field(t, k) {
                Err(e) => Err(e),
                Ok((f, cf)) => {
                    let a = k + cf;
                    let n2 = g_semis(t, a);
                    let comma: nat = if tk(t, a + n2) is Comma { 1 } else { 0 };
                    if n + cf + n2 + comma == 0 {
                        out_of_range()
                    } else {
                        match g_fields(t, a + n2 + comma, acc.push(f)) {
                            Err(e) => Err(e),
                            Ok((fs, c2)) => Ok((fs, n + cf + n2 + comma + c2)),
                        }
                    }
                },
            }
        }
    }
}

#[verifier::opaque]
pub open spec fn g_struct(t: Toks, i: int) -> Parsed<SpecStructDef> {
    let line = ln(t, i);
    match g_expect(t, i, SpecToken::Struct) {
        Err(e) => Err(e),
        Ok(_) => match g_ident(t, i + 1) {
            Err(e) => Err(e),
            Ok((name, _)) => match g_expect(t, i + 2, SpecToken::LBrace) {
                Err(e) => Err(e),
                Ok(_) => match g_fields(t, i + 3, Seq::empty()) {
                    Err(e) => Err(e),
                    Ok((fields, c)) => match g_expect(t, i + 3 + c, SpecToken::RBrace) {
                        Err(e) => Err(e),
                        Ok(_) => Ok((SpecStructDef { name, fields, line }, 4 + c)),
                    },
                },
            },
        },
    }
}

/// Methods of an impl block (each followed by optional semicolons) up to `}`.
#[verifier::opaque]
pub open spec fn g_methods(t: Toks, j: int, acc: Seq<SpecFnDef>) -> Parsed<Seq<SpecFnDef>>
    decreases rem(t, j),
{
    if !in_range(t, j) {
        out_of_range()
    } else if tk(t, j) is RBrace || tk(t, j) is EOF {
        Ok((acc, 0))
    } else {
        match g_fn(t, j) {
            Err(e) => Err(e),
            Ok((f, c)) => if c == 0 {
                out_of_range()
            } else {
                let n = g_semis(t, j + c);
                match g_methods(t, j + c + n, acc.push(f)) {
                    Err(e) => Err(e),
                    Ok((fs, c2)) => Ok((fs, c + n + c2)),
                }
            },
        }
    }
}

#[verifier::opaque]
pub open spec fn g_impl(t: Toks, i: int) -> Parsed<SpecImplBlock> {
    let line = ln(t, i);
    match g_expect(t, i, SpecToken::Impl) {
        Err(e) => Err(e),
        Ok(_) => match g_ident(t, i + 1) {
            Err(e) => Err(e),
            Ok((name, _)) => match g_expect(t, i + 2, SpecToken::LBrace) {
                Err(e) => Err(e),
                Ok(_) => {
                    let n = g_semis(t, i + 3);
                    match g_methods(t, i + 3 + n, Seq::empty()) {
                        Err(e) => Err(e),
                        Ok((methods, c)) => match g_expect(t, i + 3 + n + c, SpecToken::RBrace) {
                            Err(e) => Err(e),
                            Ok(_) => Ok((SpecImplBlock { struct_name: name, methods, line }, 4 + n + c)),
                        },
                    }
                },
            },
        },
    }
}

#[verifier::opaque]
pub open spec fn g_item(t: Toks, i: int) -> Parsed<SpecItem> {
    match tk(t, i) {
        SpecToken::Fn => match g_fn(t, i) {
            Err(e) => Err(e),
            Ok((f, c)) => Ok((SpecItem::Fn(f), c)),
        },
        SpecToken::Struct => match g_struct(t, i) {
            Err(e) => Err(e),
            Ok((s, c)) => Ok((SpecItem::Struct(s), c)),
        },
        SpecToken::Impl => match g_impl(t, i) {
            Err(e) => Err(e),
            Ok((b, c)) => Ok((SpecItem::Impl(b), c)),
        },
        other => Err(err_item(other, ln(t, i))),
    }
}

/// Items (each followed by optional semicolons) up to `EOF`.
#[verifier::opaque]
pub open spec fn g_items(t: Toks, j: int, acc: Seq<SpecItem>) -> Parsed<Seq<SpecItem>>
    decreases rem(t, j),
{
    if !in_range(t, j) {
        out_of_range()
    } else if tk(t, j) is EOF {
        Ok((acc, 0))
    } else {
        match g_item(t, j) {
            Err(e) => Err(e),
            Ok((it, c)) => if c == 0 {
                out_of_range()
            } else {
                let n = g_semis(t, j + c);
                match g_items(t, j + c + n, acc.push(it)) {
                    Err(e) => Err(e),
                    Ok((its, c2)) => Ok((its, c + n + c2)),
                }
            },
        }
    }
}

/// What `Parser::parse` returns when it starts at position `i`.
#[verifier::opaque]
pub open spec fn g_program_from(t: Toks, i: int) -> Result<Seq<SpecItem>, SpecParseError> {
    let n = g_semis(t, i);
    match g_items(t, i + n, Seq::empty()) {
        Err(e) => Err(e),
        Ok((its, _)) => Ok(its),
    }
}

// ─── One step of the list routines ───────────────────────────────────────────

pub proof fn lemma_shift_shift<T>(p: Parsed<T>, a: nat, b: nat)
    ensures
        shift(shift(p, a), b) == shift(p, a + b),
{
}

/// At `}` or the end, the arm list is what was gathered.
pub proof fn lemma_arms_end(t: Toks, j: int, acc: Seq<SpecArm>)
    requires
        in_range(t, j),
        tk(t, j) is RBrace || tk(t, j) is EOF,
    ensures
        g_arms(t, j, acc) == Ok::<(Seq<SpecArm>, nat), SpecParseError>((acc, 0)),
{
    reveal(g_arms);
}

/// A failing arm makes the arm list fail the same way.
pub proof fn lemma_arms_fail(t: Toks, j: int, acc: Seq<SpecArm>, e: SpecParseError)
    requires
        in_range(t, j),
        !(tk(t, j) is RBrace || tk(t, j) is EOF),
        g_arm(t, j) == Err::<(SpecArm, nat), SpecParseError>(e),
    ensures
        g_arms(t, j, acc) == Err::<(Seq<SpecArm>, nat), SpecParseError>(e),
{
    reveal(g_arms);
    reveal(g_arm);
}

/// An arm, its optional comma and the semicolons after it: the rest of the list
/// starts at `q`.
pub proof fn lemma_arms_step(t: Toks, j: int, acc: Seq<SpecArm>, arm: SpecArm, ca: nat, q: int)
    requires
        in_range(t, j),
        !(tk(t, j) is RBrace || tk(t, j) is EOF),
        g_arm(t, j) == Ok::<(SpecArm, nat), SpecParseError>((arm, ca)),
        ({
            let k = j + ca;
            let comma: int = if tk(t, k) is Comma { 1 } else { 0 };
            q == k + comma + g_semis(t, k + comma)
        }),
        j < q,
    ensures
        g_arms(t, j, acc) == shift(g_arms(t, q, acc.push(arm)), (q - j) as nat),
{
    reveal(g_arms);
    reveal(g_arm);
}

/// At `)` or the end, the parameter list is what was gathered.
pub proof fn lemma_params_end(t: Toks, j: int, acc: Seq<SpecParam>)
    requires
        in_range(t, j),
        tk(t, j) is RParen || tk(t, j) is EOF,
    ensures
        g_params_rest(t, j, acc) == Ok::<(Seq<SpecParam>, nat), SpecParseError>((acc, 0)),
{
    reveal(g_params_rest);
}

pub proof fn lemma_params_fail(t: Toks, j: int, acc: Seq<SpecParam>, e: SpecParseError)
    requires
        in_range(t, j),
        !(tk(t, j) is RParen || tk(t, j) is EOF),
        g_param(t, j) == Err::<(SpecParam, nat), SpecParseError>(e),
    ensures
        g_params_rest(t, j, acc) == Err::<(Seq<SpecParam>, nat), SpecParseError>(e),
{
    reveal(g_params_rest);
}

/// A parameter followed by a comma: the rest of the list starts after the comma.
pub proof fn lemma_params_comma(t: Toks, j: int, acc: Seq<SpecParam>, prm: SpecParam, c: nat)
    requires
        in_range(t, j),
        !(tk(t, j) is RParen || tk(t, j) is EOF),
        g_param(t, j) == Ok::<(SpecParam, nat), SpecParseError>((prm, c)),
        tk(t, j + c) is Comma,
    ensures
        g_params_rest(t, j, acc) == shift(g_params_rest(t, j + c + 1, acc.push(prm)), c + 1),
{
    reveal(g_params_rest);
}

/// A parameter with no comma after it ends the list.
pub proof fn lemma_params_last(t: Toks, j: int, acc: Seq<SpecParam>, prm: SpecParam, c: nat)
    requires
        in_range(t, j),
        !(tk(t, j) is RParen || tk(t, j) is EOF),
        g_param(t, j) == Ok::<(SpecParam, nat), SpecParseError>((prm, c)),
        !(tk(t, j + c) is Comma),
    ensures
        g_params_rest(t, j, acc) == Ok::<(Seq<SpecParam>, nat), SpecParseError>((acc.push(prm), c)),
{
    reveal(g_params_rest);
}

pub proof fn lemma_fields_end(t: Toks, j: int, acc: Seq<SpecField>)
    requires
        in_range(t, j),
        tk(t, j) is RBrace || tk(t, j) is EOF,
    ensures
        g_fields(t, j, acc) == Ok::<(Seq<SpecField>, nat), SpecParseError>((acc, 0)),
{
    reveal(g_fields);
}

/// Semicolons and then `}`: the field list ends after the semicolons.
pub proof fn lemma_fields_semis_end(t: Toks, j: int, acc: Seq<SpecField>)
    requires
        in_range(t, j),
        !(tk(t, j) is RBrace || tk(t, j) is EOF),
        tk(t, j + g_semis(t, j)) is RBrace,
    ensures
        g_fields(t, j, acc) == Ok::<(Seq<SpecField>, nat), SpecParseError>((acc, g_semis(t, j))),
{
    reveal(g_fields);
}

pub proof fn lemma_fields_fail(t: Toks, j: int, acc: Seq<SpecField>, e: SpecParseError)
    requires
        in_range(t, j),
        !(tk(t, j) is RBrace || tk(t, j) is EOF),
        !(tk(t, j + g_semis(t, j)) is RBrace),
        g_field(t, j + g_semis(t, j)) == Err::<(SpecField, nat), SpecParseError>(e),
    ensures
        g_fields(t, j, acc) == Err::<(Seq<SpecField>, nat), SpecParseError>(e),
{
    reveal(g_fields);
}

/// Semicolons, a field, semicolons and an optional comma: the rest of the list
/// starts at `q`.
pub proof fn lemma_fields_step(t: Toks, j: int, acc: Seq<SpecField>, f: SpecField, cf: nat, q: int)
    requires
        in_range(t, j),
        !(tk(t, j) is RBrace || tk(t, j) is EOF),
        !(tk(t, j + g_semis(t, j)) is RBrace),
        g_field(t, j + g_semis(t, j)) == Ok::<(SpecField, nat), SpecParseError>((f, cf)),
        ({
            let a = j + g_semis(t, j) + cf;
            let n2 = g_semis(t, a);
            let comma: int = if tk(t, a + n2) is Comma { 1 } else { 0 };
            q == a + n2 + comma
        }),
        j < q,
    ensures
        g_fields(t, j, acc) == shift(g_fields(t, q, acc.push(f)), (q - j) as nat),
{
    reveal(g_fields);
}

/// At `)` or the end, the argument list is what was gathered.
pub proof fn lemma_args_end(t: Toks, j: int, acc: Seq<SpecExpr>)
    requires
        in_range(t, j),
        tk(t, j) is RParen || tk(t, j) is EOF,
    ensures
        g_args(t, j, acc) == Ok::<(Seq<SpecExpr>, nat), SpecParseError>((acc, 0)),
{
    reveal(g_args);
}

pub proof fn lemma_args_fail(t: Toks, j: int, acc: Seq<SpecExpr>, e: SpecParseError)
    requires
        in_range(t, j),
        !(tk(t, j) is RParen || tk(t, j) is EOF),
        g_expr(t, j) == Err::<(SpecExpr, nat), SpecParseError>(e),
    ensures
        g_args(t, j, acc) == Err::<(Seq<SpecExpr>, nat), SpecParseError>(e),
{
    reveal(g_args);
    reveal(g_expr);
}

pub proof fn lemma_args_comma(t: Toks, j: int, acc: Seq<SpecExpr>, x: SpecExpr, c: nat)
    requires
        in_range(t, j),
        !(tk(t, j) is RParen || tk(t, j) is EOF),
        g_expr(t, j) == Ok::<(SpecExpr, nat), SpecParseError>((x, c)),
        tk(t, j + c) is Comma,
    ensures
        g_args(t, j, acc) == shift(g_args(t, j + c + 1, acc.push(x)), c + 1),
{
    reveal(g_args);
    reveal(g_expr);
}

pub proof fn lemma_args_last(t: Toks, j: int, acc: Seq<SpecExpr>, x: SpecExpr, c: nat)
    requires
        in_range(t, j),
        !(tk(t, j) is RParen || tk(t, j) is EOF),
        g_expr(t, j) == Ok::<(SpecExpr, nat), SpecParseError>((x, c)),
        !(tk(t, j + c) is Comma),
    ensures
        g_args(t, j, acc) == Ok::<(Seq<SpecExpr>, nat), SpecParseError>((acc.push(x), c)),
{
    reveal(g_args);
    reveal(g_expr);
}

pub proof fn lemma_inits_end(t: Toks, j: int, acc: Seq<(Seq<char>, SpecExpr)>)
    requires
        in_range(t, j),
        tk(t, j) is RBrace || tk(t, j) is EOF,
    ensures
        g_field_inits(t, j, acc) == Ok::<(Seq<(Seq<char>, SpecExpr)>, nat), SpecParseError>((acc, 0)),
{
    reveal(g_field_inits);
}

pub proof fn lemma_inits_fail(t: Toks, j: int, acc: Seq<(Seq<char>, SpecExpr)>, e: SpecParseError)
    requires
        in_range(t, j),
        !(tk(t, j) is RBrace || tk(t, j) is EOF),
        field_init_at(t, j) == Err::<((Seq<char>, SpecExpr), nat), SpecParseError>(e),
    ensures
        g_field_inits(t, j, acc) == Err::<(Seq<(Seq<char>, SpecExpr)>, nat), SpecParseError>(e),
{
    reveal(g_field_inits);
    reveal(g_expr);
}

pub proof fn lemma_inits_comma(t: Toks, j: int, acc: Seq<(Seq<char>, SpecExpr)>, x: (Seq<char>, SpecExpr), c: nat)
    requires
        in_range(t, j),
        !(tk(t, j) is RBrace || tk(t, j) is EOF),
        field_init_at(t, j) == Ok::<((Seq<char>, SpecExpr), nat), SpecParseError>((x, c)),
        tk(t, j + c) is Comma,
    ensures
        g_field_inits(t, j, acc) == shift(g_field_inits(t, j + c + 1, acc.push(x)), c + 1),
{
    reveal(g_field_inits);
    reveal(g_expr);
}

pub proof fn lemma_inits_last(t: Toks, j: int, acc: Seq<(Seq<char>, SpecExpr)>, x: (Seq<char>, SpecExpr), c: nat)
    requires
        in_range(t, j),
        !(tk(t, j) is RBrace || tk(t, j) is EOF),
        field_init_at(t, j) == Ok::<((Seq<char>, SpecExpr), nat), SpecParseError>((x, c)),
        !(tk(t, j + c) is Comma),
    ensures
        g_field_inits(t, j, acc) == Ok::<(Seq<(Seq<char>, SpecExpr)>, nat), SpecParseError>((acc.push(x), c)),
{
    reveal(g_field_inits);
    reveal(g_expr);
}

/// One unfolding of `g_postfix_rest`.
pub proof fn lemma_postfix_rest_unfold(t: Toks, j: int, e: SpecExpr, line: usize)
    ensures
        g_postfix_rest(t, j, e, line) == {
            if !in_range(t, j) {
                out_of_range()
            } else {
                match tk(t, j) {
                    SpecToken::Dot => match g_ident(t, j + 1) {
                        Err(err) => Err(err),
                        Ok((field, _)) => if tk(t, j + 2) is LParen {
                            match g_args(t, j + 3, Seq::empty()) {
                                Err(err) => Err(err),
                                Ok((args, ca)) => match g_expect(t, j + 3 + ca, SpecToken::RParen) {
                                    Err(err) => Err(err),
                                    Ok(_) => match g_postfix_rest(
                                        t,
                                        j + 4 + ca,
                                        SpecExpr::MethodCall { obj: Box::new(e), method: field, args, line },
                                        line,
                                    ) {
                                        Err(err) => Err(err),
                                        Ok((r, c)) => Ok((r, 4 + ca + c)),
                                    },
                                },
                            }
                        } else {
                            match g_postfix_rest(t, j + 2, SpecExpr::FieldAccess { obj: Box::new(e), field, line }, line) {
                                Err(err) => Err(err),
                                Ok((r, c)) => Ok((r, 2 + c)),
                            }
                        },
                    },
                    SpecToken::LBracket => match g_expr(t, j + 1) {
                        Err(err) => Err(err),
                        Ok((index, ci)) => match g_expect(t, j + 1 + ci, SpecToken::RBracket) {
                            Err(err) => Err(err),
                            Ok(_) => match g_postfix_rest(
                                t,
                                j + 2 + ci,
                                SpecExpr::Index { obj: Box::new(e), index: Box::new(index), line },
                                line,
                            ) {
                                Err(err) => Err(err),
                                Ok((r, c)) => Ok((r, 2 + ci + c)),
                            },
                        },
                    },
                    SpecToken::As => match g_type(t, j + 1) {
                        Err(err) => Err(err),
                        Ok((ty, ct)) => match g_postfix_rest(t, j + 1 + ct, SpecExpr::Cast { expr: Box::new(e), ty, line }, line) {
                            Err(err) => Err(err),
                            Ok((r, c)) => Ok((r, 1 + ct + c)),
                        },
                    },
                    _ => Ok((e, 0)),
                }
            }
        },
{
    reveal(g_postfix_rest);
    reveal(g_expr);
    reveal(g_args);
}

/// One unfolding of `g_primary`.
pub proof fn lemma_primary_unfold(t: Toks, i: int)
    ensures
        g_primary(t, i) == {
            if !in_range(t, i) {
                out_of_range()
            } else {
                let line = ln(t, i);
                match tk(t, i) {
                    SpecToken::Int(n) => if tk(t, i + 1) is DotDot {
                        match g_range_from(t, i + 1, SpecExpr::Int(n, line), line, false) {
                            Err(e) => Err(e),
                            Ok((r, c)) => Ok((r, 1 + c)),
                        }
                    } else if tk(t, i + 1) is DotDotEq {
                        match g_range_from(t, i + 1, SpecExpr::Int(n, line), line, true) {
                            Err(e) => Err(e),
                            Ok((r, c)) => Ok((r, 1 + c)),
                        }
                    } else {
                        Ok((SpecExpr::Int(n, line), 1))
                    },
                    SpecToken::Float(f) => Ok((SpecExpr::Float(f, line), 1)),
                    SpecToken::Bool(b) => Ok((SpecExpr::Bool(b, line), 1)),
                    SpecToken::StringLit(s) => Ok((SpecExpr::Str(s, line), 1)),
                    SpecToken::None_ => Ok((SpecExpr::NoneLit(line), 1)),
                    SpecToken::Self_ => Ok((SpecExpr::Ident("self"@, line), 1)),
                    SpecToken::LParen => if tk(t, i + 1) is RParen {
                        Ok((SpecExpr::Tuple(Seq::empty(), line), 2))
                    } else {
                        match g_expr(t, i + 1) {
                            Err(e) => Err(e),
                            Ok((first, c1)) => if tk(t, i + 1 + c1) is Comma {
                                match g_tuple_rest(t, i + 1 + c1, seq![first]) {
                                    Err(e) => Err(e),
                                    Ok((elems, c2)) => match g_expect(t, i + 1 + c1 + c2, SpecToken::RParen) {
                                        Err(e) => Err(e),
                                        Ok(_) => Ok((SpecExpr::Tuple(elems, line), c1 + c2 + 2)),
                                    },
                                }
                            } else {
                                match g_expect(t, i + 1 + c1, SpecToken::RParen) {
                                    Err(e) => Err(e),
                                    Ok(_) => Ok((first, c1 + 2)),
                                }
                            },
                        }
                    },
                    SpecToken::LBracket => match g_elems(t, i + 1, Seq::empty()) {
                        Err(e) => Err(e),
                        Ok((elems, c)) => match g_expect(t, i + 1 + c, SpecToken::RBracket) {
                            Err(e) => Err(e),
                            Ok(_) => Ok((SpecExpr::Array(elems, line), c + 2)),
                        },
                    },
                    SpecToken::If => g_if(t, i),
                    SpecToken::Match => g_match(t, i),
                    SpecToken::Ident(name) => if tk(t, i + 1) is LParen {
                        match g_args(t, i + 2, Seq::empty()) {
                            Err(e) => Err(e),
                            Ok((args, c)) => match g_expect(t, i + 2 + c, SpecToken::RParen) {
                                Err(e) => Err(e),
                                Ok(_) => Ok((SpecExpr::Call { name, args, line }, c + 3)),
                            },
                        }
                    } else if tk(t, i + 1) is LBrace && g_is_struct_literal(t, i + 1) {
                        match g_field_inits(t, i + 2, Seq::empty()) {
                            Err(e) => Err(e),
                            Ok((fields, c)) => match g_expect(t, i + 2 + c, SpecToken::RBrace) {
                                Err(e) => Err(e),
                                Ok(_) => Ok((SpecExpr::StructLit { name, fields, line }, c + 3)),
                            },
                        }
                    } else if tk(t, i + 1) is DotDot {
                        match g_range_from(t, i + 1, SpecExpr::Ident(name, line), line, false) {
                            Err(e) => Err(e),
                            Ok((r, c)) => Ok((r, 1 + c)),
                        }
                    } else if tk(t, i + 1) is DotDotEq {
                        match g_range_from(t, i + 1, SpecExpr::Ident(name, line), line, true) {
                            Err(e) => Err(e),
                            Ok((r, c)) => Ok((r, 1 + c)),
                        }
                    } else {
                        Ok((SpecExpr::Ident(name, line), 1))
                    },
                    other => Err(err_unexpected(other, line)),
                }
            }
        },
{
    reveal(g_primary);
    reveal(g_expr);
    reveal(g_if);
    reveal(g_match);
    reveal(g_args);
    reveal(g_field_inits);
    reveal(g_range_from);
    reveal(g_tuple_rest);
    reveal(g_elems);
}

/// One unfolding of `g_tuple_rest`.
pub proof fn lemma_tuple_rest_unfold(t: Toks, j: int, acc: Seq<SpecExpr>)
    ensures
        g_tuple_rest(t, j, acc) == {
            if !in_range(t, j) {
                out_of_range()
            } else if tk(t, j) is Comma {
                if tk(t, j + 1) is RParen {
                    Ok((acc, 1))
                } else {
                    match g_expr(t, j + 1) {
                        Err(e) => Err(e),
                        Ok((e, c)) => match g_tuple_rest(t, j + 1 + c, acc.push(e)) {
                            Err(e2) => Err(e2),
                            Ok((es, c2)) => Ok((es, 1 + c + c2)),
                        },
                    }
                }
            } else {
                Ok((acc, 0))
            }
        },
{
    reveal(g_tuple_rest);
    reveal(g_expr);
}

/// One unfolding of `g_elems`.
pub proof fn lemma_elems_unfold(t: Toks, j: int, acc: Seq<SpecExpr>)
    ensures
        g_elems(t, j, acc) == {
            if !in_range(t, j) {
                out_of_range()
            } else if tk(t, j) is RBracket || tk(t, j) is EOF {
                Ok((acc, 0))
            } else {
                match g_expr(t, j) {
                    Err(e) => Err(e),
                    Ok((e, c)) => if tk(t, j + c) is Comma {
                        match g_elems(t, j + c + 1, acc.push(e)) {
                            Err(e2) => Err(e2),
                            Ok((es, c2)) => Ok((es, c + 1 + c2)),
                        }
                    } else {
                        Ok((acc.push(e), c))
                    },
                }
            }
        },
{
    reveal(g_elems);
    reveal(g_expr);
}

/// One unfolding of `g_if`.
pub proof fn lemma_if_unfold(t: Toks, i: int)
    ensures
        g_if(t, i) == {
            if !in_range(t, i) {
                out_of_range()
            } else {
                let line = ln(t, i);
                match g_expect(t, i, SpecToken::If) {
                    Err(e) => Err(e),
                    Ok(_) => match g_expr(t, i + 1) {
                        Err(e) => Err(e),
                        Ok((cond, c1)) => match g_expect(t, i + 1 + c1, SpecToken::LBrace) {
                            Err(e) => Err(e),
                            Ok(_) => match g_block(t, i + 2 + c1) {
                                Err(e) => Err(e),
                                Ok((then, c2)) => match g_expect(t, i + 2 + c1 + c2, SpecToken::RBrace) {
                                    Err(e) => Err(e),
                                    Ok(_) => {
                                        let j = i + 3 + c1 + c2;
                                        let base: nat = 3 + c1 + c2;
                                        if tk(t, j) is Else {
                                            if tk(t, j + 1) is If {
                                                match g_if(t, j + 1) {
                                                    Err(e) => Err(e),
                                                    Ok((e2, c3)) => Ok((
                                                        SpecExpr::If {
                                                            cond: Box::new(cond),
                                                            then,
                                                            else_: Some(seq![SpecStmt::Expr(e2)]),
                                                            line,
                                                        },
                                                        base + 1 + c3,
                                                    )),
                                                }
                                            } else {
                                                match g_expect(t, j + 1, SpecToken::LBrace) {
                                                    Err(e) => Err(e),
                                                    Ok(_) => match g_block(t, j + 2) {
                                                        Err(e) => Err(e),
                                                        Ok((els, c3)) => match g_expect(t, j + 2 + c3, SpecToken::RBrace) {
                                                            Err(e) => Err(e),
                                                            Ok(_) => Ok((
                                                                SpecExpr::If {
                                                                    cond: Box::new(cond),
                                                                    then,
                                                                    else_: Some(els),
                                                                    line,
                                                                },
                                                                base + 3 + c3,
                                                            )),
                                                        },
                                                    },
                                                }
                                            }
                                        } else {
                                            Ok((SpecExpr::If { cond: Box::new(cond), then, else_: None, line }, base))
                                        }
                                    },
                                },
                            },
                        },
                    },
                }
            }
        },
{
    reveal(g_if);
    reveal(g_block);
    reveal(g_expr);
}

/// One unfolding of `g_let`.
pub proof fn lemma_let_unfold(t: Toks, i: int)
    ensures
        g_let(t, i) == {
            if !in_range(t, i) {
                out_of_range()
            } else {
                let line = ln(t, i);
                match g_expect(t, i, SpecToken::Let) {
                    Err(e) => Err(e),
                    Ok(_) => {
                        let m: nat = if tk(t, i + 1) is Mut { 1 } else { 0 };
                        match g_ident(t, i + 1 + m) {
                            Err(e) => Err(e),
                            Ok((name, _)) => {
                                let j = i + 2 + m;
                                let ty: Parsed<Option<SpecType>> = if tk(t, j) is Colon {
                                    match g_type(t, j + 1) {
                                        Err(e) => Err(e),
                                        Ok((ty, c)) => Ok((Some(ty), c + 1)),
                                    }
                                } else {
                                    Ok((None, 0))
                                };
                                match ty {
                                    Err(e) => Err(e),
                                    Ok((ty, ct)) => match g_expect(t, j + ct, SpecToken::Assign) {
                                        Err(e) => Err(e),
                                        Ok(_) => match g_expr(t, j + ct + 1) {
                                            Err(e) => Err(e),
                                            Ok((value, cv)) => Ok((
                                                SpecStmt::Let { name, ty, value, mutable: m == 1, line },
                                                2 + m + ct + 1 + cv,
                                            )),
                                        },
                                    },
                                }
                            },
                        }
                    },
                }
            }
        },
{
    reveal(g_let);
    reveal(g_expr);
    reveal(g_type);
}

/// One unfolding of `g_return`.
pub proof fn lemma_return_unfold(t: Toks, i: int)
    ensures
        g_return(t, i) == {
            if !in_range(t, i) {
                out_of_range()
            } else {
                let line = ln(t, i);
                match g_expect(t, i, SpecToken::Return) {
                    Err(e) => Err(e),
                    Ok(_) => if tk(t, i + 1) is RBrace || tk(t, i + 1) is Semicolon || tk(t, i + 1) is EOF {
                        Ok((SpecStmt::Return { value: None, line }, 1))
                    } else {
                        match g_expr(t, i + 1) {
                            Err(e) => Err(e),
                            Ok((v, c)) => Ok((SpecStmt::Return { value: Some(v), line }, 1 + c)),
                        }
                    },
                }
            }
        },
{
    reveal(g_return);
    reveal(g_expr);
}

/// One unfolding of `g_unary`.
pub proof fn lemma_unary_unfold(t: Toks, i: int)
    ensures
        g_unary(t, i) == {
            if !in_range(t, i) {
                out_of_range()
            } else {
                let line = ln(t, i);
                if tk(t, i) is Bang {
                    match g_unary(t, i + 1) {
                        Err(e) => Err(e),
                        Ok((o, c)) => Ok((SpecExpr::UnaryOp { op: UnaryOp::Not, operand: Box::new(o), line }, 1 + c)),
                    }
                } else if tk(t, i) is Minus {
                    match g_unary(t, i + 1) {
                        Err(e) => Err(e),
                        Ok((o, c)) => Ok((SpecExpr::UnaryOp { op: UnaryOp::Neg, operand: Box::new(o), line }, 1 + c)),
                    }
                } else {
                    g_postfix(t, i)
                }
            }
        },
{
    reveal(g_unary);
    reveal(g_postfix);
}

/// One unfolding of `g_range_from`.
pub proof fn lemma_range_from_unfold(t: Toks, j: int, start: SpecExpr, line: usize, inclusive: bool)
    ensures
        g_range_from(t, j, start, line, inclusive) == {
            if !in_range(t, j) {
                out_of_range()
            } else {
                match g_expr(t, j + 1) {
                    Err(e) => Err(e),
                    Ok((end, c)) => Ok((SpecExpr::Range { start: Box::new(start), end: Box::new(end), inclusive, line }, 1 + c)),
                }
            }
        },
{
    reveal(g_range_from);
    reveal(g_expr);
}

/// One unfolding of `g_struct`.
pub proof fn lemma_struct_unfold(t: Toks, i: int)
    ensures
        g_struct(t, i) == {
            let line = ln(t, i);
            match g_expect(t, i, SpecToken::Struct) {
                Err(e) => Err(e),
                Ok(_) => match g_ident(t, i + 1) {
                    Err(e) => Err(e),
                    Ok((name, _)) => match g_expect(t, i + 2, SpecToken::LBrace) {
                        Err(e) => Err(e),
                        Ok(_) => match g_fields(t, i + 3, Seq::empty()) {
                            Err(e) => Err(e),
                            Ok((fields, c)) => match g_expect(t, i + 3 + c, SpecToken::RBrace) {
                                Err(e) => Err(e),
                                Ok(_) => Ok((SpecStructDef { name, fields, line }, 4 + c)),
                            },
                        },
                    },
                },
            }
        },
{
    reveal(g_struct);
    reveal(g_fields);
}

/// One unfolding of `g_while`.
pub proof fn lemma_while_unfold(t: Toks, i: int)
    ensures
        g_while(t, i) == {
            if !in_range(t, i) {
                out_of_range()
            } else {
                let line = ln(t, i);
                match g_expect(t, i, SpecToken::While) {
                    Err(e) => Err(e),
                    Ok(_) => match g_expr(t, i + 1) {
                        Err(e) => Err(e),
                        Ok((cond, c1)) => match g_expect(t, i + 1 + c1, SpecToken::LBrace) {
                            Err(e) => Err(e),
                            Ok(_) => match g_block(t, i + 2 + c1) {
                                Err(e) => Err(e),
                                Ok((body, c2)) => match g_expect(t, i + 2 + c1 + c2, SpecToken::RBrace) {
                                    Err(e) => Err(e),
                                    Ok(_) => Ok((SpecStmt::While { cond, body, line }, 3 + c1 + c2)),
                                },
                            },
                        },
                    },
                }
            }
        },
{
    reveal(g_while);
    reveal(g_block);
    reveal(g_expr);
}

/// One unfolding of `g_for`.
pub proof fn lemma_for_unfold(t: Toks, i: int)
    ensures
        g_for(t, i) == {
            if !in_range(t, i) {
                out_of_range()
            } else {
                let line = ln(t, i);
                match g_expect(t, i, SpecToken::For) {
                    Err(e) => Err(e),
                    Ok(_) => match g_ident(t, i + 1) {
                        Err(e) => Err(e),
                        Ok((name, _)) => match g_expect(t, i + 2, SpecToken::In) {
                            Err(e) => Err(e),
                            Ok(_) => match g_expr(t, i + 3) {
                                Err(e) => Err(e),
                                Ok((iter, c1)) => match g_expect(t, i + 3 + c1, SpecToken::LBrace) {
                                    Err(e) => Err(e),
                                    Ok(_) => match g_block(t, i + 4 + c1) {
                                        Err(e) => Err(e),
                                        Ok((body, c2)) => match g_expect(t, i + 4 + c1 + c2, SpecToken::RBrace) {
                                            Err(e) => Err(e),
                                            Ok(_) => Ok((SpecStmt::For { var: name, iter, body, line }, 5 + c1 + c2)),
                                        },
                                    },
                                },
                            },
                        },
                    },
                }
            }
        },
{
    reveal(g_for);
    reveal(g_block);
    reveal(g_expr);
}

/// One unfolding of `g_aug_assign`.
pub proof fn lemma_aug_assign_unfold(t: Toks, j: int, target: SpecExpr, op: BinOp, line: usize)
    ensures
        g_aug_assign(t, j, target, op, line) == {
            if !in_range(t, j) {
                out_of_range()
            } else {
                match g_expr(t, j + 1) {
                    Err(e) => Err(e),
                    Ok((rhs, c)) => match g_to_target(target) {
                        None => Err(err_target(line)),
                        Some(tg) => Ok((
                            SpecStmt::Assign {
                                target: tg,
                                value: SpecExpr::BinOp { op, left: Box::new(target), right: Box::new(rhs), line },
                                line,
                            },
                            1 + c,
                        )),
                    },
                }
            }
        },
{
    reveal(g_aug_assign);
    reveal(g_expr);
}

/// One unfolding of `g_expr`.
pub proof fn lemma_expr_unfold(t: Toks, i: int)
    ensures
        g_expr(t, i) == {
            if !in_range(t, i) {
                out_of_range()
            } else {
                g_binary(t, i, 6)
            }
        },
{
    reveal(g_expr);
    reveal(g_binary);
}

/// One unfolding of `g_operand`.
pub proof fn lemma_operand_unfold(t: Toks, i: int, k: int)
    ensures
        g_operand(t, i, k) == {
            if !in_range(t, i) || k < 1 {
                out_of_range()
            } else if k == 1 {
                g_unary(t, i)
            } else {
                g_binary(t, i, k - 1)
            }
        },
{
    reveal(g_operand);
    reveal(g_binary);
    reveal(g_unary);
}

/// One unfolding of `g_match`.
pub proof fn lemma_match_unfold(t: Toks, i: int)
    ensures
        g_match(t, i) == {
            if !in_range(t, i) {
                out_of_range()
            } else {
                let line = ln(t, i);
                match g_expect(t, i, SpecToken::Match) {
                    Err(e) => Err(e),
                    Ok(_) => match g_expr(t, i + 1) {
                        Err(e) => Err(e),
                        Ok((subject, c1)) => match g_expect(t, i + 1 + c1, SpecToken::LBrace) {
                            Err(e) => Err(e),
                            Ok(_) => {
                                let s = g_semis(t, i + 2 + c1);
                                match g_arms(t, i + 2 + c1 + s, Seq::empty()) {
                                    Err(e) => Err(e),
                                    Ok((arms, c2)) => match g_expect(t, i + 2 + c1 + s + c2, SpecToken::RBrace) {
                                        Err(e) => Err(e),
                                        Ok(_) => Ok((
                                            SpecExpr::Match { subject: Box::new(subject), arms, line },
                                            3 + c1 + s + c2,
                                        )),
                                    },
                                }
                            },
                        },
                    },
                }
            }
        },
{
    reveal(g_match);
    reveal(g_arms);
    reveal(g_expr);
}

/// One unfolding of `g_arm`.
pub proof fn lemma_arm_unfold(t: Toks, j: int)
    ensures
        g_arm(t, j) == {
            if !in_range(t, j) {
                out_of_range()
            } else {
                match g_pattern(t, j) {
                    Err(e) => Err(e),
                    Ok((pattern, cp)) => match g_expect(t, j + cp, SpecToken::FatArrow) {
                        Err(e) => Err(e),
                        Ok(_) => {
                            let b = j + cp + 1;
                            if tk(t, b) is LBrace {
                                match g_block(t, b + 1) {
                                    Err(e) => Err(e),
                                    Ok((stmts, cb)) => match g_expect(t, b + 1 + cb, SpecToken::RBrace) {
                                        Err(e) => Err(e),
                                        Ok(_) => Ok((SpecArm { pattern, body: stmts }, cp + 1 + cb + 2)),
                                    },
                                }
                            } else {
                                match g_expr(t, b) {
                                    Err(e) => Err(e),
                                    Ok((e, ce)) => Ok((SpecArm { pattern, body: seq![SpecStmt::Expr(e)] }, cp + 1 + ce)),
                                }
                            }
                        },
                    },
                }
            }
        },
{
    reveal(g_arm);
    reveal(g_block);
    reveal(g_expr);
    reveal(g_pattern);
}

/// One unfolding of `g_stmt`.
pub proof fn lemma_stmt_unfold(t: Toks, i: int)
    ensures
        g_stmt(t, i) == {
            if !in_range(t, i) {
                out_of_range()
            } else {
                let line = ln(t, i);
                match tk(t, i) {
                    SpecToken::Let => g_let(t, i),
                    SpecToken::Return => g_return(t, i),
                    SpecToken::If => match g_if(t, i) {
                        Err(e) => Err(e),
                        Ok((e, c)) => Ok((SpecStmt::Expr(e), c)),
                    },
                    SpecToken::While => g_while(t, i),
                    SpecToken::For => g_for(t, i),
                    SpecToken::Break => Ok((SpecStmt::Break { line }, 1)),
                    SpecToken::Continue => Ok((SpecStmt::Continue { line }, 1)),
                    SpecToken::Ident(_) => match g_expr(t, i) {
                        Err(e) => Err(e),
                        Ok((e, c)) => {
                            let j = i + c;
                            match tk(t, j) {
                                SpecToken::Assign => match g_expr(t, j + 1) {
                                    Err(err) => Err(err),
                                    Ok((value, cv)) => match g_to_target(e) {
                                        None => Err(err_target(line)),
                                        Some(target) => Ok((SpecStmt::Assign { target, value, line }, c + 1 + cv)),
                                    },
                                },
                                SpecToken::PlusAssign => g_aug_then(t, j, e, BinOp::Add, line, c),
                                SpecToken::MinusAssign => g_aug_then(t, j, e, BinOp::Sub, line, c),
                                SpecToken::StarAssign => g_aug_then(t, j, e, BinOp::Mul, line, c),
                                SpecToken::SlashAssign => g_aug_then(t, j, e, BinOp::Div, line, c),
                                _ => Ok((SpecStmt::Expr(e), c)),
                            }
                        },
                    },
                    _ => match g_expr(t, i) {
                        Err(e) => Err(e),
                        Ok((e, c)) => Ok((SpecStmt::Expr(e), c)),
                    },
                }
            }
        },
{
    reveal(g_stmt);
    reveal(g_aug_then);
    reveal(g_expr);
    reveal(g_for);
    reveal(g_if);
    reveal(g_let);
    reveal(g_return);
    reveal(g_while);
}

/// One unfolding of `g_item`.
pub proof fn lemma_item_unfold(t: Toks, i: int)
    ensures
        g_item(t, i) == {
            match tk(t, i) {
                SpecToken::Fn => match g_fn(t, i) {
                    Err(e) => Err(e),
                    Ok((f, c)) => Ok((SpecItem::Fn(f), c)),
                },
                SpecToken::Struct => match g_struct(t, i) {
                    Err(e) => Err(e),
                    Ok((s, c)) => Ok((SpecItem::Struct(s), c)),
                },
                SpecToken::Impl => match g_impl(t, i) {
                    Err(e) => Err(e),
                    Ok((b, c)) => Ok((SpecItem::Impl(b), c)),
                },
                other => Err(err_item(other, ln(t, i))),
            }
        },
{
    reveal(g_item);
    reveal(g_fn);
    reveal(g_impl);
    reveal(g_struct);
}

/// One unfolding of `g_fn`.
pub proof fn lemma_fn_unfold(t: Toks, i: int)
    ensures
        g_fn(t, i) == {
            let line = ln(t, i);
            match g_expect(t, i, SpecToken::Fn) {
                Err(e) => Err(e),
                Ok(_) => match g_ident(t, i + 1) {
                    Err(e) => Err(e),
                    Ok((name, _)) => match g_expect(t, i + 2, SpecToken::LParen) {
                        Err(e) => Err(e),
                        Ok(_) => match g_params(t, i + 3) {
                            Err(e) => Err(e),
                            Ok((params, cp)) => match g_expect(t, i + 3 + cp, SpecToken::RParen) {
                                Err(e) => Err(e),
                                Ok(_) => {
                                    let j = i + 4 + cp;
                                    let ret: Parsed<SpecType> = if tk(t, j) is Arrow {
                                        match g_type(t, j + 1) {
                                            Err(e) => Err(e),
                                            Ok((ty, c)) => Ok((ty, c + 1)),
                                        }
                                    } else {
                                        Ok((SpecType::Void, 0))
                                    };
                                    match ret {
                                        Err(e) => Err(e),
                                        Ok((ret, cr)) => match g_expect(t, j + cr, SpecToken::LBrace) {
                                            Err(e) => Err(e),
                                            Ok(_) => match g_block(t, j + cr + 1) {
                                                Err(e) => Err(e),
                                                Ok((body, cb)) => match g_expect(t, j + cr + 1 + cb, SpecToken::RBrace) {
                                                    Err(e) => Err(e),
                                                    Ok(_) => Ok((
                                                        SpecFnDef { name, params, ret, body, line },
                                                        4 + cp + cr + cb + 2,
                                                    )),
                                                },
                                            },
                                        },
                                    }
                                },
                            },
                        },
                    },
                },
            }
        },
{
    reveal(g_fn);
    reveal(g_block);
    reveal(g_params);
    reveal(g_type);
}

// ─── Laws on binary operators ────────────────────────────────────────────────

/// Whether a token can continue an expression after a name (a call, a struct
/// literal, a range, a field access, an index or a cast).
pub open spec fn continues_name(tok: SpecToken) -> bool {
    tok is LParen || tok is LBrace || tok is DotDot || tok is DotDotEq || tok is Dot || tok is LBracket || tok is As
}

proof fn lemma_name_operand(t: Toks, i: int, k: int)
    requires
        0 <= i,
        in_range(t, i + 1),
        tk(t, i) is Ident,
        !continues_name(tk(t, i + 1)),
        1 <= k <= 6,
        forall|k2: int| 1 <= k2 <= k ==> (#[trigger] bin_op_at(tk(t, i + 1), k2)) is None,
    ensures
        g_operand(t, i, k) == Ok::<(SpecExpr, nat), SpecParseError>((SpecExpr::Ident(tk(t, i)->Ident_0, ln(t, i)), 1nat)),
        g_binary(t, i, k) == Ok::<(SpecExpr, nat), SpecParseError>((SpecExpr::Ident(tk(t, i)->Ident_0, ln(t, i)), 1nat)),
    decreases k,
{
    let e = SpecExpr::Ident(tk(t, i)->Ident_0, ln(t, i));
    lemma_operand_unfold(t, i, k);
    if k == 1 {
        lemma_name_unary(t, i);
    } else {
        lemma_name_operand(t, i, k - 1);
    }
    assert(g_operand(t, i, k) == Ok::<(SpecExpr, nat), SpecParseError>((e, 1nat)));
    assert(bin_op_at(tk(t, i + 1), k) is None);
    assert(g_binary_rest(t, i + 1, e, ln(t, i), k) == Ok::<(SpecExpr, nat), SpecParseError>((e, 0nat))) by {
        reveal(g_binary_rest);
    }
    reveal(g_binary);
    reveal(g_operand);
    reveal(g_unary);
    reveal(g_binary_rest);
    assert(in_range(t, i));
    assert(g_binary(t, i, k) == match g_operand(t, i, k) {
            Err(x) => Err(x),
            Ok((left, c)) => match g_binary_rest(t, i + c, left, ln(t, i), k) {
                Err(x) => Err(x),
                Ok((r, c2)) => Ok((r, c + c2)),
            },
        });
}

proof fn lemma_name_unary(t: Toks, i: int)
    requires
        0 <= i,
        in_range(t, i + 1),
        tk(t, i) is Ident,
        !continues_name(tk(t, i + 1)),
    ensures
        g_unary(t, i) == Ok::<(SpecExpr, nat), SpecParseError>((SpecExpr::Ident(tk(t, i)->Ident_0, ln(t, i)), 1nat)),
{
    let e = SpecExpr::Ident(tk(t, i)->Ident_0, ln(t, i));
    lemma_unary_unfold(t, i);
    lemma_primary_unfold(t, i);
    lemma_postfix_rest_unfold(t, i + 1, e, ln(t, i));
    reveal(g_postfix);
}

proof fn lemma_binop_expr(t: Toks, k: int, tok: SpecToken, level: int, op: BinOp)
    requires
        t.len() == 4,
        t[0].0 is Ident,
        t[1].0 == tok,
        t[2].0 is Ident,
        t[3].0 is EOF,
        !continues_name(tok),
        bin_op_at(tok, level) == Some(op),
        forall|k2: int| 1 <= k2 <= 6 && k2 != level ==> (#[trigger] bin_op_at(tok, k2)) is None,
        1 <= level <= k <= 6,
    ensures
        g_binary(t, 0, k) == Ok::<(SpecExpr, nat), SpecParseError>((SpecExpr::BinOp {
            op,
            left: Box::new(SpecExpr::Ident(t[0].0->Ident_0, t[0].1)),
            right: Box::new(SpecExpr::Ident(t[2].0->Ident_0, t[2].1)),
            line: t[0].1,
        }, 3nat)),
    decreases k,
{
    let a = SpecExpr::Ident(t[0].0->Ident_0, t[0].1);
    let b = SpecExpr::Ident(t[2].0->Ident_0, t[2].1);
    let e = SpecExpr::BinOp { op, left: Box::new(a), right: Box::new(b), line: t[0].1 };
    reveal(g_binary);
    reveal(g_operand);
    reveal(g_unary);
    reveal(g_binary_rest);
    lemma_operand_unfold(t, 0, k);
    if k == level {
        if k > 1 {
            lemma_name_operand(t, 0, k - 1);
        } else {
            lemma_name_unary(t, 0);
        }
        assert(g_operand(t, 0, k) == Ok::<(SpecExpr, nat), SpecParseError>((a, 1nat)));
        lemma_name_operand(t, 2, k);
        assert(g_binary_rest(t, 3, e, t[0].1, k) == Ok::<(SpecExpr, nat), SpecParseError>((e, 0nat)));
        assert(g_binary_rest(t, 1, a, t[0].1, k) == Ok::<(SpecExpr, nat), SpecParseError>((e, 2nat)));
    } else {
        lemma_binop_expr(t, k - 1, tok, level, op);
        assert(g_binary_rest(t, 3, e, t[0].1, k) == Ok::<(SpecExpr, nat), SpecParseError>((e, 0nat)));
    }
    assert(g_binary(t, 0, k) == match g_operand(t, 0, k) {
            Err(x) => Err(x),
            Ok((left, c)) => match g_binary_rest(t, 0int + c, left, ln(t, 0), k) {
                Err(x) => Err(x),
                Ok((r, c2)) => Ok((r, c + c2)),
            },
        });
}

/// `a OP b` parses as the binary operation its operator token names: `*` is
/// multiplication, `/` division, `%` remainder, `+` addition, `-`
/// subtraction, `<` `>` `<=` `>=` `==` `!=` the comparison of the same name,
/// `&&` and `||` conjunction and disjunction; the left operand is `a`, the
/// right `b`, and the three tokens are consumed.
pub proof fn law_binary_operator_tokens(a: Seq<char>, b: Seq<char>, l1: usize, l2: usize, l3: usize, l4: usize)
    ensures
        g_expr(seq![(SpecToken::Ident(a), l1), (SpecToken::Star, l2), (SpecToken::Ident(b), l3), (SpecToken::EOF, l4)], 0) == Ok::<(SpecExpr, nat), SpecParseError>((SpecExpr::BinOp { op: BinOp::Mul, left: Box::new(SpecExpr::Ident(a, l1)), right: Box::new(SpecExpr::Ident(b, l3)), line: l1 }, 3nat)),
        g_expr(seq![(SpecToken::Ident(a), l1), (SpecToken::Slash, l2), (SpecToken::Ident(b), l3), (SpecToken::EOF, l4)], 0) == Ok::<(SpecExpr, nat), SpecParseError>((SpecExpr::BinOp { op: BinOp::Div, left: Box::new(SpecExpr::Ident(a, l1)), right: Box::new(SpecExpr::Ident(b, l3)), line: l1 }, 3nat)),
        g_expr(seq![(SpecToken::Ident(a), l1), (SpecToken::Percent, l2), (SpecToken::Ident(b), l3), (SpecToken::EOF, l4)], 0) == Ok::<(SpecExpr, nat), SpecParseError>((SpecExpr::BinOp { op: BinOp::Mod, left: Box::new(SpecExpr::Ident(a, l1)), right: Box::new(SpecExpr::Ident(b, l3)), line: l1 }, 3nat)),
        g_expr(seq![(SpecToken::Ident(a), l1), (SpecToken::Plus, l2), (SpecToken::Ident(b), l3), (SpecToken::EOF, l4)], 0) == Ok::<(SpecExpr, nat), SpecParseError>((SpecExpr::BinOp { op: BinOp::Add, left: Box::new(SpecExpr::Ident(a, l1)), right: Box::new(SpecExpr::Ident(b, l3)), line: l1 }, 3nat)),
        g_expr(seq![(SpecToken::Ident(a), l1), (SpecToken::Minus, l2), (SpecToken::Ident(b), l3), (SpecToken::EOF, l4)], 0) == Ok::<(SpecExpr, nat), SpecParseError>((SpecExpr::BinOp { op: BinOp::Sub, left: Box::new(SpecExpr::Ident(a, l1)), right: Box::new(SpecExpr::Ident(b, l3)), line: l1 }, 3nat)),
        g_expr(seq![(SpecToken::Ident(a), l1), (SpecToken::Lt, l2), (SpecToken::Ident(b), l3), (SpecToken::EOF, l4)], 0) == Ok::<(SpecExpr, nat), SpecParseError>((SpecExpr::BinOp { op: BinOp::Lt, left: Box::new(SpecExpr::Ident(a, l1)), right: Box::new(SpecExpr::Ident(b, l3)), line: l1 }, 3nat)),
        g_expr(seq![(SpecToken::Ident(a), l1), (SpecToken::Gt, l2), (SpecToken::Ident(b), l3), (SpecToken::EOF, l4)], 0) == Ok::<(SpecExpr, nat), SpecParseError>((SpecExpr::BinOp { op: BinOp::Gt, left: Box::new(SpecExpr::Ident(a, l1)), right: Box::new(SpecExpr::Ident(b, l3)), line: l1 }, 3nat)),
        g_expr(seq![(SpecToken::Ident(a), l1), (SpecToken::LtEq, l2), (SpecToken::Ident(b), l3), (SpecToken::EOF, l4)], 0) == Ok::<(SpecExpr, nat), SpecParseError>((SpecExpr::BinOp { op: BinOp::LtEq, left: Box::new(SpecExpr::Ident(a, l1)), right: Box::new(SpecExpr::Ident(b, l3)), line: l1 }, 3nat)),
        g_expr(seq![(SpecToken::Ident(a), l1), (SpecToken::GtEq, l2), (SpecToken::Ident(b), l3), (SpecToken::EOF, l4)], 0) == Ok::<(SpecExpr, nat), SpecParseError>((SpecExpr::BinOp { op: BinOp::GtEq, left: Box::new(SpecExpr::Ident(a, l1)), right: Box::new(SpecExpr::Ident(b, l3)), line: l1 }, 3nat)),
        g_expr(seq![(SpecToken::Ident(a), l1), (SpecToken::Eq, l2), (SpecToken::Ident(b), l3), (SpecToken::EOF, l4)], 0) == Ok::<(SpecExpr, nat), SpecParseError>((SpecExpr::BinOp { op: BinOp::Eq, left: Box::new(SpecExpr::Ident(a, l1)), right: Box::new(SpecExpr::Ident(b, l3)), line: l1 }, 3nat)),
        g_expr(seq![(SpecToken::Ident(a), l1), (SpecToken::NotEq, l2), (SpecToken::Ident(b), l3), (SpecToken::EOF, l4)], 0) == Ok::<(SpecExpr, nat), SpecParseError>((SpecExpr::BinOp { op: BinOp::NotEq, left: Box::new(SpecExpr::Ident(a, l1)), right: Box::new(SpecExpr::Ident(b, l3)), line: l1 }, 3nat)),
        g_expr(seq![(SpecToken::Ident(a), l1), (SpecToken::And, l2), (SpecToken::Ident(b), l3), (SpecToken::EOF, l4)], 0) == Ok::<(SpecExpr, nat), SpecParseError>((SpecExpr::BinOp { op: BinOp::And, left: Box::new(SpecExpr::Ident(a, l1)), right: Box::new(SpecExpr::Ident(b, l3)), line: l1 }, 3nat)),
        g_expr(seq![(SpecToken::Ident(a), l1), (SpecToken::Or, l2), (SpecToken::Ident(b), l3), (SpecToken::EOF, l4)], 0) == Ok::<(SpecExpr, nat), SpecParseError>((SpecExpr::BinOp { op: BinOp::Or, left: Box::new(SpecExpr::Ident(a, l1)), right: Box::new(SpecExpr::Ident(b, l3)), line: l1 }, 3nat)),
{
    lemma_binop_expr(seq![(SpecToken::Ident(a), l1), (SpecToken::Star, l2), (SpecToken::Ident(b), l3), (SpecToken::EOF, l4)], 6, SpecToken::Star, 1, BinOp::Mul);
    lemma_expr_unfold(seq![(SpecToken::Ident(a), l1), (SpecToken::Star, l2), (SpecToken::Ident(b), l3), (SpecToken::EOF, l4)], 0);
    lemma_binop_expr(seq![(SpecToken::Ident(a), l1), (SpecToken::Slash, l2), (SpecToken::Ident(b), l3), (SpecToken::EOF, l4)], 6, SpecToken::Slash, 1, BinOp::Div);
    lemma_expr_unfold(seq![(SpecToken::Ident(a), l1), (SpecToken::Slash, l2), (SpecToken::Ident(b), l3), (SpecToken::EOF, l4)], 0);
    lemma_binop_expr(seq![(SpecToken::Ident(a), l1), (SpecToken::Percent, l2), (SpecToken::Ident(b), l3), (SpecToken::EOF, l4)], 6, SpecToken::Percent, 1, BinOp::Mod);
    lemma_expr_unfold(seq![(SpecToken::Ident(a), l1), (SpecToken::Percent, l2), (SpecToken::Ident(b), l3), (SpecToken::EOF, l4)], 0);
    lemma_binop_expr(seq![(SpecToken::Ident(a), l1), (SpecToken::Plus, l2), (SpecToken::Ident(b), l3), (SpecToken::EOF, l4)], 6, SpecToken::Plus, 2, BinOp::Add);
    lemma_expr_unfold(seq![(SpecToken::Ident(a), l1), (SpecToken::Plus, l2), (SpecToken::Ident(b), l3), (SpecToken::EOF, l4)], 0);
    lemma_binop_expr(seq![(SpecToken::Ident(a), l1), (SpecToken::Minus, l2), (SpecToken::Ident(b), l3), (SpecToken::EOF, l4)], 6, SpecToken::Minus, 2, BinOp::Sub);
    lemma_expr_unfold(seq![(SpecToken::Ident(a), l1), (SpecToken::Minus, l2), (SpecToken::Ident(b), l3), (SpecToken::EOF, l4)], 0);
    lemma_binop_expr(seq![(SpecToken::Ident(a), l1), (SpecToken::Lt, l2), (SpecToken::Ident(b), l3), (SpecToken::EOF, l4)], 6, SpecToken::Lt, 3, BinOp::Lt);
    lemma_expr_unfold(seq![(SpecToken::Ident(a), l1), (SpecToken::Lt, l2), (SpecToken::Ident(b), l3), (SpecToken::EOF, l4)], 0);
    lemma_binop_expr(seq![(SpecToken::Ident(a), l1), (SpecToken::Gt, l2), (SpecToken::Ident(b), l3), (SpecToken::EOF, l4)], 6, SpecToken::Gt, 3, BinOp::Gt);
    lemma_expr_unfold(seq![(SpecToken::Ident(a), l1), (SpecToken::Gt, l2), (SpecToken::Ident(b), l3), (SpecToken::EOF, l4)], 0);
    lemma_binop_expr(seq![(SpecToken::Ident(a), l1), (SpecToken::LtEq, l2), (SpecToken::Ident(b), l3), (SpecToken::EOF, l4)], 6, SpecToken::LtEq, 3, BinOp::LtEq);
    lemma_expr_unfold(seq![(SpecToken::Ident(a), l1), (SpecToken::LtEq, l2), (SpecToken::Ident(b), l3), (SpecToken::EOF, l4)], 0);
    lemma_binop_expr(seq![(SpecToken::Ident(a), l1), (SpecToken::GtEq, l2), (SpecToken::Ident(b), l3), (SpecToken::EOF, l4)], 6, SpecToken::GtEq, 3, BinOp::GtEq);
    lemma_expr_unfold(seq![(SpecToken::Ident(a), l1), (SpecToken::GtEq, l2), (SpecToken::Ident(b), l3), (SpecToken::EOF, l4)], 0);
    lemma_binop_expr(seq![(SpecToken::Ident(a), l1), (SpecToken::Eq, l2), (SpecToken::Ident(b), l3), (SpecToken::EOF, l4)], 6, SpecToken::Eq, 4, BinOp::Eq);
    lemma_expr_unfold(seq![(SpecToken::Ident(a), l1), (SpecToken::Eq, l2), (SpecToken::Ident(b), l3), (SpecToken::EOF, l4)], 0);
    lemma_binop_expr(seq![(SpecToken::Ident(a), l1), (SpecToken::NotEq, l2), (SpecToken::Ident(b), l3), (SpecToken::EOF, l4)], 6, SpecToken::NotEq, 4, BinOp::NotEq);
    lemma_expr_unfold(seq![(SpecToken::Ident(a), l1), (SpecToken::NotEq, l2), (SpecToken::Ident(b), l3), (SpecToken::EOF, l4)], 0);
    lemma_binop_expr(seq![(SpecToken::Ident(a), l1), (SpecToken::And, l2), (SpecToken::Ident(b), l3), (SpecToken::EOF, l4)], 6, SpecToken::And, 5, BinOp::And);
    lemma_expr_unfold(seq![(SpecToken::Ident(a), l1), (SpecToken::And, l2), (SpecToken::Ident(b), l3), (SpecToken::EOF, l4)], 0);
    lemma_binop_expr(seq![(SpecToken::Ident(a), l1), (SpecToken::Or, l2), (SpecToken::Ident(b), l3), (SpecToken::EOF, l4)], 6, SpecToken::Or, 6, BinOp::Or);
    lemma_expr_unfold(seq![(SpecToken::Ident(a), l1), (SpecToken::Or, l2), (SpecToken::Ident(b), l3), (SpecToken::EOF, l4)], 0);
}

} // verus!
