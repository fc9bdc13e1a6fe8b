//! Recursive-descent parser: turns a list of (token, line) pairs into items.
//! Each routine is proved to do what the routine of the same name in
//! `grammar` says.
use vstd::prelude::*;
use vstd::string::StringExecFns;

use crate::ast::{
    spec_exprs, spec_field_inits, spec_field_pats, spec_fn_defs, spec_items, spec_params,
    spec_patterns, spec_stmts, spec_struct_fields, spec_arms, copy_expr, lemma_arms_push, SpecExpr, SpecStructDef,
    lemma_exprs_push, lemma_field_inits_push, lemma_field_pats_push, lemma_patterns_push,
    lemma_stmts_push, SpecItem, AssignTarget, BinOp, Expr, FnDef,
    ImplBlock, Item, MatchArm, Param, Pattern, SpecToken, Stmt, StructDef, StructField, Type,
    UnaryOp,
};
use crate::diag::debug_token;
use crate::lexer::{word3, word4};
use crate::text::chars_of;
use crate::grammar::{
    Toks, Parsed, SpecParseError, tk, ln, shift, err_expected, err_ident, err_item, err_type, err_unexpected, err_pattern, err_target, g_semis, g_expect, g_ident, named_type, g_type, g_is_struct_literal, g_to_target, g_pattern, g_tuple_pats, g_field_pats, bin_op_at, g_if, g_match, g_arm, g_arms, g_args, g_elems, g_tuple_rest, field_init_at, g_field_inits, g_range_from, g_primary, g_postfix_rest, g_postfix, g_unary, g_operand, g_binary, g_binary_rest, g_expr, g_aug_assign, g_aug_then, g_let, g_return, g_while, g_for, g_stmt, g_stmts, g_block, self_name, g_param, g_field, g_params_rest, g_params, g_fn, g_fields, g_struct, g_methods, g_impl, g_item, g_items, g_program_from, g_params_first,
};
use crate::lexer::{view_tokens, spec_tokenize};
use crate::grammar::{ok_part, err_part, fails_with, lemma_shift_shift, lemma_arms_end, lemma_arms_fail, lemma_arms_step, lemma_params_end, lemma_params_fail, lemma_params_comma, lemma_params_last, lemma_fields_end, lemma_fields_semis_end, lemma_fields_fail, lemma_fields_step, lemma_args_end, lemma_args_fail, lemma_args_comma, lemma_args_last, lemma_inits_end, lemma_inits_fail, lemma_inits_comma, lemma_inits_last, lemma_postfix_rest_unfold, lemma_primary_unfold, lemma_tuple_rest_unfold, lemma_elems_unfold, lemma_if_unfold, lemma_let_unfold, lemma_return_unfold, lemma_unary_unfold, lemma_range_from_unfold, lemma_struct_unfold, lemma_while_unfold, lemma_for_unfold, lemma_aug_assign_unfold, lemma_expr_unfold, lemma_operand_unfold, lemma_match_unfold, lemma_arm_unfold, lemma_stmt_unfold, lemma_item_unfold, lemma_fn_unfold};
pub use crate::lexer::Token;

verus! {

/// A parse error: what went wrong and on which line.
#[derive(Debug)]
pub struct ParseError {
    pub message: String,
    pub line: usize,
}

impl View for ParseError {
    type V = SpecParseError;

    open spec fn view(&self) -> SpecParseError {
        SpecParseError { message: self.message@, line: self.line }
    }
}

pub type ParseResult<T> = Result<T, ParseError>;

/// Tokens that carry no text or number.
pub open spec fn no_payload(t: SpecToken) -> bool {
    !(t is Int || t is Float || t is Str || t is StringLit || t is Bool || t is Ident)
}

/// A token list the parser can read: it is not empty and ends with `EOF`.
pub open spec fn well_formed_tokens(t: Toks) -> bool {
    t.len() >= 1 && t.last().0 is EOF
}

/// `Ok` of the grammar's outcome with `consumed` tokens, given the value's model.
pub open spec fn ok_with<V>(g: Parsed<V>, v: V, consumed: int) -> bool {
    consumed >= 0 && g == Ok::<(V, nat), SpecParseError>((v, consumed as nat))
}

fn same_token(a: &Token, b: &Token) -> (r: bool)
    requires
        no_payload(b@),
    ensures
        r == (a@ == b@),
{
    match (a, b) {
        (Token::Let, Token::Let) => true,
        (Token::Mut, Token::Mut) => true,
        (Token::Fn, Token::Fn) => true,
        (Token::Return, Token::Return) => true,
        (Token::If, Token::If) => true,
        (Token::Else, Token::Else) => true,
        (Token::While, Token::While) => true,
        (Token::For, Token::For) => true,
        (Token::In, Token::In) => true,
        (Token::Break, Token::Break) => true,
        (Token::Continue, Token::Continue) => true,
        (Token::Match, Token::Match) => true,
        (Token::Struct, Token::Struct) => true,
        (Token::Impl, Token::Impl) => true,
        (Token::Self_, Token::Self_) => true,
        (Token::As, Token::As) => true,
        (Token::True, Token::True) => true,
        (Token::False, Token::False) => true,
        (Token::None_, Token::None_) => true,
        (Token::Underscore, Token::Underscore) => true,
        (Token::Plus, Token::Plus) => true,
        (Token::Minus, Token::Minus) => true,
        (Token::Star, Token::Star) => true,
        (Token::Slash, Token::Slash) => true,
        (Token::Percent, Token::Percent) => true,
        (Token::Eq, Token::Eq) => true,
        (Token::NotEq, Token::NotEq) => true,
        (Token::Lt, Token::Lt) => true,
        (Token::Gt, Token::Gt) => true,
        (Token::LtEq, Token::LtEq) => true,
        (Token::GtEq, Token::GtEq) => true,
        (Token::And, Token::And) => true,
        (Token::Or, Token::Or) => true,
        (Token::Bang, Token::Bang) => true,
        (Token::Assign, Token::Assign) => true,
        (Token::PlusAssign, Token::PlusAssign) => true,
        (Token::MinusAssign, Token::MinusAssign) => true,
        (Token::StarAssign, Token::StarAssign) => true,
        (Token::SlashAssign, Token::SlashAssign) => true,
        (Token::Arrow, Token::Arrow) => true,
        (Token::FatArrow, Token::FatArrow) => true,
        (Token::DotDot, Token::DotDot) => true,
        (Token::DotDotEq, Token::DotDotEq) => true,
        (Token::Dot, Token::Dot) => true,
        (Token::Comma, Token::Comma) => true,
        (Token::Colon, Token::Colon) => true,
        (Token::Semicolon, Token::Semicolon) => true,
        (Token::LParen, Token::LParen) => true,
        (Token::RParen, Token::RParen) => true,
        (Token::LBrace, Token::LBrace) => true,
        (Token::RBrace, Token::RBrace) => true,
        (Token::LBracket, Token::LBracket) => true,
        (Token::RBracket, Token::RBracket) => true,
        (Token::Question, Token::Question) => true,
        (Token::EOF, Token::EOF) => true,
        _ => false,
    }
}

fn err_expected_found(expected: &Token, found: &Token, line: usize) -> (e: ParseError)
    ensures
        e@ == err_expected(expected@, found@, line),
{
    let a = debug_token(expected);
    let b = debug_token(found);
    let mut m = String::from_str("expected ");
    m.append(a.as_str());
    m.append(", found ");
    m.append(b.as_str());
    ParseError { message: m, line }
}

fn err_with(prefix: &str, found: &Token, line: usize) -> (e: ParseError)
    ensures
        e@ == (SpecParseError { message: prefix@ + crate::diag::token_debug_text(found@), line }),
{
    let b = debug_token(found);
    let mut m = String::from_str(prefix);
    m.append(b.as_str());
    ParseError { message: m, line }
}

/// Only identifiers, field accesses and index expressions can be assigned to.
pub fn expr_to_assign_target(expr: Expr) -> (t: Option<AssignTarget>)
    ensures
        match t {
            Some(tg) => g_to_target(expr@) == Some(tg@),
            None => g_to_target(expr@) is None,
        },
{
    match expr {
        Expr::Ident(name, line) => Some(AssignTarget::Ident(name, line)),
        Expr::FieldAccess { obj, field, line } => Some(AssignTarget::Field { obj, field, line }),
        Expr::Index { obj, index, line } => Some(AssignTarget::Index { obj, index, line }),
        _ => None,
    }
}

pub struct Parser {
    tokens: Vec<(Token, usize)>,
    pos: usize,
}

impl Parser {
    /// The tokens being parsed.
    pub closed spec fn toks(&self) -> Toks {
        view_tokens(self.tokens@)
    }

    /// Position of the next token to read.
    pub closed spec fn position(&self) -> int {
        self.pos as int
    }

    /// The parser's invariant: the tokens end with `EOF` and the position lies among them.
    pub closed spec fn wf(&self) -> bool {
        &&& well_formed_tokens(self.toks())
        &&& self.pos < self.tokens@.len()
    }

    pub fn new(tokens: Vec<(Token, usize)>) -> (p: Self)
        ensures
            p.toks() == view_tokens(tokens@),
            p.position() == 0,
            well_formed_tokens(view_tokens(tokens@)) ==> p.wf(),
    {
        Self { tokens, pos: 0 }
    }

    // ── Core helpers ──────────────────────────────────────────────────────────

    fn peek(&self) -> (t: &Token)
        requires
            self.wf(),
        ensures
            t@ == tk(self.toks(), self.pos as int),
    {
        &self.tokens[self.pos].0
    }

    fn peek2(&self) -> (t: &Token)
        requires
            self.wf(),
        ensures
            t@ == tk(self.toks(), self.pos + 1),
    {
        if self.pos < self.tokens.len() - 1 {
            &self.tokens[self.pos + 1].0
        } else {
            &Token::EOF
        }
    }

    fn line(&self) -> (l: usize)
        requires
            self.wf(),
        ensures
            l == ln(self.toks(), self.pos as int),
    {
        self.tokens[self.pos].1
    }

    /// Moves to the next token, staying on the last one (`EOF`): the position
    /// stays within the token list after every step.
    pub fn advance(&mut self)
        requires
            old(self).wf(),
        ensures
            final(self).wf(),
            final(self).toks() == old(self).toks(),
            0 <= final(self).position() < final(self).toks().len(),
            final(self).position() == (if old(self).position() + 1 < old(self).toks().len() { old(self).position() + 1 } else { old(self).position() }),
            !(tk(old(self).toks(), old(self).position()) is EOF) ==> final(self).position() == old(self).position() + 1,
    {
        proof {
            let t = self.toks();
            assert(t.len() == self.tokens@.len());
            assert(t[self.pos as int] == (self.tokens@[self.pos as int].0@, self.tokens@[self.pos as int].1));
        }
        if self.pos < self.tokens.len() - 1 {
            self.pos += 1;
        }
    }

    fn expect(&mut self, expected: &Token) -> (r: ParseResult<()>)
        requires
            old(self).wf(),
            no_payload(expected@),
            !(expected@ is EOF),
        ensures
            final(self).wf(),
            final(self).toks() == old(self).toks(),
            r is Ok ==> g_expect(old(self).toks(), old(self).pos as int, expected@) == Ok::<nat, SpecParseError>(1)
                && final(self).pos == old(self).pos + 1,
            r is Err ==> g_expect(old(self).toks(), old(self).pos as int, expected@) == Err::<nat, SpecParseError>(err_part(r)@)
                && final(self).pos == old(self).pos,
    {
        if same_token(self.peek(), expected) {
            self.advance();
            Ok(())
        } else {
            Err(err_expected_found(expected, self.peek(), self.line()))
        }
    }

    fn expect_ident(&mut self) -> (r: ParseResult<String>)
        requires
            old(self).wf(),
        ensures
            final(self).wf(),
            final(self).toks() == old(self).toks(),
            r is Ok ==> ok_with(g_ident(old(self).toks(), old(self).pos as int), ok_part(r)@, final(self).pos - old(self).pos)
                && final(self).pos == old(self).pos + 1,
            r is Err ==> g_ident(old(self).toks(), old(self).pos as int) == Err::<(Seq<char>, nat), SpecParseError>(err_part(r)@)
                && final(self).pos == old(self).pos,
    {
        let name = match self.peek() {
            Token::Ident(n) => Some(n.clone()),
            _ => None,
        };
        match name {
            Some(n) => {
                self.advance();
                Ok(n)
            },
            None => Err(err_with("expected identifier, found ", self.peek(), self.line())),
        }
    }

    fn at_end(&self) -> (b: bool)
        requires
            self.wf(),
        ensures
            b == (tk(self.toks(), self.pos as int) is EOF),
    {
        matches!(self.peek(), Token::EOF)
    }

    fn skip_semis(&mut self)
        requires
            old(self).wf(),
        ensures
            final(self).wf(),
            final(self).toks() == old(self).toks(),
            final(self).pos == old(self).pos + g_semis(old(self).toks(), old(self).pos as int),
    {
        let ghost t = self.toks();
        let ghost start = self.pos as int;
        while matches!(self.peek(), Token::Semicolon)
            invariant
                self.wf(),
                self.toks() == t,
                t == old(self).toks(),
                old(self).pos <= self.pos,
                start <= self.pos,
                start + g_semis(t, start) == self.pos + g_semis(t, self.pos as int),
            decreases self.tokens@.len() - self.pos,
        {
            self.advance();
        }
    }

    // ── Types ─────────────────────────────────────────────────────────────────

    fn parse_type(&mut self) -> (r: ParseResult<Type>)
        requires
            old(self).wf(),
        ensures
            final(self).wf(),
            final(self).toks() == old(self).toks(),
            old(self).pos <= final(self).pos,
            r is Ok ==> old(self).pos < final(self).pos,
            r is Ok ==> ok_with(g_type(old(self).toks(), old(self).pos as int), ok_part(r)@, final(self).pos - old(self).pos),
            r is Err ==> fails_with(g_type(old(self).toks(), old(self).pos as int), err_part(r)@),
        decreases old(self).tokens@.len() - old(self).pos,
    {
        proof { reveal(g_type); }
        if matches!(self.peek(), Token::Question) {
            self.advance();
            let inner = self.parse_type()?;
            return Ok(Type::Optional(Box::new(inner)));
        }
        if matches!(self.peek(), Token::LBracket) {
            self.advance();
            let inner = self.parse_type()?;
            self.expect(&Token::RBracket)?;
            return Ok(Type::Array(Box::new(inner)));
        }
        let ty = match self.peek() {
            Token::Ident(name) => type_of_name(name),
            _ => {
                return Err(err_with("expected type, found ", self.peek(), self.line()));
            },
        };
        self.advance();
        Ok(ty)
    }

    // ── Patterns ──────────────────────────────────────────────────────────────

    #[verifier::loop_isolation(false)]
    #[verifier::rlimit(50)]
    #[verifier::spinoff_prover]
    fn parse_pattern(&mut self) -> (r: ParseResult<Pattern>)
        requires
            old(self).wf(),
        ensures
            final(self).wf(),
            final(self).toks() == old(self).toks(),
            old(self).pos <= final(self).pos,
            r is Ok ==> old(self).pos < final(self).pos,
            r is Ok ==> ok_with(g_pattern(old(self).toks(), old(self).pos as int), ok_part(r)@, final(self).pos - old(self).pos),
            r is Err ==> fails_with(g_pattern(old(self).toks(), old(self).pos as int), err_part(r)@),
        decreases old(self).tokens@.len() - old(self).pos,
    {
        proof { reveal(g_pattern); reveal(g_tuple_pats); reveal(g_field_pats); }
        let ghost t = self.toks();
        let ghost i = self.pos as int;
        let line = self.line();
        match self.peek() {
            Token::Underscore => {
                self.advance();
                Ok(Pattern::Wildcard)
            },
            Token::Int(n) => {
                let n = *n;
                self.advance();
                Ok(Pattern::Int(n))
            },
            Token::Float(f) => {
                let f = f.clone();
                self.advance();
                Ok(Pattern::Float(f))
            },
            Token::Bool(b) => {
                let b = *b;
                self.advance();
                Ok(Pattern::Bool(b))
            },
            Token::StringLit(s) => {
                let s = s.clone();
                self.advance();
                Ok(Pattern::Str(s))
            },
            Token::None_ => {
                self.advance();
                Ok(Pattern::NoneLit)
            },
            Token::LParen => {
                self.advance();
                let mut pats: Vec<Pattern> = Vec::new();
                let ghost j0 = self.pos as int;
                proof {
                    assert(spec_patterns(pats@) =~= Seq::empty());
                }
                while !matches!(self.peek(), Token::RParen | Token::EOF)
                    invariant
                        self.wf(),
                        self.toks() == t,
                        t == old(self).toks(),
                        old(self).pos <= self.pos,
                        i == old(self).pos,
                        j0 == i + 1,
                        j0 <= self.pos,
                        shift(g_tuple_pats(t, self.pos as int, spec_patterns(pats@)), (self.pos - j0) as nat)
                            == g_tuple_pats(t, j0, Seq::empty()),
                    decreases self.tokens@.len() - self.pos,
                {
                    proof { reveal(g_pattern); reveal(g_tuple_pats); reveal(g_field_pats); }
                    let p = self.parse_pattern()?;
                    if matches!(self.peek(), Token::Comma) {
                        self.advance();
                    }
                    proof {
                        lemma_patterns_push(pats@, p);
                    }
                    pats.push(p);
                }
                self.expect(&Token::RParen)?;
                Ok(Pattern::Tuple(pats))
            },
            Token::Ident(name) => {
                let name = name.clone();
                self.advance();
                if matches!(self.peek(), Token::LBrace) {
                    self.advance();
                    let mut fields: Vec<(String, Pattern)> = Vec::new();
                    let ghost j0 = self.pos as int;
                    proof {
                        assert(spec_field_pats(fields@) =~= Seq::empty());
                    }
                    while !matches!(self.peek(), Token::RBrace | Token::EOF)
                        invariant
                            self.wf(),
                            self.toks() == t,
                            t == old(self).toks(),
                            old(self).pos <= self.pos,
                            i == old(self).pos,
                            j0 == i + 2,
                            j0 <= self.pos,
                            shift(g_field_pats(t, self.pos as int, spec_field_pats(fields@)), (self.pos - j0) as nat)
                                == g_field_pats(t, j0, Seq::empty()),
                        decreases self.tokens@.len() - self.pos,
                    {
                        proof { reveal(g_pattern); reveal(g_tuple_pats); reveal(g_field_pats); }
                        let fname = self.expect_ident()?;
                        let pat = if matches!(self.peek(), Token::Colon) {
                            self.advance();
                            self.parse_pattern()?
                        } else {
                            Pattern::Binding(fname.clone())
                        };
                        if matches!(self.peek(), Token::Comma) {
                            self.advance();
                        }
                        proof {
                            lemma_field_pats_push(fields@, (fname, pat));
                        }
                        fields.push((fname, pat));
                    }
                    self.expect(&Token::RBrace)?;
                    Ok(Pattern::Struct { name, fields })
                } else {
                    Ok(Pattern::Binding(name))
                }
            },
            _ => Err(err_with("expected pattern, found ", self.peek(), line)),
        }
    }

    // ── Expressions ───────────────────────────────────────────────────────────

    fn parse_expr(&mut self) -> (r: ParseResult<Expr>)
        requires
            old(self).wf(),
        ensures
            final(self).wf(),
            final(self).toks() == old(self).toks(),
            old(self).pos <= final(self).pos,
            r is Ok ==> old(self).pos < final(self).pos,
            r is Ok ==> ok_with(g_expr(old(self).toks(), old(self).pos as int), ok_part(r)@, final(self).pos - old(self).pos),
            r is Err ==> fails_with(g_expr(old(self).toks(), old(self).pos as int), err_part(r)@),
        decreases old(self).tokens@.len() - old(self).pos, 16int,
    {
        proof { lemma_expr_unfold(self.toks(), self.pos as int); }
        let ghost t = self.toks();
        let ghost i = self.pos as int;
        let r = self.parse_binary(6);
        proof {
            assert(g_expr(t, i) == g_binary(t, i, 6));
            if r is Ok {
                assert(ok_with(g_binary(t, i, 6), ok_part(r)@, self.pos - i));
            } else {
                assert(fails_with(g_binary(t, i, 6), err_part(r)@));
            }
        }
        r
    }

    /// One operand of binary level `k`.
    fn parse_operand(&mut self, k: u8) -> (r: ParseResult<Expr>)
        requires
            old(self).wf(),
            1 <= k <= 6,
        ensures
            final(self).wf(),
            final(self).toks() == old(self).toks(),
            old(self).pos <= final(self).pos,
            r is Ok ==> old(self).pos < final(self).pos,
            r is Ok ==> ok_with(g_operand(old(self).toks(), old(self).pos as int, k as int), ok_part(r)@, final(self).pos - old(self).pos),
            r is Err ==> fails_with(g_operand(old(self).toks(), old(self).pos as int, k as int), err_part(r)@),
        decreases old(self).tokens@.len() - old(self).pos, 2 * k + 2,
    {
        proof { lemma_operand_unfold(self.toks(), self.pos as int, k as int); }
        if k == 1 {
            self.parse_unary()
        } else {
            self.parse_binary(k - 1)
        }
    }

    /// Binary level `k`: `||` (6), `&&` (5), `== !=` (4), `< > <= >=` (3),
    /// `+ -` (2), `* / %` (1); all left-associative.
    #[verifier::loop_isolation(false)]
    #[verifier::spinoff_prover]
    fn parse_binary(&mut self, k: u8) -> (r: ParseResult<Expr>)
        requires
            old(self).wf(),
            1 <= k <= 6,
        ensures
            final(self).wf(),
            final(self).toks() == old(self).toks(),
            old(self).pos <= final(self).pos,
            r is Ok ==> old(self).pos < final(self).pos,
            r is Ok ==> ok_with(g_binary(old(self).toks(), old(self).pos as int, k as int), ok_part(r)@, final(self).pos - old(self).pos),
            r is Err ==> fails_with(g_binary(old(self).toks(), old(self).pos as int, k as int), err_part(r)@),
        decreases old(self).tokens@.len() - old(self).pos, 2 * k + 3,
    {
        proof { reveal(g_binary); reveal(g_binary_rest); }
        let ghost t = self.toks();
        let ghost i = self.pos as int;
        let line = self.line();
        let mut left = self.parse_operand(k)?;
        let ghost j0 = self.pos as int;
        loop
            invariant
                self.wf(),
                self.toks() == t,
                t == old(self).toks(),
                old(self).pos <= self.pos,
                i == old(self).pos,
                i < j0 <= self.pos,
                1 <= k <= 6,
                shift(g_binary_rest(t, self.pos as int, left@, line, k as int), (self.pos - i) as nat)
                    == g_binary(t, i, k as int),
            decreases self.tokens@.len() - self.pos,
        {
            proof { reveal(g_binary); reveal(g_binary_rest); }
            let op = match bin_op_of(self.peek(), k) {
                Some(op) => op,
                None => {
                    break;
                },
            };
            self.advance();
            let right = self.parse_operand(k)?;
            left = Expr::BinOp { op, left: Box::new(left), right: Box::new(right), line };
        }
        Ok(left)
    }

    fn parse_unary(&mut self) -> (r: ParseResult<Expr>)
        requires
            old(self).wf(),
        ensures
            final(self).wf(),
            final(self).toks() == old(self).toks(),
            old(self).pos <= final(self).pos,
            r is Ok ==> old(self).pos < final(self).pos,
            r is Ok ==> ok_with(g_unary(old(self).toks(), old(self).pos as int), ok_part(r)@, final(self).pos - old(self).pos),
            r is Err ==> fails_with(g_unary(old(self).toks(), old(self).pos as int), err_part(r)@),
        decreases old(self).tokens@.len() - old(self).pos, 3int,
    {
        proof { lemma_unary_unfold(self.toks(), self.pos as int); }
        let line = self.line();
        let ghost t = self.toks();
        let ghost i = self.pos as int;
        if matches!(self.peek(), Token::Bang) {
            self.advance();
            let r = self.parse_unary();
            proof {
                if r is Ok {
                    assert(ok_with(g_unary(t, i + 1), ok_part(r)@, self.pos - i - 1));
                } else {
                    assert(fails_with(g_unary(t, i + 1), err_part(r)@));
                }
            }
            let operand = r?;
            Ok(Expr::UnaryOp { op: UnaryOp::Not, operand: Box::new(operand), line })
        } else if matches!(self.peek(), Token::Minus) {
            self.advance();
            let operand = self.parse_unary()?;
            Ok(Expr::UnaryOp { op: UnaryOp::Neg, operand: Box::new(operand), line })
        } else {
            self.parse_postfix()
        }
    }

    #[verifier::loop_isolation(false)]
    #[verifier::spinoff_prover]
    fn parse_postfix(&mut self) -> (r: ParseResult<Expr>)
        requires
            old(self).wf(),
        ensures
            final(self).wf(),
            final(self).toks() == old(self).toks(),
            old(self).pos <= final(self).pos,
            r is Ok ==> old(self).pos < final(self).pos,
            r is Ok ==> ok_with(g_postfix(old(self).toks(), old(self).pos as int), ok_part(r)@, final(self).pos - old(self).pos),
            r is Err ==> fails_with(g_postfix(old(self).toks(), old(self).pos as int), err_part(r)@),
        decreases old(self).tokens@.len() - old(self).pos, 2int,
    {
        let ghost t = self.toks();
        let ghost i = self.pos as int;
        proof {
            assert(g_postfix(t, i) == match g_primary(t, i) {
                Err(e) => Err(e),
                Ok((e, c)) => shift(g_postfix_rest(t, i + c, e, ln(t, i)), c),
            }) by {
                reveal(g_postfix);
                reveal(g_primary);
            }
        }
        let line = self.line();
        let mut expr = self.parse_primary()?;
        loop
            invariant
                self.wf(),
                self.toks() == t,
                t == old(self).toks(),
                old(self).pos <= self.pos,
                i == old(self).pos,
                i < self.pos,
                shift(g_postfix_rest(t, self.pos as int, expr@, line), (self.pos - i) as nat) == g_postfix(t, i),
            decreases self.tokens@.len() - self.pos,
        {
            proof { lemma_postfix_rest_unfold(t, self.pos as int, expr@, line); }
            if matches!(self.peek(), Token::Dot) {
                self.advance();
                let field = self.expect_ident()?;
                if matches!(self.peek(), Token::LParen) {
                    self.advance();
                    let args = self.parse_arg_list()?;
                    self.expect(&Token::RParen)?;
                    expr = Expr::MethodCall { obj: Box::new(expr), method: field, args, line };
                } else {
                    expr = Expr::FieldAccess { obj: Box::new(expr), field, line };
                }
            } else if matches!(self.peek(), Token::LBracket) {
                self.advance();
                let index = self.parse_expr()?;
                self.expect(&Token::RBracket)?;
                expr = Expr::Index { obj: Box::new(expr), index: Box::new(index), line };
            } else if matches!(self.peek(), Token::As) {
                self.advance();
                let ty = self.parse_type()?;
                expr = Expr::Cast { expr: Box::new(expr), ty, line };
            } else {
                break;
            }
        }
        Ok(expr)
    }

    /// `..end` or `..=end` after `start`; the operator is the current token.
    fn parse_range_from(&mut self, start: Expr, line: usize, inclusive: bool) -> (r: ParseResult<Expr>)
        requires
            old(self).wf(),
            old(self).toks()[old(self).pos as int].0 is DotDot || old(self).toks()[old(self).pos as int].0 is DotDotEq,
        ensures
            final(self).wf(),
            final(self).toks() == old(self).toks(),
            old(self).pos <= final(self).pos,
            r is Ok ==> old(self).pos < final(self).pos,
            r is Ok ==> ok_with(g_range_from(old(self).toks(), old(self).pos as int, start@, line, inclusive), ok_part(r)@, final(self).pos - old(self).pos),
            r is Err ==> fails_with(g_range_from(old(self).toks(), old(self).pos as int, start@, line, inclusive), err_part(r)@),
        decreases old(self).tokens@.len() - old(self).pos, 17int,
    {
        proof { lemma_range_from_unfold(self.toks(), self.pos as int, start@, line, inclusive); }
        self.advance();
        let end = self.parse_expr()?;
        Ok(Expr::Range { start: Box::new(start), end: Box::new(end), inclusive, line })
    }

    #[verifier::loop_isolation(false)]
    #[verifier::rlimit(50)]
    #[verifier::spinoff_prover]
    fn parse_primary(&mut self) -> (r: ParseResult<Expr>)
        requires
            old(self).wf(),
        ensures
            final(self).wf(),
            final(self).toks() == old(self).toks(),
            old(self).pos <= final(self).pos,
            r is Ok ==> old(self).pos < final(self).pos,
            r is Ok ==> ok_with(g_primary(old(self).toks(), old(self).pos as int), ok_part(r)@, final(self).pos - old(self).pos),
            r is Err ==> fails_with(g_primary(old(self).toks(), old(self).pos as int), err_part(r)@),
        decreases old(self).tokens@.len() - old(self).pos, 1int,
    {
        let ghost t = self.toks();
        let ghost i = self.pos as int;
        proof { lemma_primary_unfold(t, i); }
        let line = self.line();
        match self.peek() {
            Token::Int(n) => {
                let n = *n;
                self.advance();
                if matches!(self.peek(), Token::DotDot) {
                    self.parse_range_from(Expr::Int(n, line), line, false)
                } else if matches!(self.peek(), Token::DotDotEq) {
                    self.parse_range_from(Expr::Int(n, line), line, true)
                } else {
                    Ok(Expr::Int(n, line))
                }
            },
            Token::Float(f) => {
                let f = f.clone();
                self.advance();
                Ok(Expr::Float(f, line))
            },
            Token::Bool(b) => {
                let b = *b;
                self.advance();
                Ok(Expr::Bool(b, line))
            },
            Token::StringLit(s) => {
                let s = s.clone();
                self.advance();
                Ok(Expr::Str(s, line))
            },
            Token::None_ => {
                self.advance();
                Ok(Expr::NoneLit(line))
            },
            Token::Self_ => {
                self.advance();
                Ok(Expr::Ident(String::from_str("self"), line))
            },
            Token::LParen => self.parse_paren(),
            Token::LBracket => self.parse_array_lit(),
            Token::If => self.parse_if(),
            Token::Match => self.parse_match(),
            Token::Ident(name) => {
                let name = name.clone();
                self.advance();
                if matches!(self.peek(), Token::LParen) {
                    self.advance();
                    let args = self.parse_arg_list()?;
                    self.expect(&Token::RParen)?;
                    Ok(Expr::Call { name, args, line })
                } else if matches!(self.peek(), Token::LBrace) && self.is_struct_literal() {
                    self.advance();
                    let fields = self.parse_struct_literal_fields()?;
                    self.expect(&Token::RBrace)?;
                    Ok(Expr::StructLit { name, fields, line })
                } else if matches!(self.peek(), Token::DotDot) {
                    self.parse_range_from(Expr::Ident(name, line), line, false)
                } else if matches!(self.peek(), Token::DotDotEq) {
                    self.parse_range_from(Expr::Ident(name, line), line, true)
                } else {
                    Ok(Expr::Ident(name, line))
                }
            },
            _ => Err(err_with("unexpected token in expression: ", self.peek(), line)),
        }
    }

    /// `()`, `(e)` or a tuple `(e, ...)`.
    #[verifier::loop_isolation(false)]
    #[verifier::rlimit(50)]
    #[verifier::spinoff_prover]
    fn parse_paren(&mut self) -> (r: ParseResult<Expr>)
        requires
            old(self).wf(),
            tk(old(self).toks(), old(self).pos as int) is LParen,
        ensures
            final(self).wf(),
            final(self).toks() == old(self).toks(),
            old(self).pos <= final(self).pos,
            r is Ok ==> old(self).pos < final(self).pos,
            r is Ok ==> ok_with(g_primary(old(self).toks(), old(self).pos as int), ok_part(r)@, final(self).pos - old(self).pos),
            r is Err ==> fails_with(g_primary(old(self).toks(), old(self).pos as int), err_part(r)@),
        decreases old(self).tokens@.len() - old(self).pos, 0int,
    {
        let ghost t = self.toks();
        let ghost i = self.pos as int;
        proof { lemma_primary_unfold(t, i); }
        let line = self.line();
        self.advance();
        if matches!(self.peek(), Token::RParen) {
            self.advance();
            let empty: Vec<Expr> = Vec::new();
            proof {
                assert(spec_exprs(empty@) =~= Seq::empty());
            }
            return Ok(Expr::Tuple(empty, line));
        }
        let first = self.parse_expr()?;
        if matches!(self.peek(), Token::Comma) {
            let ghost j0 = self.pos as int;
            let ghost fv = first@;
            let mut elems: Vec<Expr> = Vec::new();
            proof {
                lemma_exprs_push(elems@, first);
                assert(spec_exprs(elems@) =~= Seq::empty());
                assert(spec_exprs(elems@).push(fv) =~= seq![fv]);
            }
            elems.push(first);
            loop
                invariant
                    self.wf(),
                    self.toks() == t,
                    t == old(self).toks(),
                    old(self).pos <= self.pos,
                    i == old(self).pos,
                    i < j0 <= self.pos,
                    shift(g_tuple_rest(t, self.pos as int, spec_exprs(elems@)), (self.pos - j0) as nat)
                        == g_tuple_rest(t, j0, seq![fv]),
                decreases self.tokens@.len() - self.pos,
            {
                proof { lemma_tuple_rest_unfold(t, self.pos as int, spec_exprs(elems@)); }
                if !matches!(self.peek(), Token::Comma) {
                    break;
                }
                self.advance();
                if matches!(self.peek(), Token::RParen) {
                    break;
                }
                let e = self.parse_expr()?;
                proof {
                    lemma_exprs_push(elems@, e);
                }
                elems.push(e);
            }
            self.expect(&Token::RParen)?;
            Ok(Expr::Tuple(elems, line))
        } else {
            self.expect(&Token::RParen)?;
            Ok(first)
        }
        }

    /// An array literal `[e, ...]`.
    #[verifier::loop_isolation(false)]
    #[verifier::rlimit(50)]
    #[verifier::spinoff_prover]
    fn parse_array_lit(&mut self) -> (r: ParseResult<Expr>)
        requires
            old(self).wf(),
            tk(old(self).toks(), old(self).pos as int) is LBracket,
        ensures
            final(self).wf(),
            final(self).toks() == old(self).toks(),
            old(self).pos <= final(self).pos,
            r is Ok ==> old(self).pos < final(self).pos,
            r is Ok ==> ok_with(g_primary(old(self).toks(), old(self).pos as int), ok_part(r)@, final(self).pos - old(self).pos),
            r is Err ==> fails_with(g_primary(old(self).toks(), old(self).pos as int), err_part(r)@),
        decreases old(self).tokens@.len() - old(self).pos, 0int,
    {
        let ghost t = self.toks();
        let ghost i = self.pos as int;
        proof { lemma_primary_unfold(t, i); }
        let line = self.line();
        self.advance();
        let ghost j0 = self.pos as int;
        let mut elems: Vec<Expr> = Vec::new();
        proof {
            assert(spec_exprs(elems@) =~= Seq::empty());
        }
        while !matches!(self.peek(), Token::RBracket | Token::EOF)
            invariant
                self.wf(),
                self.toks() == t,
                t == old(self).toks(),
                old(self).pos <= self.pos,
                i == old(self).pos,
                i < j0 <= self.pos,
                shift(g_elems(t, self.pos as int, spec_exprs(elems@)), (self.pos - j0) as nat)
                    == g_elems(t, j0, Seq::empty()),
            decreases self.tokens@.len() - self.pos,
        {
            proof { lemma_elems_unfold(t, self.pos as int, spec_exprs(elems@)); }
            let e = self.parse_expr()?;
            proof {
                lemma_exprs_push(elems@, e);
            }
            elems.push(e);
            if matches!(self.peek(), Token::Comma) {
                self.advance();
            } else {
                break;
            }
        }
        proof { lemma_elems_unfold(t, self.pos as int, spec_exprs(elems@)); }
        self.expect(&Token::RBracket)?;
        Ok(Expr::Array(elems, line))
        }

    // ── If / match ────────────────────────────────────────────────────────────

    fn parse_if(&mut self) -> (r: ParseResult<Expr>)
        requires
            old(self).wf(),
        ensures
            final(self).wf(),
            final(self).toks() == old(self).toks(),
            old(self).pos <= final(self).pos,
            r is Ok ==> old(self).pos < final(self).pos,
            r is Ok ==> ok_with(g_if(old(self).toks(), old(self).pos as int), ok_part(r)@, final(self).pos - old(self).pos),
            r is Err ==> fails_with(g_if(old(self).toks(), old(self).pos as int), err_part(r)@),
        decreases old(self).tokens@.len() - old(self).pos, 0int,
    {
        proof { lemma_if_unfold(self.toks(), self.pos as int); }
        let line = self.line();
        self.expect(&Token::If)?;
        let cond = self.parse_expr()?;
        self.expect(&Token::LBrace)?;
        let then = self.parse_block()?;
        self.expect(&Token::RBrace)?;
        let else_ = if matches!(self.peek(), Token::Else) {
            self.advance();
            if matches!(self.peek(), Token::If) {
                let e = self.parse_if()?;
                let mut v: Vec<Stmt> = Vec::new();
                proof {
                    lemma_stmts_push(v@, Stmt::Expr(e));
                    assert(spec_stmts(v@) =~= Seq::empty());
                }
                v.push(Stmt::Expr(e));
                Some(v)
            } else {
                self.expect(&Token::LBrace)?;
                let block = self.parse_block()?;
                self.expect(&Token::RBrace)?;
                Some(block)
            }
        } else {
            None
        };
        Ok(Expr::If { cond: Box::new(cond), then, else_, line })
    }

    #[verifier::loop_isolation(false)]
    #[verifier::spinoff_prover]
    fn parse_match(&mut self) -> (r: ParseResult<Expr>)
        requires
            old(self).wf(),
        ensures
            final(self).wf(),
            final(self).toks() == old(self).toks(),
            old(self).pos <= final(self).pos,
            r is Ok ==> old(self).pos < final(self).pos,
            r is Ok ==> ok_with(g_match(old(self).toks(), old(self).pos as int), ok_part(r)@, final(self).pos - old(self).pos),
            r is Err ==> fails_with(g_match(old(self).toks(), old(self).pos as int), err_part(r)@),
        decreases old(self).tokens@.len() - old(self).pos, 0int,
    {
        proof { lemma_match_unfold(self.toks(), self.pos as int); }
        let ghost t = self.toks();
        let ghost i = self.pos as int;
        let line = self.line();
        self.expect(&Token::Match)?;
        let subject = self.parse_expr()?;
        self.expect(&Token::LBrace)?;
        let mut arms: Vec<MatchArm> = Vec::new();
        self.skip_semis();
        let ghost j0 = self.pos as int;
        let ghost subj = subject@;
        proof {
            assert(spec_arms(arms@) =~= Seq::empty());
            assert(g_match(t, i) == match g_arms(t, j0, Seq::empty()) {
                Err(e) => Err(e),
                Ok((a, c2)) => match g_expect(t, j0 + c2, SpecToken::RBrace) {
                    Err(e) => Err(e),
                    Ok(_) => Ok((SpecExpr::Match { subject: Box::new(subj), arms: a, line }, (j0 - i + 1 + c2) as nat)),
                },
            }) by {
                reveal(g_match);
            }
        }
        while !matches!(self.peek(), Token::RBrace | Token::EOF)
            invariant
                self.wf(),
                self.toks() == t,
                t == old(self).toks(),
                old(self).pos <= self.pos,
                i == old(self).pos,
                i < j0 <= self.pos,
                shift(g_arms(t, self.pos as int, spec_arms(arms@)), (self.pos - j0) as nat)
                    == g_arms(t, j0, Seq::empty()),
            decreases self.tokens@.len() - self.pos,
        {
            let ghost p = self.pos as int;
            let ghost acc = spec_arms(arms@);
            let arm = match self.parse_match_arm() {
                Ok(a) => a,
                Err(e) => {
                    proof {
                        lemma_arms_fail(t, p, acc, e@);
                    }
                    return Err(e);
                },
            };
            let ghost av = arm@;
            let ghost ca = (self.pos - p) as nat;
            proof {
                lemma_arms_push(arms@, arm);
            }
            arms.push(arm);
            if matches!(self.peek(), Token::Comma) {
                self.advance();
            }
            self.skip_semis();
            proof {
                lemma_arms_step(t, p, acc, av, ca, self.pos as int);
                lemma_shift_shift(g_arms(t, self.pos as int, acc.push(av)), (self.pos - p) as nat, (p - j0) as nat);
            }
        }
        proof {
            lemma_arms_end(t, self.pos as int, spec_arms(arms@));
        }
        self.expect(&Token::RBrace)?;
        Ok(Expr::Match { subject: Box::new(subject), arms, line })
    }

    /// One arm: `pattern => { block }` or `pattern => expr`.
    #[verifier::spinoff_prover]
    fn parse_match_arm(&mut self) -> (r: ParseResult<MatchArm>)
        requires
            old(self).wf(),
        ensures
            final(self).wf(),
            final(self).toks() == old(self).toks(),
            old(self).pos <= final(self).pos,
            r is Ok ==> old(self).pos < final(self).pos,
            r is Ok ==> ok_with(g_arm(old(self).toks(), old(self).pos as int), ok_part(r)@, final(self).pos - old(self).pos),
            r is Err ==> fails_with(g_arm(old(self).toks(), old(self).pos as int), err_part(r)@),
        decreases old(self).tokens@.len() - old(self).pos, 0int,
    {
        proof { lemma_arm_unfold(self.toks(), self.pos as int); }
        let pattern = self.parse_pattern()?;
        self.expect(&Token::FatArrow)?;
        let body = if matches!(self.peek(), Token::LBrace) {
            self.advance();
            let stmts = self.parse_block()?;
            self.expect(&Token::RBrace)?;
            stmts
        } else {
            let e = self.parse_expr()?;
            let mut v: Vec<Stmt> = Vec::new();
            proof {
                lemma_stmts_push(v@, Stmt::Expr(e));
                assert(spec_stmts(v@) =~= Seq::empty());
            }
            v.push(Stmt::Expr(e));
            v
        };
        Ok(MatchArm { pattern, body })
    }

    // ── Lists ─────────────────────────────────────────────────────────────────

    #[verifier::loop_isolation(false)]
    #[verifier::spinoff_prover]
    fn parse_arg_list(&mut self) -> (r: ParseResult<Vec<Expr>>)
        requires
            old(self).wf(),
        ensures
            final(self).wf(),
            final(self).toks() == old(self).toks(),
            old(self).pos <= final(self).pos,
            r is Ok ==> ok_with(g_args(old(self).toks(), old(self).pos as int, Seq::empty()), spec_exprs(ok_part(r)@), final(self).pos - old(self).pos),
            r is Err ==> fails_with(g_args(old(self).toks(), old(self).pos as int, Seq::empty()), err_part(r)@),
        decreases old(self).tokens@.len() - old(self).pos, 17int,
    {
        let ghost t = self.toks();
        let ghost j0 = self.pos as int;
        let mut args: Vec<Expr> = Vec::new();
        proof {
            assert(spec_exprs(args@) =~= Seq::empty());
        }
        while !matches!(self.peek(), Token::RParen | Token::EOF)
            invariant
                self.wf(),
                self.toks() == t,
                t == old(self).toks(),
                j0 == old(self).pos,
                j0 <= self.pos,
                shift(g_args(t, self.pos as int, spec_exprs(args@)), (self.pos - j0) as nat)
                    == g_args(t, j0, Seq::empty()),
            decreases self.tokens@.len() - self.pos,
        {
            let ghost p = self.pos as int;
            let ghost acc = spec_exprs(args@);
            let e = match self.parse_expr() {
                Ok(e) => e,
                Err(err) => {
                    proof {
                        lemma_args_fail(t, p, acc, err@);
                    }
                    return Err(err);
                },
            };
            let ghost ev = e@;
            let ghost c = (self.pos - p) as nat;
            proof {
                lemma_exprs_push(args@, e);
            }
            args.push(e);
            if matches!(self.peek(), Token::Comma) {
                proof {
                    lemma_args_comma(t, p, acc, ev, c);
                    lemma_shift_shift(g_args(t, p + c + 1, acc.push(ev)), c + 1, (p - j0) as nat);
                }
                self.advance();
            } else {
                proof {
                    lemma_args_last(t, p, acc, ev, c);
                }
                break;
            }
        }
        proof {
            if tk(t, self.pos as int) is RParen || tk(t, self.pos as int) is EOF {
                lemma_args_end(t, self.pos as int, spec_exprs(args@));
            }
        }
        Ok(args)
    }

    /// One struct literal field `name: expr`.
    #[verifier::spinoff_prover]
    fn parse_field_init(&mut self) -> (r: ParseResult<(String, Expr)>)
        requires
            old(self).wf(),
        ensures
            final(self).wf(),
            final(self).toks() == old(self).toks(),
            old(self).pos <= final(self).pos,
            r is Ok ==> ok_with(field_init_at(old(self).toks(), old(self).pos as int), (ok_part(r).0@, ok_part(r).1@), final(self).pos - old(self).pos),
            r is Err ==> fails_with(field_init_at(old(self).toks(), old(self).pos as int), err_part(r)@),
        decreases old(self).tokens@.len() - old(self).pos, 0int,
    {
        proof { reveal(g_expr); }
        let name = self.expect_ident()?;
        self.expect(&Token::Colon)?;
        let value = self.parse_expr()?;
        Ok((name, value))
    }

    #[verifier::loop_isolation(false)]
    #[verifier::spinoff_prover]
    fn parse_struct_literal_fields(&mut self) -> (r: ParseResult<Vec<(String, Expr)>>)
        requires
            old(self).wf(),
        ensures
            final(self).wf(),
            final(self).toks() == old(self).toks(),
            old(self).pos <= final(self).pos,
            r is Ok ==> ok_with(g_field_inits(old(self).toks(), old(self).pos as int, Seq::empty()), spec_field_inits(ok_part(r)@), final(self).pos - old(self).pos),
            r is Err ==> fails_with(g_field_inits(old(self).toks(), old(self).pos as int, Seq::empty()), err_part(r)@),
        decreases old(self).tokens@.len() - old(self).pos, 17int,
    {
        let ghost t = self.toks();
        let ghost j0 = self.pos as int;
        let mut fields: Vec<(String, Expr)> = Vec::new();
        proof {
            assert(spec_field_inits(fields@) =~= Seq::empty());
        }
        while !matches!(self.peek(), Token::RBrace | Token::EOF)
            invariant
                self.wf(),
                self.toks() == t,
                t == old(self).toks(),
                j0 == old(self).pos,
                j0 <= self.pos,
                shift(g_field_inits(t, self.pos as int, spec_field_inits(fields@)), (self.pos - j0) as nat)
                    == g_field_inits(t, j0, Seq::empty()),
            decreases self.tokens@.len() - self.pos,
        {
            let ghost p = self.pos as int;
            let ghost acc = spec_field_inits(fields@);
            let f = match self.parse_field_init() {
                Ok(f) => f,
                Err(err) => {
                    proof {
                        lemma_inits_fail(t, p, acc, err@);
                    }
                    return Err(err);
                },
            };
            let ghost fv = (f.0@, f.1@);
            let ghost c = (self.pos - p) as nat;
            proof {
                lemma_field_inits_push(fields@, f);
            }
            fields.push(f);
            if matches!(self.peek(), Token::Comma) {
                proof {
                    lemma_inits_comma(t, p, acc, fv, c);
                    lemma_shift_shift(g_field_inits(t, p + c + 1, acc.push(fv)), c + 1, (p - j0) as nat);
                }
                self.advance();
            } else {
                proof {
                    lemma_inits_last(t, p, acc, fv, c);
                }
                break;
            }
        }
        proof {
            if tk(t, self.pos as int) is RBrace || tk(t, self.pos as int) is EOF {
                lemma_inits_end(t, self.pos as int, spec_field_inits(fields@));
            }
        }
        Ok(fields)
    }

    /// After `Name`, does the `{` at the current position start a struct literal
    /// (`{ ident :`) rather than a block?
    fn is_struct_literal(&self) -> (b: bool)
        requires
            self.wf(),
        ensures
            b == g_is_struct_literal(self.toks(), self.pos as int),
    {
        if self.tokens.len() < 2 || self.pos >= self.tokens.len() - 2 {
            return false;
        }
        matches!(self.tokens[self.pos + 1].0, Token::Ident(_)) && matches!(self.tokens[self.pos + 2].0, Token::Colon)
    }

    // ── Blocks and statements ─────────────────────────────────────────────────

    #[verifier::loop_isolation(false)]
    #[verifier::spinoff_prover]
    fn parse_block(&mut self) -> (r: ParseResult<Vec<Stmt>>)
        requires
            old(self).wf(),
        ensures
            final(self).wf(),
            final(self).toks() == old(self).toks(),
            old(self).pos <= final(self).pos,
            r is Ok ==> ok_with(g_block(old(self).toks(), old(self).pos as int), spec_stmts(ok_part(r)@), final(self).pos - old(self).pos),
            r is Err ==> fails_with(g_block(old(self).toks(), old(self).pos as int), err_part(r)@),
        decreases old(self).tokens@.len() - old(self).pos, 20int,
    {
        proof { reveal(g_block); reveal(g_stmts); }
        let ghost t = self.toks();
        let mut stmts: Vec<Stmt> = Vec::new();
        self.skip_semis();
        let ghost j0 = self.pos as int;
        proof {
            assert(spec_stmts(stmts@) =~= Seq::empty());
        }
        while !matches!(self.peek(), Token::RBrace | Token::EOF)
            invariant
                self.wf(),
                self.toks() == t,
                t == old(self).toks(),
                old(self).pos <= self.pos,
                old(self).pos <= j0 <= self.pos,
                j0 == old(self).pos + g_semis(t, old(self).pos as int),
                t == old(self).toks(),
                shift(g_stmts(t, self.pos as int, spec_stmts(stmts@)), (self.pos - j0) as nat)
                    == g_stmts(t, j0, Seq::empty()),
            decreases self.tokens@.len() - self.pos,
        {
            proof { reveal(g_block); reveal(g_stmts); }
            let s = self.parse_stmt()?;
            proof {
                lemma_stmts_push(stmts@, s);
            }
            stmts.push(s);
            self.skip_semis();
        }
        Ok(stmts)
    }

    #[verifier::rlimit(50)]
    #[verifier::spinoff_prover]
    fn parse_stmt(&mut self) -> (r: ParseResult<Stmt>)
        requires
            old(self).wf(),
        ensures
            final(self).wf(),
            final(self).toks() == old(self).toks(),
            old(self).pos <= final(self).pos,
            r is Ok ==> old(self).pos < final(self).pos,
            r is Ok ==> ok_with(g_stmt(old(self).toks(), old(self).pos as int), ok_part(r)@, final(self).pos - old(self).pos),
            r is Err ==> fails_with(g_stmt(old(self).toks(), old(self).pos as int), err_part(r)@),
        decreases old(self).tokens@.len() - old(self).pos, 18int,
    {
        proof { lemma_stmt_unfold(self.toks(), self.pos as int); reveal(g_aug_then); }
        let line = self.line();
        match self.peek() {
            Token::Let => self.parse_let(),
            Token::Return => self.parse_return(),
            Token::If => Ok(Stmt::Expr(self.parse_if()?)),
            Token::While => self.parse_while(),
            Token::For => self.parse_for(),
            Token::Break => {
                self.advance();
                Ok(Stmt::Break { line })
            },
            Token::Continue => {
                self.advance();
                Ok(Stmt::Continue { line })
            },
            Token::Ident(_) => {
                let expr = self.parse_expr()?;
                if matches!(self.peek(), Token::Assign) {
                    self.advance();
                    let value = self.parse_expr()?;
                    match expr_to_assign_target(expr) {
                        Some(target) => Ok(Stmt::Assign { target, value, line }),
                        None => Err(ParseError { message: String::from_str("invalid assignment target"), line }),
                    }
                } else if matches!(self.peek(), Token::PlusAssign) {
                    self.parse_aug_assign(expr, BinOp::Add, line)
                } else if matches!(self.peek(), Token::MinusAssign) {
                    self.parse_aug_assign(expr, BinOp::Sub, line)
                } else if matches!(self.peek(), Token::StarAssign) {
                    self.parse_aug_assign(expr, BinOp::Mul, line)
                } else if matches!(self.peek(), Token::SlashAssign) {
                    self.parse_aug_assign(expr, BinOp::Div, line)
                } else {
                    Ok(Stmt::Expr(expr))
                }
            },
            _ => Ok(Stmt::Expr(self.parse_expr()?)),
        }
    }

    fn parse_let(&mut self) -> (r: ParseResult<Stmt>)
        requires
            old(self).wf(),
        ensures
            final(self).wf(),
            final(self).toks() == old(self).toks(),
            old(self).pos <= final(self).pos,
            r is Ok ==> old(self).pos < final(self).pos,
            r is Ok ==> ok_with(g_let(old(self).toks(), old(self).pos as int), ok_part(r)@, final(self).pos - old(self).pos),
            r is Err ==> fails_with(g_let(old(self).toks(), old(self).pos as int), err_part(r)@),
        decreases old(self).tokens@.len() - old(self).pos, 17int,
    {
        proof { lemma_let_unfold(self.toks(), self.pos as int); }
        let line = self.line();
        self.expect(&Token::Let)?;
        let mutable = if matches!(self.peek(), Token::Mut) {
            self.advance();
            true
        } else {
            false
        };
        let name = self.expect_ident()?;
        let ty = if matches!(self.peek(), Token::Colon) {
            self.advance();
            Some(self.parse_type()?)
        } else {
            None
        };
        self.expect(&Token::Assign)?;
        let value = self.parse_expr()?;
        Ok(Stmt::Let { name, ty, value, mutable, line })
    }

    fn parse_return(&mut self) -> (r: ParseResult<Stmt>)
        requires
            old(self).wf(),
        ensures
            final(self).wf(),
            final(self).toks() == old(self).toks(),
            old(self).pos <= final(self).pos,
            r is Ok ==> old(self).pos < final(self).pos,
            r is Ok ==> ok_with(g_return(old(self).toks(), old(self).pos as int), ok_part(r)@, final(self).pos - old(self).pos),
            r is Err ==> fails_with(g_return(old(self).toks(), old(self).pos as int), err_part(r)@),
        decreases old(self).tokens@.len() - old(self).pos, 17int,
    {
        proof { lemma_return_unfold(self.toks(), self.pos as int); }
        let line = self.line();
        self.expect(&Token::Return)?;
        let value = if matches!(self.peek(), Token::RBrace | Token::Semicolon | Token::EOF) {
            None
        } else {
            Some(self.parse_expr()?)
        };
        Ok(Stmt::Return { value, line })
    }

    fn parse_while(&mut self) -> (r: ParseResult<Stmt>)
        requires
            old(self).wf(),
        ensures
            final(self).wf(),
            final(self).toks() == old(self).toks(),
            old(self).pos <= final(self).pos,
            r is Ok ==> old(self).pos < final(self).pos,
            r is Ok ==> ok_with(g_while(old(self).toks(), old(self).pos as int), ok_part(r)@, final(self).pos - old(self).pos),
            r is Err ==> fails_with(g_while(old(self).toks(), old(self).pos as int), err_part(r)@),
        decreases old(self).tokens@.len() - old(self).pos, 17int,
    {
        proof { lemma_while_unfold(self.toks(), self.pos as int); }
        let line = self.line();
        self.expect(&Token::While)?;
        let cond = self.parse_expr()?;
        self.expect(&Token::LBrace)?;
        let body = self.parse_block()?;
        self.expect(&Token::RBrace)?;
        Ok(Stmt::While { cond, body, line })
    }

    fn parse_for(&mut self) -> (r: ParseResult<Stmt>)
        requires
            old(self).wf(),
        ensures
            final(self).wf(),
            final(self).toks() == old(self).toks(),
            old(self).pos <= final(self).pos,
            r is Ok ==> old(self).pos < final(self).pos,
            r is Ok ==> ok_with(g_for(old(self).toks(), old(self).pos as int), ok_part(r)@, final(self).pos - old(self).pos),
            r is Err ==> fails_with(g_for(old(self).toks(), old(self).pos as int), err_part(r)@),
        decreases old(self).tokens@.len() - old(self).pos, 17int,
    {
        proof { lemma_for_unfold(self.toks(), self.pos as int); }
        let ghost t = self.toks();
        let ghost i = self.pos as int;
        let line = self.line();
        self.expect(&Token::For)?;
        let var = self.expect_ident()?;
        self.expect(&Token::In)?;
        proof {
            assert(g_expect(t, i, SpecToken::For) == Ok::<nat, SpecParseError>(1nat));
            assert(g_ident(t, i + 1) == Ok::<(Seq<char>, nat), SpecParseError>((var@, 1nat)));
            assert(g_expect(t, i + 2, SpecToken::In) == Ok::<nat, SpecParseError>(1nat));
        }
        let iter = match self.parse_expr() {
            Ok(e) => e,
            Err(e) => {
                proof { assert(fails_with(g_expr(t, i + 3), e@)); }
                return Err(e);
            },
        };
        let ghost c1 = self.pos - i - 3;
        proof { assert(ok_with(g_expr(t, i + 3), iter@, c1)); }
        self.expect(&Token::LBrace)?;
        let body = match self.parse_block() {
            Ok(b) => b,
            Err(e) => {
                proof { assert(fails_with(g_block(t, i + 4 + c1), e@)); }
                return Err(e);
            },
        };
        proof { assert(ok_with(g_block(t, i + 4 + c1), spec_stmts(body@), self.pos - i - 4 - c1)); }
        self.expect(&Token::RBrace)?;
        Ok(Stmt::For { var, iter, body, line })
    }

    /// `target op= rhs`, desugared to `target = target op rhs`; the operator is the
    /// current token.
    fn parse_aug_assign(&mut self, target_expr: Expr, op: BinOp, line: usize) -> (r: ParseResult<Stmt>)
        requires
            old(self).wf(),
            !(old(self).toks()[old(self).pos as int].0 is EOF),
        ensures
            final(self).wf(),
            final(self).toks() == old(self).toks(),
            old(self).pos <= final(self).pos,
            r is Ok ==> old(self).pos < final(self).pos,
            r is Ok ==> ok_with(g_aug_assign(old(self).toks(), old(self).pos as int, target_expr@, op, line), ok_part(r)@, final(self).pos - old(self).pos),
            r is Err ==> fails_with(g_aug_assign(old(self).toks(), old(self).pos as int, target_expr@, op, line), err_part(r)@),
        decreases old(self).tokens@.len() - old(self).pos, 0int,
    {
        proof { lemma_aug_assign_unfold(self.toks(), self.pos as int, target_expr@, op, line); }
        self.advance();
        let rhs = self.parse_expr()?;
        let target = match expr_to_assign_target(copy_expr(&target_expr)) {
            Some(t) => t,
            None => {
                return Err(ParseError { message: String::from_str("invalid assignment target"), line });
            },
        };
        let value = Expr::BinOp { op, left: Box::new(target_expr), right: Box::new(rhs), line };
        Ok(Stmt::Assign { target, value, line })
    }

    // ── Items ─────────────────────────────────────────────────────────────────

    /// Parse a whole file into its top-level items.
    #[verifier::loop_isolation(false)]
    pub fn parse(&mut self) -> (r: ParseResult<Vec<Item>>)
        requires
            old(self).wf(),
        ensures
            final(self).wf(),
            final(self).toks() == old(self).toks(),
            r is Ok ==> g_program_from(old(self).toks(), old(self).position()) == Ok::<Seq<SpecItem>, SpecParseError>(spec_items(ok_part(r)@)),
            r is Err ==> g_program_from(old(self).toks(), old(self).position()) == Err::<Seq<SpecItem>, SpecParseError>(err_part(r)@),
    {
        proof { reveal(g_program_from); reveal(g_items); }
        let ghost t = self.toks();
        let mut items: Vec<Item> = Vec::new();
        self.skip_semis();
        let ghost j0 = self.pos as int;
        proof {
            assert(spec_items(items@) =~= Seq::empty());
        }
        while !self.at_end()
            invariant
                self.wf(),
                self.toks() == t,
                t == old(self).toks(),
                old(self).pos <= self.pos,
                t == old(self).toks(),
                j0 == old(self).pos + g_semis(t, old(self).pos as int),
                j0 <= self.pos,
                shift(g_items(t, self.pos as int, spec_items(items@)), (self.pos - j0) as nat)
                    == g_items(t, j0, Seq::empty()),
            decreases self.tokens@.len() - self.pos,
        {
            proof { reveal(g_program_from); reveal(g_items); }
            let item = self.parse_item()?;
            self.skip_semis();
            proof {
                assert(spec_items(items@.push(item)) =~= spec_items(items@).push(item@));
            }
            items.push(item);
        }
        Ok(items)
    }

    fn parse_item(&mut self) -> (r: ParseResult<Item>)
        requires
            old(self).wf(),
        ensures
            final(self).wf(),
            final(self).toks() == old(self).toks(),
            old(self).pos <= final(self).pos,
            r is Ok ==> old(self).pos < final(self).pos,
            r is Ok ==> ok_with(g_item(old(self).toks(), old(self).pos as int), ok_part(r)@, final(self).pos - old(self).pos),
            r is Err ==> fails_with(g_item(old(self).toks(), old(self).pos as int), err_part(r)@),
    {
        proof { lemma_item_unfold(self.toks(), self.pos as int); }
        match self.peek() {
            Token::Fn => Ok(Item::Fn(self.parse_fn()?)),
            Token::Struct => Ok(Item::Struct(self.parse_struct()?)),
            Token::Impl => Ok(Item::Impl(self.parse_impl()?)),
            _ => Err(err_with("expected top-level item (fn, struct, impl), found ", self.peek(), self.line())),
        }
    }

    fn parse_fn(&mut self) -> (r: ParseResult<FnDef>)
        requires
            old(self).wf(),
        ensures
            final(self).wf(),
            final(self).toks() == old(self).toks(),
            old(self).pos <= final(self).pos,
            r is Ok ==> old(self).pos < final(self).pos,
            r is Ok ==> ok_with(g_fn(old(self).toks(), old(self).pos as int), ok_part(r)@, final(self).pos - old(self).pos),
            r is Err ==> fails_with(g_fn(old(self).toks(), old(self).pos as int), err_part(r)@),
    {
        proof { lemma_fn_unfold(self.toks(), self.pos as int); }
        let line = self.line();
        self.expect(&Token::Fn)?;
        let name = self.expect_ident()?;
        self.expect(&Token::LParen)?;
        let params = self.parse_param_list()?;
        self.expect(&Token::RParen)?;
        let ret = if matches!(self.peek(), Token::Arrow) {
            self.advance();
            self.parse_type()?
        } else {
            Type::Void
        };
        self.expect(&Token::LBrace)?;
        let body = self.parse_block()?;
        self.expect(&Token::RBrace)?;
        Ok(FnDef { name, params, ret, body, line })
    }

    /// An optional leading `self` or `mut self`, with the comma after it.
    fn parse_receiver(&mut self) -> (params: Vec<Param>)
        requires
            old(self).wf(),
        ensures
            final(self).wf(),
            final(self).toks() == old(self).toks(),
            spec_params(params@) == g_params_first(old(self).toks(), old(self).pos as int).0,
            final(self).pos == old(self).pos + g_params_first(old(self).toks(), old(self).pos as int).1,
    {
        let mut params: Vec<Param> = Vec::new();
        proof {
            reveal_strlit("self");
            assert("self"@ =~= self_name());
        }
        if matches!(self.peek(), Token::Self_) {
            params.push(Param { name: String::from_str("self"), ty: Type::SelfType, mutable: false });
            self.advance();
            if matches!(self.peek(), Token::Comma) {
                self.advance();
            }
        } else if matches!(self.peek(), Token::Mut) && matches!(self.peek2(), Token::Self_) {
            self.advance();
            self.advance();
            params.push(Param { name: String::from_str("self"), ty: Type::SelfType, mutable: true });
            if matches!(self.peek(), Token::Comma) {
                self.advance();
            }
        }
        proof {
            assert(spec_params(params@) =~= g_params_first(old(self).toks(), old(self).pos as int).0);
        }
        params
    }

    #[verifier::loop_isolation(false)]
    fn parse_param_list(&mut self) -> (r: ParseResult<Vec<Param>>)
        requires
            old(self).wf(),
        ensures
            final(self).wf(),
            final(self).toks() == old(self).toks(),
            old(self).pos <= final(self).pos,
            r is Ok ==> ok_with(g_params(old(self).toks(), old(self).pos as int), spec_params(ok_part(r)@), final(self).pos - old(self).pos),
            r is Err ==> fails_with(g_params(old(self).toks(), old(self).pos as int), err_part(r)@),
    {
        let ghost t = self.toks();
        let ghost i = self.pos as int;
        let mut params = self.parse_receiver();
        let ghost j0 = self.pos as int;
        let ghost first = spec_params(params@);
        proof {
            assert(g_params(t, i) == match g_params_rest(t, j0, first) {
                Err(e) => Err(e),
                Ok((ps, c2)) => Ok((ps, (j0 - i + c2) as nat)),
            }) by {
                reveal(g_params);
            }
        }
        while !matches!(self.peek(), Token::RParen | Token::EOF)
            invariant
                self.wf(),
                self.toks() == t,
                t == old(self).toks(),
                i == old(self).pos,
                i <= j0 <= self.pos,
                shift(g_params_rest(t, self.pos as int, spec_params(params@)), (self.pos - j0) as nat)
                    == g_params_rest(t, j0, first),
            decreases self.tokens@.len() - self.pos,
        {
            let ghost p = self.pos as int;
            let ghost acc = spec_params(params@);
            let prm = match self.parse_param() {
                Ok(x) => x,
                Err(e) => {
                    proof {
                        lemma_params_fail(t, p, acc, e@);
                    }
                    return Err(e);
                },
            };
            let ghost pv = prm@;
            let ghost c = (self.pos - p) as nat;
            proof {
                assert(spec_params(params@.push(prm)) =~= acc.push(pv));
            }
            params.push(prm);
            if matches!(self.peek(), Token::Comma) {
                proof {
                    lemma_params_comma(t, p, acc, pv, c);
                    lemma_shift_shift(g_params_rest(t, p + c + 1, acc.push(pv)), c + 1, (p - j0) as nat);
                }
                self.advance();
            } else {
                proof {
                    lemma_params_last(t, p, acc, pv, c);
                }
                break;
            }
        }
        proof {
            if tk(t, self.pos as int) is RParen || tk(t, self.pos as int) is EOF {
                lemma_params_end(t, self.pos as int, spec_params(params@));
            }
        }
        Ok(params)
    }

    /// One parameter: `[mut] name: Type`.
    fn parse_param(&mut self) -> (r: ParseResult<Param>)
        requires
            old(self).wf(),
        ensures
            final(self).wf(),
            final(self).toks() == old(self).toks(),
            old(self).pos <= final(self).pos,
            r is Ok ==> old(self).pos < final(self).pos,
            r is Ok ==> ok_with(g_param(old(self).toks(), old(self).pos as int), ok_part(r)@, final(self).pos - old(self).pos),
            r is Err ==> fails_with(g_param(old(self).toks(), old(self).pos as int), err_part(r)@),
    {
        let mutable = if matches!(self.peek(), Token::Mut) {
            self.advance();
            true
        } else {
            false
        };
        let name = self.expect_ident()?;
        self.expect(&Token::Colon)?;
        let ty = self.parse_type()?;
        Ok(Param { name, ty, mutable })
    }

    /// One struct field: `name: Type`.
    fn parse_field(&mut self) -> (r: ParseResult<StructField>)
        requires
            old(self).wf(),
        ensures
            final(self).wf(),
            final(self).toks() == old(self).toks(),
            old(self).pos <= final(self).pos,
            r is Ok ==> old(self).pos < final(self).pos,
            r is Ok ==> ok_with(g_field(old(self).toks(), old(self).pos as int), ok_part(r)@, final(self).pos - old(self).pos),
            r is Err ==> fails_with(g_field(old(self).toks(), old(self).pos as int), err_part(r)@),
    {
        let name = self.expect_ident()?;
        self.expect(&Token::Colon)?;
        let ty = self.parse_type()?;
        Ok(StructField { name, ty })
    }

    #[verifier::loop_isolation(false)]
    fn parse_struct(&mut self) -> (r: ParseResult<StructDef>)
        requires
            old(self).wf(),
        ensures
            final(self).wf(),
            final(self).toks() == old(self).toks(),
            old(self).pos <= final(self).pos,
            r is Ok ==> old(self).pos < final(self).pos,
            r is Ok ==> ok_with(g_struct(old(self).toks(), old(self).pos as int), ok_part(r)@, final(self).pos - old(self).pos),
            r is Err ==> fails_with(g_struct(old(self).toks(), old(self).pos as int), err_part(r)@),
    {
        proof { lemma_struct_unfold(self.toks(), self.pos as int); }
        let ghost t = self.toks();
        let ghost i = self.pos as int;
        let line = self.line();
        self.expect(&Token::Struct)?;
        let name = self.expect_ident()?;
        self.expect(&Token::LBrace)?;
        let ghost j0 = self.pos as int;
        let ghost nm = name@;
        let mut fields: Vec<StructField> = Vec::new();
        proof {
            assert(spec_struct_fields(fields@) =~= Seq::empty());
            assert(g_struct(t, i) == match g_fields(t, j0, Seq::empty()) {
                Err(e) => Err(e),
                Ok((fs, c)) => match g_expect(t, j0 + c, SpecToken::RBrace) {
                    Err(e) => Err(e),
                    Ok(_) => Ok((SpecStructDef { name: nm, fields: fs, line }, 4 + c)),
                },
            });
        }
        while !matches!(self.peek(), Token::RBrace | Token::EOF)
            invariant
                self.wf(),
                self.toks() == t,
                t == old(self).toks(),
                i == old(self).pos,
                i < j0 <= self.pos,
                shift(g_fields(t, self.pos as int, spec_struct_fields(fields@)), (self.pos - j0) as nat)
                    == g_fields(t, j0, Seq::empty()),
            decreases self.tokens@.len() - self.pos,
        {
            let ghost p = self.pos as int;
            let ghost acc = spec_struct_fields(fields@);
            self.skip_semis();
            if matches!(self.peek(), Token::RBrace) {
                proof {
                    lemma_fields_semis_end(t, p, acc);
                }
                break;
            }
            let ghost k = self.pos as int;
            let f = match self.parse_field() {
                Ok(f) => f,
                Err(e) => {
                    proof {
                        lemma_fields_fail(t, p, acc, e@);
                    }
                    return Err(e);
                },
            };
            let ghost fv = f@;
            let ghost cf = (self.pos - k) as nat;
            proof {
                assert(spec_struct_fields(fields@.push(f)) =~= acc.push(fv));
            }
            fields.push(f);
            self.skip_semis();
            if matches!(self.peek(), Token::Comma) {
                self.advance();
            }
            proof {
                lemma_fields_step(t, p, acc, fv, cf, self.pos as int);
                lemma_shift_shift(g_fields(t, self.pos as int, acc.push(fv)), (self.pos - p) as nat, (p - j0) as nat);
            }
        }
        proof {
            if tk(t, self.pos as int) is RBrace || tk(t, self.pos as int) is EOF {
                lemma_fields_end(t, self.pos as int, spec_struct_fields(fields@));
            }
        }
        self.expect(&Token::RBrace)?;
        Ok(StructDef { name, fields, line })
    }

    #[verifier::loop_isolation(false)]
    fn parse_impl(&mut self) -> (r: ParseResult<ImplBlock>)
        requires
            old(self).wf(),
        ensures
            final(self).wf(),
            final(self).toks() == old(self).toks(),
            old(self).pos <= final(self).pos,
            r is Ok ==> old(self).pos < final(self).pos,
            r is Ok ==> ok_with(g_impl(old(self).toks(), old(self).pos as int), ok_part(r)@, final(self).pos - old(self).pos),
            r is Err ==> fails_with(g_impl(old(self).toks(), old(self).pos as int), err_part(r)@),
    {
        proof { reveal(g_impl); reveal(g_methods); }
        let ghost t = self.toks();
        let line = self.line();
        self.expect(&Token::Impl)?;
        let struct_name = self.expect_ident()?;
        self.expect(&Token::LBrace)?;
        let mut methods: Vec<FnDef> = Vec::new();
        self.skip_semis();
        let ghost j0 = self.pos as int;
        proof {
            assert(spec_fn_defs(methods@) =~= Seq::empty());
        }
        while !matches!(self.peek(), Token::RBrace | Token::EOF)
            invariant
                self.wf(),
                self.toks() == t,
                t == old(self).toks(),
                old(self).pos <= self.pos,
                old(self).pos < j0 <= self.pos,
                j0 == old(self).pos + 3 + g_semis(t, old(self).pos + 3),
                shift(g_methods(t, self.pos as int, spec_fn_defs(methods@)), (self.pos - j0) as nat)
                    == g_methods(t, j0, Seq::empty()),
            decreases self.tokens@.len() - self.pos,
        {
            proof { reveal(g_impl); reveal(g_methods); }
            let f = self.parse_fn()?;
            self.skip_semis();
            proof {
                assert(spec_fn_defs(methods@.push(f)) =~= spec_fn_defs(methods@).push(f@));
            }
            methods.push(f);
        }
        self.expect(&Token::RBrace)?;
        Ok(ImplBlock { struct_name, methods, line })
    }
}

fn type_of_name(name: &String) -> (ty: Type)
    ensures
        ty@ == named_type(name@),
{
    let w = chars_of(name.as_str());
    if word3(&w, 'i', '3', '2') {
        Type::I32
    } else if word3(&w, 'i', '6', '4') {
        Type::I64
    } else if word3(&w, 'f', '6', '4') {
        Type::F64
    } else if word4(&w, 'b', 'o', 'o', 'l') {
        Type::Bool
    } else if word3(&w, 's', 't', 'r') {
        Type::Str
    } else if word4(&w, 'v', 'o', 'i', 'd') {
        Type::Void
    } else {
        Type::Named(name.clone())
    }
}

/// The operator that a token stands for at binary level `k`.
fn bin_op_of(t: &Token, k: u8) -> (op: Option<BinOp>)
    requires
        1 <= k <= 6,
    ensures
        op == bin_op_at(t@, k as int),
{
    if k == 1 {
        match t {
            Token::Star => Some(BinOp::Mul),
            Token::Slash => Some(BinOp::Div),
            Token::Percent => Some(BinOp::Mod),
            _ => None,
        }
    } else if k == 2 {
        match t {
            Token::Plus => Some(BinOp::Add),
            Token::Minus => Some(BinOp::Sub),
            _ => None,
        }
    } else if k == 3 {
        match t {
            Token::Lt => Some(BinOp::Lt),
            Token::Gt => Some(BinOp::Gt),
            Token::LtEq => Some(BinOp::LtEq),
            Token::GtEq => Some(BinOp::GtEq),
            _ => None,
        }
    } else if k == 4 {
        match t {
            Token::Eq => Some(BinOp::Eq),
            Token::NotEq => Some(BinOp::NotEq),
            _ => None,
        }
    } else if k == 5 {
        match t {
            Token::And => Some(BinOp::And),
            _ => None,
        }
    } else {
        match t {
            Token::Or => Some(BinOp::Or),
            _ => None,
        }
    }
}

/// Whatever text the tokeniser reads, its token list is one the parser accepts
/// as input.
pub proof fn lemma_tokenize_feeds_parser(src: Seq<char>)
    ensures
        well_formed_tokens(spec_tokenize(src)),
{
    crate::lexer::lemma_tokens_end_with_eof(src, 0);
}

} // verus!
