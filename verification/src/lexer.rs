//! The tokeniser: turns Pebble source text into a list of (token, line) pairs.
use vstd::prelude::*;

pub use crate::ast::Token;
use crate::ast::SpecToken;
use crate::text::{char_is_alphanumeric, char_is_whitespace, chars_of, is_alphanumeric, is_whitespace, string_from_chars};

verus! {

// ─── Specification of the token grammar ───────────────────────────────────────

pub open spec fn char_at(s: Seq<char>, i: int) -> Option<char> {
    if 0 <= i < s.len() {
        Some(s[i])
    } else {
        None
    }
}

pub open spec fn is_digit(c: char) -> bool {
    '0' <= c && c <= '9'
}

/// Number of newline characters in `s`.
pub open spec fn newlines(s: Seq<char>) -> nat
    decreases s.len(),
{
    if s.len() == 0 {
        0
    } else {
        newlines(s.drop_last()) + if s.last() == '\n' { 1nat } else { 0nat }
    }
}

/// The line (counting from 1) on which position `p` of `s` lies.
pub open spec fn line_at(s: Seq<char>, p: int) -> int {
    1 + newlines(s.take(p)) as int
}

/// First position at or after `i` that does not hold whitespace.
pub open spec fn skip_ws(s: Seq<char>, i: int) -> int
    decreases s.len() - i,
{
    if 0 <= i < s.len() && char_is_whitespace(s[i]) {
        skip_ws(s, i + 1)
    } else {
        i
    }
}

/// End of a `//` comment whose text starts at `i`: the next newline, or the end.
pub open spec fn line_comment_end(s: Seq<char>, i: int) -> int
    decreases s.len() - i,
{
    if 0 <= i < s.len() && s[i] != '\n' {
        line_comment_end(s, i + 1)
    } else {
        i
    }
}

/// End of a `/* */` comment whose text starts at `i`: just after the first `*/`, or the end.
pub open spec fn block_comment_end(s: Seq<char>, i: int) -> int
    decreases s.len() - i,
{
    if i < 0 || i >= s.len() {
        i
    } else if s[i] == '*' && i + 1 < s.len() && s[i + 1] == '/' {
        i + 2
    } else {
        block_comment_end(s, i + 1)
    }
}

pub open spec fn digits_end(s: Seq<char>, i: int) -> int
    decreases s.len() - i,
{
    if 0 <= i < s.len() && is_digit(s[i]) {
        digits_end(s, i + 1)
    } else {
        i
    }
}

pub open spec fn ascii_alnum(c: char) -> bool {
    ('a' <= c && c <= 'z') || ('A' <= c && c <= 'Z') || ('0' <= c && c <= '9')
}

/// Characters that continue an identifier: alphanumeric ones (ASCII letters and
/// digits among them) and `_`.
pub open spec fn ident_char(c: char) -> bool {
    ascii_alnum(c) || char_is_alphanumeric(c) || c == '_'
}

pub open spec fn ident_end(s: Seq<char>, i: int) -> int
    decreases s.len() - i,
{
    if 0 <= i < s.len() && ident_char(s[i]) {
        ident_end(s, i + 1)
    } else {
        i
    }
}

/// Decimal value of a sequence of digits.
pub open spec fn digits_value(d: Seq<char>) -> int
    decreases d.len(),
{
    if d.len() == 0 {
        0
    } else {
        digits_value(d.drop_last()) * 10 + (d.last() as int - '0' as int)
    }
}

/// An integer literal: its value when it fits in an `i64`, and 0 otherwise.
pub open spec fn int_literal(d: Seq<char>) -> i64 {
    if digits_value(d) <= i64::MAX {
        digits_value(d) as i64
    } else {
        0
    }
}

/// The character that an escape `\c` stands for.
pub open spec fn unescape(c: char) -> char {
    if c == 'n' {
        '\n'
    } else if c == 't' {
        '\t'
    } else if c == 'r' {
        '\r'
    } else {
        c
    }
}

/// The contents of a string literal whose text starts at `i` (after the opening
/// quote), and the position just after it.
pub open spec fn string_body(s: Seq<char>, i: int) -> (Seq<char>, int)
    decreases s.len() - i,
{
    if i < 0 || i >= s.len() {
        (Seq::empty(), i)
    } else if s[i] == '"' {
        (Seq::empty(), i + 1)
    } else if s[i] == '\\' {
        if i + 1 >= s.len() {
            (Seq::empty(), i + 1)
        } else {
            let (rest, end) = string_body(s, i + 2);
            (seq![unescape(s[i + 1])] + rest, end)
        }
    } else {
        let (rest, end) = string_body(s, i + 1);
        (seq![s[i]] + rest, end)
    }
}

/// The token that a word of identifier characters stands for.
pub open spec fn keyword(w: Seq<char>) -> SpecToken {
    if w == seq!['_'] {
        SpecToken::Underscore
    } else if w == seq!['l', 'e', 't'] {
        SpecToken::Let
    } else if w == seq!['m', 'u', 't'] {
        SpecToken::Mut
    } else if w == seq!['f', 'n'] {
        SpecToken::Fn
    } else if w == seq!['r', 'e', 't', 'u', 'r', 'n'] {
        SpecToken::Return
    } else if w == seq!['i', 'f'] {
        SpecToken::If
    } else if w == seq!['e', 'l', 's', 'e'] {
        SpecToken::Else
    } else if w == seq!['w', 'h', 'i', 'l', 'e'] {
        SpecToken::While
    } else if w == seq!['f', 'o', 'r'] {
        SpecToken::For
    } else if w == seq!['i', 'n'] {
        SpecToken::In
    } else if w == seq!['b', 'r', 'e', 'a', 'k'] {
        SpecToken::Break
    } else if w == seq!['c', 'o', 'n', 't', 'i', 'n', 'u', 'e'] {
        SpecToken::Continue
    } else if w == seq!['m', 'a', 't', 'c', 'h'] {
        SpecToken::Match
    } else if w == seq!['s', 't', 'r', 'u', 'c', 't'] {
        SpecToken::Struct
    } else if w == seq!['i', 'm', 'p', 'l'] {
        SpecToken::Impl
    } else if w == seq!['s', 'e', 'l', 'f'] {
        SpecToken::Self_
    } else if w == seq!['a', 's'] {
        SpecToken::As
    } else if w == seq!['t', 'r', 'u', 'e'] {
        SpecToken::Bool(true)
    } else if w == seq!['f', 'a', 'l', 's', 'e'] {
        SpecToken::Bool(false)
    } else if w == seq!['n', 'o', 'n', 'e'] {
        SpecToken::None_
    } else {
        SpecToken::Ident(w)
    }
}

/// A number literal starting at `p`: the token and the position after it.
pub open spec fn number_at(s: Seq<char>, p: int) -> (SpecToken, int) {
    let q = digits_end(s, p);
    if char_at(s, q) == Some('.') && char_at(s, q + 1) != Some('.') && char_at(s, q + 1).is_some()
        && is_digit(s[q + 1]) {
        let r = digits_end(s, q + 1);
        (SpecToken::Float(s.subrange(p, r)), r)
    } else {
        (SpecToken::Int(int_literal(s.subrange(p, q))), q)
    }
}

/// A one- or two-character operator: `single` alone, or `double` when `second` follows.
pub open spec fn op2(s: Seq<char>, p: int, second: char, double: SpecToken, single: SpecToken) -> (SpecToken, int, int) {
    if char_at(s, p + 1) == Some(second) {
        (double, p, p + 2)
    } else {
        (single, p, p + 1)
    }
}

/// One step of the tokeniser from position `pos`: the token, the position where it
/// starts (which gives its line) and the position just after it.
pub open spec fn lex_step(s: Seq<char>, pos: int) -> (SpecToken, int, int)
    decreases s.len() - pos,
{
    let p = skip_ws(s, pos);
    if pos < 0 || p < pos || p >= s.len() {
        (SpecToken::EOF, p, p)
    } else {
        let c = s[p];
        if c == '+' {
            op2(s, p, '=', SpecToken::PlusAssign, SpecToken::Plus)
        } else if c == '-' {
            if char_at(s, p + 1) == Some('>') {
                (SpecToken::Arrow, p, p + 2)
            } else {
                op2(s, p, '=', SpecToken::MinusAssign, SpecToken::Minus)
            }
        } else if c == '*' {
            op2(s, p, '=', SpecToken::StarAssign, SpecToken::Star)
        } else if c == '/' {
            if char_at(s, p + 1) == Some('/') {
                let q = line_comment_end(s, p + 1);
                if q <= pos || q > s.len() { (SpecToken::EOF, p, p) } else { lex_step(s, q) }
            } else if char_at(s, p + 1) == Some('*') {
                let q = block_comment_end(s, p + 2);
                if q <= pos || q > s.len() { (SpecToken::EOF, p, p) } else { lex_step(s, q) }
            } else {
                op2(s, p, '=', SpecToken::SlashAssign, SpecToken::Slash)
            }
        } else if c == '%' {
            (SpecToken::Percent, p, p + 1)
        } else if c == '=' {
            if char_at(s, p + 1) == Some('=') {
                (SpecToken::Eq, p, p + 2)
            } else {
                op2(s, p, '>', SpecToken::FatArrow, SpecToken::Assign)
            }
        } else if c == '!' {
            op2(s, p, '=', SpecToken::NotEq, SpecToken::Bang)
        } else if c == '<' {
            op2(s, p, '=', SpecToken::LtEq, SpecToken::Lt)
        } else if c == '>' {
            op2(s, p, '=', SpecToken::GtEq, SpecToken::Gt)
        } else if c == '&' {
            if char_at(s, p + 1) == Some('&') {
                (SpecToken::And, p, p + 2)
            } else {
                lex_step(s, p + 1)
            }
        } else if c == '|' {
            if char_at(s, p + 1) == Some('|') {
                (SpecToken::Or, p, p + 2)
            } else {
                lex_step(s, p + 1)
            }
        } else if c == '.' {
            if char_at(s, p + 1) == Some('.') {
                if char_at(s, p + 2) == Some('=') {
                    (SpecToken::DotDotEq, p, p + 3)
                } else {
                    (SpecToken::DotDot, p, p + 2)
                }
            } else {
                (SpecToken::Dot, p, p + 1)
            }
        } else if c == ',' {
            (SpecToken::Comma, p, p + 1)
        } else if c == ':' {
            (SpecToken::Colon, p, p + 1)
        } else if c == ';' {
            (SpecToken::Semicolon, p, p + 1)
        } else if c == '(' {
            (SpecToken::LParen, p, p + 1)
        } else if c == ')' {
            (SpecToken::RParen, p, p + 1)
        } else if c == '{' {
            (SpecToken::LBrace, p, p + 1)
        } else if c == '}' {
            (SpecToken::RBrace, p, p + 1)
        } else if c == '[' {
            (SpecToken::LBracket, p, p + 1)
        } else if c == ']' {
            (SpecToken::RBracket, p, p + 1)
        } else if c == '?' {
            (SpecToken::Question, p, p + 1)
        } else if is_digit(c) {
            let (t, e) = number_at(s, p);
            (t, p, e)
        } else if c == '"' {
            let (body, e) = string_body(s, p + 1);
            (SpecToken::StringLit(body), p, e)
        } else if ('a' <= c && c <= 'z') || ('A' <= c && c <= 'Z') || c == '_' {
            let e = ident_end(s, p);
            (keyword(s.subrange(p, e)), p, e)
        } else {
            lex_step(s, p + 1)
        }
    }
}

/// The whole token list from position `pos`, ending with exactly one `EOF`.
pub open spec fn spec_tokens(s: Seq<char>, pos: int) -> Seq<(SpecToken, usize)>
    decreases s.len() - pos,
{
    let (t, tp, np) = lex_step(s, pos);
    if t is EOF || np <= pos || pos < 0 || np > s.len() {
        seq![(t, line_at(s, tp) as usize)]
    } else {
        seq![(t, line_at(s, tp) as usize)] + spec_tokens(s, np)
    }
}

/// What `tokenize` returns for a source text.
pub open spec fn spec_tokenize(src: Seq<char>) -> Seq<(SpecToken, usize)> {
    spec_tokens(src, 0)
}

pub open spec fn view_tokens(v: Seq<(Token, usize)>) -> Seq<(SpecToken, usize)> {
    v.map_values(|p: (Token, usize)| (p.0@, p.1))
}

// ─── Lemmas ───────────────────────────────────────────────────────────────────

pub proof fn lemma_newlines_bound(s: Seq<char>)
    ensures
        newlines(s) <= s.len(),
    decreases s.len(),
{
    if s.len() > 0 {
        lemma_newlines_bound(s.drop_last());
    }
}

pub proof fn lemma_newlines_push(s: Seq<char>, i: int)
    requires
        0 <= i < s.len(),
    ensures
        newlines(s.take(i + 1)) == newlines(s.take(i)) + if s[i] == '\n' { 1nat } else { 0nat },
{
    assert(s.take(i + 1).drop_last() =~= s.take(i));
}

pub proof fn lemma_skip_ws(s: Seq<char>, i: int)
    requires
        0 <= i <= s.len(),
    ensures
        i <= skip_ws(s, i) <= s.len(),
        skip_ws(s, i) < s.len() ==> !char_is_whitespace(s[skip_ws(s, i)]),
    decreases s.len() - i,
{
    if i < s.len() && char_is_whitespace(s[i]) {
        lemma_skip_ws(s, i + 1);
    }
}

pub proof fn lemma_line_comment_end(s: Seq<char>, i: int)
    requires
        0 <= i <= s.len(),
    ensures
        i <= line_comment_end(s, i) <= s.len(),
    decreases s.len() - i,
{
    if i < s.len() && s[i] != '\n' {
        lemma_line_comment_end(s, i + 1);
    }
}

pub proof fn lemma_block_comment_end(s: Seq<char>, i: int)
    requires
        0 <= i <= s.len(),
    ensures
        i <= block_comment_end(s, i) <= s.len(),
    decreases s.len() - i,
{
    if i < s.len() && !(s[i] == '*' && i + 1 < s.len() && s[i + 1] == '/') {
        lemma_block_comment_end(s, i + 1);
    }
}

pub proof fn lemma_digits_end(s: Seq<char>, i: int)
    requires
        0 <= i <= s.len(),
    ensures
        i <= digits_end(s, i) <= s.len(),
        forall|k: int| i <= k < digits_end(s, i) ==> is_digit(#[trigger] s[k]),
    decreases s.len() - i,
{
    if i < s.len() && is_digit(s[i]) {
        lemma_digits_end(s, i + 1);
    }
}

pub proof fn lemma_ident_end(s: Seq<char>, i: int)
    requires
        0 <= i <= s.len(),
    ensures
        i <= ident_end(s, i) <= s.len(),
    decreases s.len() - i,
{
    if i < s.len() && ident_char(s[i]) {
        lemma_ident_end(s, i + 1);
    }
}

pub proof fn lemma_string_body(s: Seq<char>, i: int)
    requires
        0 <= i <= s.len(),
    ensures
        i <= string_body(s, i).1 <= s.len(),
    decreases s.len() - i,
{
    if i < s.len() && s[i] != '"' {
        if s[i] == '\\' {
            if i + 1 < s.len() {
                lemma_string_body(s, i + 2);
            }
        } else {
            lemma_string_body(s, i + 1);
        }
    }
}

/// A step of the tokeniser never moves backwards, stays within the text, and
/// moves forward whenever it yields a token other than `EOF`.
pub proof fn lemma_lex_step(s: Seq<char>, pos: int)
    requires
        0 <= pos <= s.len(),
    ensures
        pos <= lex_step(s, pos).1 <= lex_step(s, pos).2 <= s.len(),
        !(lex_step(s, pos).0 is EOF) ==> lex_step(s, pos).1 < lex_step(s, pos).2,
        lex_step(s, pos).0 is EOF ==> lex_step(s, pos).2 == s.len(),
    decreases s.len() - pos,
{
    let p = skip_ws(s, pos);
    lemma_skip_ws(s, pos);
    if p < s.len() {
        let c = s[p];
        if c == '/' && char_at(s, p + 1) == Some('/') {
            lemma_line_comment_end(s, p + 1);
            lemma_lex_step(s, line_comment_end(s, p + 1));
        } else if c == '/' && char_at(s, p + 1) == Some('*') {
            lemma_block_comment_end(s, p + 2);
            lemma_lex_step(s, block_comment_end(s, p + 2));
        } else if (c == '&' && char_at(s, p + 1) != Some('&')) || (c == '|' && char_at(s, p + 1) != Some('|')) {
            lemma_lex_step(s, p + 1);
        } else if is_digit(c) {
            lemma_digits_end(s, p);
            lemma_digits_end(s, p + 1);
            let q = digits_end(s, p);
            if char_at(s, q) == Some('.') && char_at(s, q + 1) != Some('.') && char_at(s, q + 1).is_some()
                && is_digit(s[q + 1]) {
                lemma_digits_end(s, q + 1);
            }
        } else if c == '"' {
            lemma_string_body(s, p + 1);
        } else if ('a' <= c && c <= 'z') || ('A' <= c && c <= 'Z') || c == '_' {
            lemma_ident_end(s, p);
            lemma_ident_end(s, p + 1);
        } else if !(c == '+' || c == '-' || c == '*' || c == '/' || c == '%' || c == '=' || c == '!'
            || c == '<' || c == '>' || c == '&' || c == '|' || c == '.' || c == ',' || c == ':'
            || c == ';' || c == '(' || c == ')' || c == '{' || c == '}' || c == '[' || c == ']'
            || c == '?') {
            lemma_lex_step(s, p + 1);
        }
    }
}

// ─── The tokeniser ────────────────────────────────────────────────────────────

pub struct Lexer {
    input: Vec<char>,
    pos: usize,
    line: usize,
}

impl Lexer {
    /// The text being tokenised.
    pub closed spec fn input(&self) -> Seq<char> {
        self.input@
    }

    /// The position of the next character to read.
    pub closed spec fn position(&self) -> int {
        self.pos as int
    }

    /// The lexer's invariant: the position lies in the text and the line counter
    /// agrees with the newlines read so far.
    pub closed spec fn wf(&self) -> bool {
        &&& self.pos <= self.input@.len()
        &&& self.input@.len() < usize::MAX
        &&& self.line == line_at(self.input@, self.pos as int)
    }

    /// A lexer at the start of `src`.
    pub fn new(src: &str) -> (lx: Self)
        requires
            src@.len() < usize::MAX,
        ensures
            lx.wf(),
            lx.input() == src@,
            lx.position() == 0,
    {
        let input = chars_of(src);
        proof {
            assert(input@.take(0) =~= Seq::<char>::empty());
        }
        Self { input, pos: 0, line: 1 }
    }

    /// Tokenise the rest of the text. The list ends with exactly one `EOF`.
    pub fn tokenize(&mut self) -> (tokens: Vec<(Token, usize)>)
        requires
            old(self).wf(),
        ensures
            final(self).wf(),
            final(self).input() == old(self).input(),
            view_tokens(tokens@) == spec_tokens(old(self).input(), old(self).position()),
    {
        let mut tokens: Vec<(Token, usize)> = Vec::new();
        let ghost start = self.pos as int;
        let ghost s = self.input@;
        proof {
            assert(view_tokens(tokens@) + spec_tokens(s, start) =~= spec_tokens(s, start));
        }
        loop
            invariant_except_break
                self.wf(),
                self.input@ == s,
                start <= self.pos,
                view_tokens(tokens@) + spec_tokens(s, self.pos as int) == spec_tokens(s, start),
            ensures
                self.wf(),
                self.input@ == s,
                view_tokens(tokens@) == spec_tokens(s, start),
            decreases s.len() - self.pos,
        {
            let ghost before = self.pos as int;
            let (tok, line) = self.next_token();
            let done = match tok {
                Token::EOF => true,
                _ => false,
            };
            proof {
                lemma_lex_step(s, before);
                let ghost item = (tok@, line);
                assert(view_tokens(tokens@.push((tok, line))) =~= view_tokens(tokens@).push(item));
            }
            tokens.push((tok, line));
            if done {
                proof {
                    assert(spec_tokens(s, before) == seq![(lex_step(s, before).0, line_at(s, lex_step(s, before).1) as usize)]);
                    assert(view_tokens(tokens@) =~= spec_tokens(s, start));
                }
                break;
            }
            proof {
                assert(spec_tokens(s, before) == seq![(lex_step(s, before).0, line_at(s, lex_step(s, before).1) as usize)]
                    + spec_tokens(s, self.pos as int));
                assert(view_tokens(tokens@) + spec_tokens(s, self.pos as int) =~= spec_tokens(s, start));
            }
        }
        tokens
    }

    fn peek(&self) -> (c: Option<char>)
        requires
            self.wf(),
        ensures
            c == char_at(self.input@, self.pos as int),
    {
        if self.pos < self.input.len() {
            Some(self.input[self.pos])
        } else {
            None
        }
    }

    fn peek_next(&self) -> (c: Option<char>)
        requires
            self.wf(),
        ensures
            c == char_at(self.input@, self.pos + 1),
    {
        if self.pos + 1 < self.input.len() {
            Some(self.input[self.pos + 1])
        } else {
            None
        }
    }

    fn advance(&mut self) -> (c: char)
        requires
            old(self).wf(),
            old(self).pos < old(self).input@.len(),
        ensures
            final(self).wf(),
            final(self).input@ == old(self).input@,
            final(self).pos == old(self).pos + 1,
            c == old(self).input@[old(self).pos as int],
    {
        let c = self.input[self.pos];
        proof {
            lemma_newlines_push(self.input@, self.pos as int);
            lemma_newlines_bound(self.input@.take(self.pos as int));
        }
        self.pos = self.pos + 1;
        if c == '\n' {
            self.line = self.line + 1;
        }
        c
    }

    /// Consume `n` characters.
    fn advance_by(&mut self, n: usize)
        requires
            old(self).wf(),
            old(self).pos + n <= old(self).input@.len(),
        ensures
            final(self).wf(),
            final(self).input@ == old(self).input@,
            final(self).pos == old(self).pos + n,
    {
        let mut k: usize = 0;
        while k < n
            invariant
                self.wf(),
                self.input@ == old(self).input@,
                k <= n,
                self.pos == old(self).pos + k,
                old(self).pos + n <= old(self).input@.len(),
            decreases n - k,
        {
            self.advance();
            k = k + 1;
        }
    }

    fn next_token(&mut self) -> (res: (Token, usize))
        requires
            old(self).wf(),
        ensures
            final(self).wf(),
            final(self).input@ == old(self).input@,
            res.0@ == lex_step(old(self).input@, old(self).pos as int).0,
            res.1 == line_at(old(self).input@, lex_step(old(self).input@, old(self).pos as int).1),
            final(self).pos == lex_step(old(self).input@, old(self).pos as int).2,
        decreases old(self).input@.len() - old(self).pos,
    {
        let ghost s = self.input@;
        let ghost pos0 = self.pos as int;
        proof {
            lemma_skip_ws(s, pos0);
        }
        while self.peek().is_some() && is_whitespace(self.peek().unwrap())
            invariant
                self.wf(),
                self.input@ == s,
                pos0 <= self.pos,
                skip_ws(s, self.pos as int) == skip_ws(s, pos0),
            decreases s.len() - self.pos,
        {
            self.advance();
        }
        let line = self.line;
        let ghost p = self.pos as int;
        assert(p == skip_ws(s, pos0));
        match self.peek() {
            None => (Token::EOF, line),
            Some(c) => {
                if c == '+' {
                    self.advance();
                    if self.peek() == Some('=') {
                        self.advance();
                        (Token::PlusAssign, line)
                    } else {
                        (Token::Plus, line)
                    }
                } else if c == '-' {
                    self.advance();
                    if self.peek() == Some('>') {
                        self.advance();
                        (Token::Arrow, line)
                    } else if self.peek() == Some('=') {
                        self.advance();
                        (Token::MinusAssign, line)
                    } else {
                        (Token::Minus, line)
                    }
                } else if c == '*' {
                    self.advance();
                    if self.peek() == Some('=') {
                        self.advance();
                        (Token::StarAssign, line)
                    } else {
                        (Token::Star, line)
                    }
                } else if c == '/' {
                    self.advance();
                    if self.peek() == Some('/') {
                        proof {
                            lemma_line_comment_end(s, p + 1);
                        }
                        while self.peek().is_some() && self.peek().unwrap() != '\n'
                            invariant
                                self.wf(),
                                self.input@ == s,
                                p + 1 <= self.pos,
                                line_comment_end(s, self.pos as int) == line_comment_end(s, p + 1),
                            decreases s.len() - self.pos,
                        {
                            self.advance();
                        }
                        self.next_token()
                    } else if self.peek() == Some('*') {
                        self.advance();
                        proof {
                            lemma_block_comment_end(s, p + 2);
                        }
                        loop
                            invariant_except_break
                                self.wf(),
                                self.input@ == s,
                                p + 2 <= self.pos,
                                block_comment_end(s, self.pos as int) == block_comment_end(s, p + 2),
                            ensures
                                self.wf(),
                                self.input@ == s,
                                p + 2 <= self.pos,
                                self.pos == block_comment_end(s, p + 2),
                            decreases s.len() - self.pos,
                        {
                            match self.peek() {
                                None => break,
                                Some(ch) => {
                                    if ch == '*' && self.peek_next() == Some('/') {
                                        self.advance();
                                        self.advance();
                                        break;
                                    }
                                    self.advance();
                                },
                            }
                        }
                        self.next_token()
                    } else if self.peek() == Some('=') {
                        self.advance();
                        (Token::SlashAssign, line)
                    } else {
                        (Token::Slash, line)
                    }
                } else if c == '%' {
                    self.advance();
                    (Token::Percent, line)
                } else if c == '=' {
                    self.advance();
                    if self.peek() == Some('=') {
                        self.advance();
                        (Token::Eq, line)
                    } else if self.peek() == Some('>') {
                        self.advance();
                        (Token::FatArrow, line)
                    } else {
                        (Token::Assign, line)
                    }
                } else if c == '!' {
                    self.advance();
                    if self.peek() == Some('=') {
                        self.advance();
                        (Token::NotEq, line)
                    } else {
                        (Token::Bang, line)
                    }
                } else if c == '<' {
                    self.advance();
                    if self.peek() == Some('=') {
                        self.advance();
                        (Token::LtEq, line)
                    } else {
                        (Token::Lt, line)
                    }
                } else if c == '>' {
                    self.advance();
                    if self.peek() == Some('=') {
                        self.advance();
                        (Token::GtEq, line)
                    } else {
                        (Token::Gt, line)
                    }
                } else if c == '&' {
                    self.advance();
                    if self.peek() == Some('&') {
                        self.advance();
                        (Token::And, line)
                    } else {
                        self.next_token()
                    }
                } else if c == '|' {
                    self.advance();
                    if self.peek() == Some('|') {
                        self.advance();
                        (Token::Or, line)
                    } else {
                        self.next_token()
                    }
                } else if c == '.' {
                    self.advance();
                    if self.peek() == Some('.') {
                        self.advance();
                        if self.peek() == Some('=') {
                            self.advance();
                            (Token::DotDotEq, line)
                        } else {
                            (Token::DotDot, line)
                        }
                    } else {
                        (Token::Dot, line)
                    }
                } else if c == ',' {
                    self.advance();
                    (Token::Comma, line)
                } else if c == ':' {
                    self.advance();
                    (Token::Colon, line)
                } else if c == ';' {
                    self.advance();
                    (Token::Semicolon, line)
                } else if c == '(' {
                    self.advance();
                    (Token::LParen, line)
                } else if c == ')' {
                    self.advance();
                    (Token::RParen, line)
                } else if c == '{' {
                    self.advance();
                    (Token::LBrace, line)
                } else if c == '}' {
                    self.advance();
                    (Token::RBrace, line)
                } else if c == '[' {
                    self.advance();
                    (Token::LBracket, line)
                } else if c == ']' {
                    self.advance();
                    (Token::RBracket, line)
                } else if c == '?' {
                    self.advance();
                    (Token::Question, line)
                } else if '0' <= c && c <= '9' {
                    (self.lex_number(), line)
                } else if c == '"' {
                    (self.lex_string(), line)
                } else if ('a' <= c && c <= 'z') || ('A' <= c && c <= 'Z') || c == '_' {
                    (self.lex_indent(), line)
                } else {
                    self.advance();
                    self.next_token()
                }
            },
        }
    }

    fn lex_indent(&mut self) -> (tok: Token)
        requires
            old(self).wf(),
        ensures
            final(self).wf(),
            final(self).input@ == old(self).input@,
            final(self).pos == ident_end(old(self).input@, old(self).pos as int),
            tok@ == keyword(old(self).input@.subrange(old(self).pos as int, final(self).pos as int)),
    {
        let ghost s = self.input@;
        let ghost p = self.pos as int;
        let mut w: Vec<char> = Vec::new();
        proof {
            lemma_ident_end(s, p);
        }
        while self.peek().is_some() && is_ident_char(self.peek().unwrap())
            invariant
                self.wf(),
                self.input@ == s,
                0 <= p <= self.pos,
                ident_end(s, self.pos as int) == ident_end(s, p),
                w@ == s.subrange(p, self.pos as int),
            decreases s.len() - self.pos,
        {
            let ghost w0 = w@;
            let ghost p0 = self.pos as int;
            let ch = self.advance();
            w.push(ch);
            proof {
                assert(p0 + 1 == self.pos);
                assert(ch == s[p0]);
                assert(w@ == w0.push(ch));
                assert(w0 == s.subrange(p, p0));
                assert(w@.len() == self.pos - p);
                assert(w@ =~= s.subrange(p, self.pos as int));
            }
        }
        keyword_token(&w)
    }

    fn lex_number(&mut self) -> (tok: Token)
        requires
            old(self).wf(),
        ensures
            final(self).wf(),
            final(self).input@ == old(self).input@,
            (tok@, final(self).pos as int) == number_at(old(self).input@, old(self).pos as int),
    {
        let ghost s = self.input@;
        let ghost p = self.pos as int;
        proof {
            lemma_digits_end(s, p);
        }
        let mut num: Vec<char> = Vec::new();
        let mut value: i64 = 0;
        let mut overflow = false;
        while self.peek().is_some() && '0' <= self.peek().unwrap() && self.peek().unwrap() <= '9'
            invariant
                self.wf(),
                self.input@ == s,
                0 <= p <= self.pos,
                digits_end(s, self.pos as int) == digits_end(s, p),
                num@ == s.subrange(p, self.pos as int),
                forall|k: int| 0 <= k < num@.len() ==> is_digit(#[trigger] num@[k]),
                !overflow ==> value == digits_value(num@),
                overflow ==> digits_value(num@) > i64::MAX,
                digits_value(num@) >= 0,
            decreases s.len() - self.pos,
        {
            let ch = self.advance();
            let d: i64 = digit_value(ch);
            let ghost old_num = num@;
            num.push(ch);
            proof {
                assert(num@ =~= s.subrange(p, self.pos as int));
                assert(num@.drop_last() =~= old_num);
            }
            if !overflow {
                if value > (i64::MAX - d) / 10 {
                    overflow = true;
                } else {
                    value = value * 10 + d;
                }
            }
        }
        let ghost q = self.pos as int;
        if self.peek() == Some('.') && self.peek_next() != Some('.') {
            if self.peek_next().is_some() && '0' <= self.peek_next().unwrap() && self.peek_next().unwrap() <= '9' {
                let ch = self.advance();
                num.push(ch);
                proof {
                    lemma_digits_end(s, q + 1);
                    assert(num@ =~= s.subrange(p, self.pos as int));
                }
                while self.peek().is_some() && '0' <= self.peek().unwrap() && self.peek().unwrap() <= '9'
                    invariant
                        self.wf(),
                        self.input@ == s,
                        0 <= p <= q,
                q + 1 <= self.pos,
                        digits_end(s, self.pos as int) == digits_end(s, q + 1),
                        num@ == s.subrange(p, self.pos as int),
                    decreases s.len() - self.pos,
                {
                    let ch = self.advance();
                    num.push(ch);
                    proof {
                        assert(num@ =~= s.subrange(p, self.pos as int));
                    }
                }
                return Token::Float(string_from_chars(&num));
            }
        }
        if overflow {
            Token::Int(0)
        } else {
            Token::Int(value)
        }
    }

    fn lex_string(&mut self) -> (tok: Token)
        requires
            old(self).wf(),
            old(self).pos < old(self).input@.len(),
        ensures
            final(self).wf(),
            final(self).input@ == old(self).input@,
            tok@ == SpecToken::StringLit(string_body(old(self).input@, old(self).pos + 1).0),
            final(self).pos == string_body(old(self).input@, old(self).pos + 1).1,
    {
        let ghost s = self.input@;
        let ghost p = self.pos as int;
        let mut out: Vec<char> = Vec::new();
        self.advance();
        proof {
            lemma_string_body(s, p + 1);
        }
        loop
            invariant_except_break
                self.wf(),
                self.input@ == s,
                p + 1 <= self.pos,
                string_body(s, p + 1) == ((out@ + string_body(s, self.pos as int).0), string_body(s, self.pos as int).1),
            ensures
                self.wf(),
                self.input@ == s,
                string_body(s, p + 1) == (out@, self.pos as int),
            decreases s.len() - self.pos,
        {
            let ghost before = self.pos as int;
            match self.peek() {
                None => {
                    proof {
                        assert(out@ + Seq::<char>::empty() =~= out@);
                    }
                    break;
                },
                Some(c) => {
                    if c == '"' {
                        self.advance();
                        proof {
                            assert(out@ + Seq::<char>::empty() =~= out@);
                        }
                        break;
                    }
                    if c == '\\' {
                        self.advance();
                        match self.peek() {
                            None => {
                                proof {
                                    assert(out@ + Seq::<char>::empty() =~= out@);
                                }
                                break;
                            },
                            Some(e) => {
                                self.advance();
                                let u = if e == 'n' {
                                    '\n'
                                } else if e == 't' {
                                    '\t'
                                } else if e == 'r' {
                                    '\r'
                                } else {
                                    e
                                };
                                let ghost o = out@;
                                out.push(u);
                                proof {
                                    assert(out@ + string_body(s, self.pos as int).0 =~= o + (seq![u]
                                        + string_body(s, self.pos as int).0));
                                }
                            },
                        }
                    } else {
                        let ch = self.advance();
                        let ghost o = out@;
                        out.push(ch);
                        proof {
                            assert(out@ + string_body(s, self.pos as int).0 =~= o + (seq![ch]
                                + string_body(s, self.pos as int).0));
                        }
                    }
                },
            }
        }
        Token::StringLit(string_from_chars(&out))
    }
}

fn is_ident_char(c: char) -> (r: bool)
    ensures
        r == ident_char(c),
{
    let ascii = ('a' <= c && c <= 'z') || ('A' <= c && c <= 'Z') || ('0' <= c && c <= '9');
    ascii || is_alphanumeric(c) || c == '_'
}

fn digit_value(c: char) -> (d: i64)
    requires
        is_digit(c),
    ensures
        d == c as int - '0' as int,
        0 <= d <= 9,
{
    (c as u32 - '0' as u32) as i64
}

fn word1(w: &Vec<char>, a: char) -> (r: bool)
    ensures
        r == (w@ == seq![a]),
{
    if w.len() == 1 && w[0] == a {
        assert(w@ =~= seq![a]);
        true
    } else {
        false
    }
}

fn word2(w: &Vec<char>, a: char, b: char) -> (r: bool)
    ensures
        r == (w@ == seq![a, b]),
{
    if w.len() == 2 && w[0] == a && w[1] == b {
        assert(w@ =~= seq![a, b]);
        true
    } else {
        false
    }
}

pub(crate) fn word3(w: &Vec<char>, a: char, b: char, c: char) -> (r: bool)
    ensures
        r == (w@ == seq![a, b, c]),
{
    if w.len() == 3 && w[0] == a && w[1] == b && w[2] == c {
        assert(w@ =~= seq![a, b, c]);
        true
    } else {
        false
    }
}

pub(crate) fn word4(w: &Vec<char>, a: char, b: char, c: char, d: char) -> (r: bool)
    ensures
        r == (w@ == seq![a, b, c, d]),
{
    if w.len() == 4 && w[0] == a && w[1] == b && w[2] == c && w[3] == d {
        assert(w@ =~= seq![a, b, c, d]);
        true
    } else {
        false
    }
}

fn word5(w: &Vec<char>, a: char, b: char, c: char, d: char, e: char) -> (r: bool)
    ensures
        r == (w@ == seq![a, b, c, d, e]),
{
    if w.len() == 5 && w[0] == a && w[1] == b && w[2] == c && w[3] == d && w[4] == e {
        assert(w@ =~= seq![a, b, c, d, e]);
        true
    } else {
        false
    }
}

fn word6(w: &Vec<char>, a: char, b: char, c: char, d: char, e: char, f: char) -> (r: bool)
    ensures
        r == (w@ == seq![a, b, c, d, e, f]),
{
    if w.len() == 6 && w[0] == a && w[1] == b && w[2] == c && w[3] == d && w[4] == e && w[5] == f {
        assert(w@ =~= seq![a, b, c, d, e, f]);
        true
    } else {
        false
    }
}

fn word7(w: &Vec<char>, a: char, b: char, c: char, d: char, e: char, f: char, g: char) -> (r: bool)
    ensures
        r == (w@ == seq![a, b, c, d, e, f, g]),
{
    if w.len() == 7 && w[0] == a && w[1] == b && w[2] == c && w[3] == d && w[4] == e && w[5] == f && w[6] == g {
        assert(w@ =~= seq![a, b, c, d, e, f, g]);
        true
    } else {
        false
    }
}

fn word8(w: &Vec<char>, a: char, b: char, c: char, d: char, e: char, f: char, g: char, h: char) -> (r: bool)
    ensures
        r == (w@ == seq![a, b, c, d, e, f, g, h]),
{
    if w.len() == 8 && w[0] == a && w[1] == b && w[2] == c && w[3] == d && w[4] == e && w[5] == f && w[6] == g && w[7] == h {
        assert(w@ =~= seq![a, b, c, d, e, f, g, h]);
        true
    } else {
        false
    }
}

fn keyword_token(w: &Vec<char>) -> (tok: Token)
    ensures
        tok@ == keyword(w@),
{
    if word1(w, '_') {
        Token::Underscore
    } else if word3(w, 'l', 'e', 't') {
        Token::Let
    } else if word3(w, 'm', 'u', 't') {
        Token::Mut
    } else if word2(w, 'f', 'n') {
        Token::Fn
    } else if word6(w, 'r', 'e', 't', 'u', 'r', 'n') {
        Token::Return
    } else if word2(w, 'i', 'f') {
        Token::If
    } else if word4(w, 'e', 'l', 's', 'e') {
        Token::Else
    } else if word5(w, 'w', 'h', 'i', 'l', 'e') {
        Token::While
    } else if word3(w, 'f', 'o', 'r') {
        Token::For
    } else if word2(w, 'i', 'n') {
        Token::In
    } else if word5(w, 'b', 'r', 'e', 'a', 'k') {
        Token::Break
    } else if word8(w, 'c', 'o', 'n', 't', 'i', 'n', 'u', 'e') {
        Token::Continue
    } else if word5(w, 'm', 'a', 't', 'c', 'h') {
        Token::Match
    } else if word6(w, 's', 't', 'r', 'u', 'c', 't') {
        Token::Struct
    } else if word4(w, 'i', 'm', 'p', 'l') {
        Token::Impl
    } else if word4(w, 's', 'e', 'l', 'f') {
        Token::Self_
    } else if word2(w, 'a', 's') {
        Token::As
    } else if word4(w, 't', 'r', 'u', 'e') {
        Token::Bool(true)
    } else if word5(w, 'f', 'a', 'l', 's', 'e') {
        Token::Bool(false)
    } else if word4(w, 'n', 'o', 'n', 'e') {
        Token::None_
    } else {
        Token::Ident(string_from_chars(w))
    }
}

/// The token list of a text ends with exactly one `EOF`: it is the last token
/// and no other token is `EOF`.
pub proof fn lemma_tokens_end_with_eof(s: Seq<char>, pos: int)
    requires
        0 <= pos <= s.len(),
    ensures
        spec_tokens(s, pos).len() >= 1,
        spec_tokens(s, pos).last().0 is EOF,
        forall|k: int| 0 <= k < spec_tokens(s, pos).len() - 1 ==> !(#[trigger] spec_tokens(s, pos)[k].0 is EOF),
    decreases s.len() - pos,
{
    lemma_lex_step(s, pos);
    let (t, tp, np) = lex_step(s, pos);
    if t is EOF || np <= pos || pos < 0 || np > s.len() {
        assert(spec_tokens(s, pos) =~= seq![(t, line_at(s, tp) as usize)]);
    } else {
        lemma_tokens_end_with_eof(s, np);
        let head = seq![(t, line_at(s, tp) as usize)];
        let rest = spec_tokens(s, np);
        assert(spec_tokens(s, pos) =~= head + rest);
        assert forall|k: int| 0 <= k < spec_tokens(s, pos).len() - 1 implies !(#[trigger] spec_tokens(s, pos)[k].0 is EOF) by {
            if k > 0 {
                assert(spec_tokens(s, pos)[k] == rest[k - 1]);
            }
        }
    }
}

/// Lines never decrease along a text: a later position is on the same line or
/// a later one.
pub proof fn lemma_line_at_monotone(s: Seq<char>, p: int, q: int)
    requires
        0 <= p <= q <= s.len(),
    ensures
        line_at(s, p) <= line_at(s, q),
        line_at(s, q) <= 1 + s.len(),
    decreases q - p,
{
    lemma_newlines_bound(s.take(q));
    if p < q {
        lemma_line_at_monotone(s, p, q - 1);
        lemma_newlines_push(s, q - 1);
    }
}

/// The line numbers of the tokens of a text never decrease, and the first
/// token is on or after the line where tokenising starts.
pub proof fn lemma_token_lines_ordered(s: Seq<char>, pos: int)
    requires
        0 <= pos <= s.len(),
        s.len() < usize::MAX,
    ensures
        spec_tokens(s, pos).len() >= 1,
        spec_tokens(s, pos)[0].1 >= line_at(s, pos),
        forall|j: int, k: int|
            0 <= j <= k < spec_tokens(s, pos).len() ==> #[trigger] spec_tokens(s, pos)[j].1 <= #[trigger] spec_tokens(s, pos)[k].1,
    decreases s.len() - pos,
{
    lemma_lex_step(s, pos);
    let (t, tp, np) = lex_step(s, pos);
    lemma_line_at_monotone(s, pos, tp);
    let head = seq![(t, line_at(s, tp) as usize)];
    if t is EOF || np <= pos || pos < 0 || np > s.len() {
        assert(spec_tokens(s, pos) =~= head);
    } else {
        lemma_token_lines_ordered(s, np);
        lemma_line_at_monotone(s, tp, np);
        let rest = spec_tokens(s, np);
        assert(spec_tokens(s, pos) =~= head + rest);
        assert forall|j: int, k: int|
            0 <= j <= k < spec_tokens(s, pos).len() implies #[trigger] spec_tokens(s, pos)[j].1 <= #[trigger] spec_tokens(s, pos)[k].1 by {
            if j > 0 {
                assert(spec_tokens(s, pos)[j] == rest[j - 1]);
                assert(spec_tokens(s, pos)[k] == rest[k - 1]);
            } else if k > 0 {
                assert(spec_tokens(s, pos)[k] == rest[k - 1]);
                assert(rest[0].1 <= rest[k - 1].1);
            }
        }
    }
}

proof fn lemma_first_token(s: Seq<char>, t: SpecToken, n: int)
    requires
        0 < n <= s.len(),
        lex_step(s, 0) == (t, 0int, n),
        !(t is EOF),
    ensures
        spec_tokenize(s)[0] == (t, 1usize),
{
    assert(s.take(0) =~= Seq::<char>::empty());
    assert(line_at(s, 0) == 1);
}

/// Each operator and punctuation character lexes to its own token: a text
/// that starts with it (and does not go on into a longer operator) starts
/// with that token, on line 1.
pub proof fn law_operator_tokens(rest: Seq<char>)
    ensures
        spec_tokenize(seq!['%'] + rest)[0] == (SpecToken::Percent, 1usize),
        spec_tokenize(seq![','] + rest)[0] == (SpecToken::Comma, 1usize),
        spec_tokenize(seq![':'] + rest)[0] == (SpecToken::Colon, 1usize),
        spec_tokenize(seq![';'] + rest)[0] == (SpecToken::Semicolon, 1usize),
        spec_tokenize(seq!['('] + rest)[0] == (SpecToken::LParen, 1usize),
        spec_tokenize(seq![')'] + rest)[0] == (SpecToken::RParen, 1usize),
        spec_tokenize(seq!['{'] + rest)[0] == (SpecToken::LBrace, 1usize),
        spec_tokenize(seq!['}'] + rest)[0] == (SpecToken::RBrace, 1usize),
        spec_tokenize(seq!['['] + rest)[0] == (SpecToken::LBracket, 1usize),
        spec_tokenize(seq![']'] + rest)[0] == (SpecToken::RBracket, 1usize),
        spec_tokenize(seq!['?'] + rest)[0] == (SpecToken::Question, 1usize),
        (rest.len() == 0 || (rest[0] != '=')) ==> spec_tokenize(seq!['+'] + rest)[0] == (SpecToken::Plus, 1usize),
        spec_tokenize(seq!['+', '='] + rest)[0] == (SpecToken::PlusAssign, 1usize),
        (rest.len() == 0 || (rest[0] != '>' && rest[0] != '=')) ==> spec_tokenize(seq!['-'] + rest)[0] == (SpecToken::Minus, 1usize),
        spec_tokenize(seq!['-', '>'] + rest)[0] == (SpecToken::Arrow, 1usize),
        spec_tokenize(seq!['-', '='] + rest)[0] == (SpecToken::MinusAssign, 1usize),
        (rest.len() == 0 || (rest[0] != '=')) ==> spec_tokenize(seq!['*'] + rest)[0] == (SpecToken::Star, 1usize),
        spec_tokenize(seq!['*', '='] + rest)[0] == (SpecToken::StarAssign, 1usize),
        (rest.len() == 0 || (rest[0] != '=' && rest[0] != '/' && rest[0] != '*')) ==> spec_tokenize(seq!['/'] + rest)[0] == (SpecToken::Slash, 1usize),
        spec_tokenize(seq!['/', '='] + rest)[0] == (SpecToken::SlashAssign, 1usize),
        (rest.len() == 0 || (rest[0] != '=' && rest[0] != '>')) ==> spec_tokenize(seq!['='] + rest)[0] == (SpecToken::Assign, 1usize),
        spec_tokenize(seq!['=', '='] + rest)[0] == (SpecToken::Eq, 1usize),
        spec_tokenize(seq!['=', '>'] + rest)[0] == (SpecToken::FatArrow, 1usize),
        (rest.len() == 0 || (rest[0] != '=')) ==> spec_tokenize(seq!['!'] + rest)[0] == (SpecToken::Bang, 1usize),
        spec_tokenize(seq!['!', '='] + rest)[0] == (SpecToken::NotEq, 1usize),
        (rest.len() == 0 || (rest[0] != '=')) ==> spec_tokenize(seq!['<'] + rest)[0] == (SpecToken::Lt, 1usize),
        spec_tokenize(seq!['<', '='] + rest)[0] == (SpecToken::LtEq, 1usize),
        (rest.len() == 0 || (rest[0] != '=')) ==> spec_tokenize(seq!['>'] + rest)[0] == (SpecToken::Gt, 1usize),
        spec_tokenize(seq!['>', '='] + rest)[0] == (SpecToken::GtEq, 1usize),
        spec_tokenize(seq!['&', '&'] + rest)[0] == (SpecToken::And, 1usize),
        spec_tokenize(seq!['|', '|'] + rest)[0] == (SpecToken::Or, 1usize),
        (rest.len() == 0 || (rest[0] != '.')) ==> spec_tokenize(seq!['.'] + rest)[0] == (SpecToken::Dot, 1usize),
        (rest.len() == 0 || (rest[0] != '=')) ==> spec_tokenize(seq!['.', '.'] + rest)[0] == (SpecToken::DotDot, 1usize),
        spec_tokenize(seq!['.', '.', '='] + rest)[0] == (SpecToken::DotDotEq, 1usize),
{
    lemma_first_token(seq!['%'] + rest, SpecToken::Percent, 1);
    lemma_first_token(seq![','] + rest, SpecToken::Comma, 1);
    lemma_first_token(seq![':'] + rest, SpecToken::Colon, 1);
    lemma_first_token(seq![';'] + rest, SpecToken::Semicolon, 1);
    lemma_first_token(seq!['('] + rest, SpecToken::LParen, 1);
    lemma_first_token(seq![')'] + rest, SpecToken::RParen, 1);
    lemma_first_token(seq!['{'] + rest, SpecToken::LBrace, 1);
    lemma_first_token(seq!['}'] + rest, SpecToken::RBrace, 1);
    lemma_first_token(seq!['['] + rest, SpecToken::LBracket, 1);
    lemma_first_token(seq![']'] + rest, SpecToken::RBracket, 1);
    lemma_first_token(seq!['?'] + rest, SpecToken::Question, 1);
    if rest.len() == 0 || (rest[0] != '=') {
        lemma_first_token(seq!['+'] + rest, SpecToken::Plus, 1);
    }
    lemma_first_token(seq!['+', '='] + rest, SpecToken::PlusAssign, 2);
    if rest.len() == 0 || (rest[0] != '>' && rest[0] != '=') {
        lemma_first_token(seq!['-'] + rest, SpecToken::Minus, 1);
    }
    lemma_first_token(seq!['-', '>'] + rest, SpecToken::Arrow, 2);
    lemma_first_token(seq!['-', '='] + rest, SpecToken::MinusAssign, 2);
    if rest.len() == 0 || (rest[0] != '=') {
        lemma_first_token(seq!['*'] + rest, SpecToken::Star, 1);
    }
    lemma_first_token(seq!['*', '='] + rest, SpecToken::StarAssign, 2);
    if rest.len() == 0 || (rest[0] != '=' && rest[0] != '/' && rest[0] != '*') {
        lemma_first_token(seq!['/'] + rest, SpecToken::Slash, 1);
    }
    lemma_first_token(seq!['/', '='] + rest, SpecToken::SlashAssign, 2);
    if rest.len() == 0 || (rest[0] != '=' && rest[0] != '>') {
        lemma_first_token(seq!['='] + rest, SpecToken::Assign, 1);
    }
    lemma_first_token(seq!['=', '='] + rest, SpecToken::Eq, 2);
    lemma_first_token(seq!['=', '>'] + rest, SpecToken::FatArrow, 2);
    if rest.len() == 0 || (rest[0] != '=') {
        lemma_first_token(seq!['!'] + rest, SpecToken::Bang, 1);
    }
    lemma_first_token(seq!['!', '='] + rest, SpecToken::NotEq, 2);
    if rest.len() == 0 || (rest[0] != '=') {
        lemma_first_token(seq!['<'] + rest, SpecToken::Lt, 1);
    }
    lemma_first_token(seq!['<', '='] + rest, SpecToken::LtEq, 2);
    if rest.len() == 0 || (rest[0] != '=') {
        lemma_first_token(seq!['>'] + rest, SpecToken::Gt, 1);
    }
    lemma_first_token(seq!['>', '='] + rest, SpecToken::GtEq, 2);
    lemma_first_token(seq!['&', '&'] + rest, SpecToken::And, 2);
    lemma_first_token(seq!['|', '|'] + rest, SpecToken::Or, 2);
    if rest.len() == 0 || (rest[0] != '.') {
        lemma_first_token(seq!['.'] + rest, SpecToken::Dot, 1);
    }
    if rest.len() == 0 || (rest[0] != '=') {
        lemma_first_token(seq!['.', '.'] + rest, SpecToken::DotDot, 2);
    }
    lemma_first_token(seq!['.', '.', '='] + rest, SpecToken::DotDotEq, 3);
}

proof fn lemma_ident_end_at(s: Seq<char>, i: int, j: int)
    requires
        0 <= i <= j <= s.len(),
        forall|k: int| i <= k < j ==> ident_char(#[trigger] s[k]),
        j == s.len() || !ident_char(s[j]),
    ensures
        ident_end(s, i) == j,
    decreases j - i,
{
    if i < j {
        lemma_ident_end_at(s, i + 1, j);
    }
}

proof fn lemma_word_token(w: Seq<char>, rest: Seq<char>)
    requires
        w.len() > 0,
        'a' <= w[0] <= 'z',
        forall|k: int| 0 <= k < w.len() ==> 'a' <= #[trigger] w[k] <= 'z',
        rest.len() == 0 || !ident_char(rest[0]),
    ensures
        spec_tokenize(w + rest)[0] == (keyword(w), 1usize),
{
    let s = w + rest;
    assert forall|k: int| 0 <= k < w.len() implies ident_char(#[trigger] s[k]) by {
        assert(s[k] == w[k]);
    }
    lemma_ident_end_at(s, 0, w.len() as int);
    assert(s.subrange(0, w.len() as int) =~= w);
    assert(!char_is_whitespace(s[0]));
    assert(s.take(0) =~= Seq::<char>::empty());
}

/// Each keyword lexes to its own token: a text that starts with the keyword,
/// not followed by a character that continues a name, starts with that token,
/// on line 1.
pub proof fn law_keyword_tokens(rest: Seq<char>)
    ensures
        (rest.len() == 0 || !ident_char(rest[0])) ==> spec_tokenize(seq!['l', 'e', 't'] + rest)[0] == (SpecToken::Let, 1usize),
        (rest.len() == 0 || !ident_char(rest[0])) ==> spec_tokenize(seq!['m', 'u', 't'] + rest)[0] == (SpecToken::Mut, 1usize),
        (rest.len() == 0 || !ident_char(rest[0])) ==> spec_tokenize(seq!['f', 'n'] + rest)[0] == (SpecToken::Fn, 1usize),
        (rest.len() == 0 || !ident_char(rest[0])) ==> spec_tokenize(seq!['r', 'e', 't', 'u', 'r', 'n'] + rest)[0] == (SpecToken::Return, 1usize),
        (rest.len() == 0 || !ident_char(rest[0])) ==> spec_tokenize(seq!['i', 'f'] + rest)[0] == (SpecToken::If, 1usize),
        (rest.len() == 0 || !ident_char(rest[0])) ==> spec_tokenize(seq!['e', 'l', 's', 'e'] + rest)[0] == (SpecToken::Else, 1usize),
        (rest.len() == 0 || !ident_char(rest[0])) ==> spec_tokenize(seq!['w', 'h', 'i', 'l', 'e'] + rest)[0] == (SpecToken::While, 1usize),
        (rest.len() == 0 || !ident_char(rest[0])) ==> spec_tokenize(seq!['f', 'o', 'r'] + rest)[0] == (SpecToken::For, 1usize),
        (rest.len() == 0 || !ident_char(rest[0])) ==> spec_tokenize(seq!['i', 'n'] + rest)[0] == (SpecToken::In, 1usize),
        (rest.len() == 0 || !ident_char(rest[0])) ==> spec_tokenize(seq!['b', 'r', 'e', 'a', 'k'] + rest)[0] == (SpecToken::Break, 1usize),
        (rest.len() == 0 || !ident_char(rest[0])) ==> spec_tokenize(seq!['c', 'o', 'n', 't', 'i', 'n', 'u', 'e'] + rest)[0] == (SpecToken::Continue, 1usize),
        (rest.len() == 0 || !ident_char(rest[0])) ==> spec_tokenize(seq!['m', 'a', 't', 'c', 'h'] + rest)[0] == (SpecToken::Match, 1usize),
        (rest.len() == 0 || !ident_char(rest[0])) ==> spec_tokenize(seq!['s', 't', 'r', 'u', 'c', 't'] + rest)[0] == (SpecToken::Struct, 1usize),
        (rest.len() == 0 || !ident_char(rest[0])) ==> spec_tokenize(seq!['i', 'm', 'p', 'l'] + rest)[0] == (SpecToken::Impl, 1usize),
        (rest.len() == 0 || !ident_char(rest[0])) ==> spec_tokenize(seq!['s', 'e', 'l', 'f'] + rest)[0] == (SpecToken::Self_, 1usize),
        (rest.len() == 0 || !ident_char(rest[0])) ==> spec_tokenize(seq!['a', 's'] + rest)[0] == (SpecToken::As, 1usize),
        (rest.len() == 0 || !ident_char(rest[0])) ==> spec_tokenize(seq!['t', 'r', 'u', 'e'] + rest)[0] == (SpecToken::Bool(true), 1usize),
        (rest.len() == 0 || !ident_char(rest[0])) ==> spec_tokenize(seq!['f', 'a', 'l', 's', 'e'] + rest)[0] == (SpecToken::Bool(false), 1usize),
        (rest.len() == 0 || !ident_char(rest[0])) ==> spec_tokenize(seq!['n', 'o', 'n', 'e'] + rest)[0] == (SpecToken::None_, 1usize),
{
    if rest.len() == 0 || !ident_char(rest[0]) {
        lemma_word_token(seq!['l', 'e', 't'], rest);
        assert(keyword(seq!['l', 'e', 't']) == SpecToken::Let);
    }
    if rest.len() == 0 || !ident_char(rest[0]) {
        lemma_word_token(seq!['m', 'u', 't'], rest);
        assert(keyword(seq!['m', 'u', 't']) == SpecToken::Mut);
    }
    if rest.len() == 0 || !ident_char(rest[0]) {
        lemma_word_token(seq!['f', 'n'], rest);
        assert(keyword(seq!['f', 'n']) == SpecToken::Fn);
    }
    if rest.len() == 0 || !ident_char(rest[0]) {
        lemma_word_token(seq!['r', 'e', 't', 'u', 'r', 'n'], rest);
        assert(keyword(seq!['r', 'e', 't', 'u', 'r', 'n']) == SpecToken::Return);
    }
    if rest.len() == 0 || !ident_char(rest[0]) {
        lemma_word_token(seq!['i', 'f'], rest);
        assert(keyword(seq!['i', 'f']) == SpecToken::If);
    }
    if rest.len() == 0 || !ident_char(rest[0]) {
        lemma_word_token(seq!['e', 'l', 's', 'e'], rest);
        assert(keyword(seq!['e', 'l', 's', 'e']) == SpecToken::Else);
    }
    if rest.len() == 0 || !ident_char(rest[0]) {
        lemma_word_token(seq!['w', 'h', 'i', 'l', 'e'], rest);
        assert(keyword(seq!['w', 'h', 'i', 'l', 'e']) == SpecToken::While);
    }
    if rest.len() == 0 || !ident_char(rest[0]) {
        lemma_word_token(seq!['f', 'o', 'r'], rest);
        assert(keyword(seq!['f', 'o', 'r']) == SpecToken::For);
    }
    if rest.len() == 0 || !ident_char(rest[0]) {
        lemma_word_token(seq!['i', 'n'], rest);
        assert(keyword(seq!['i', 'n']) == SpecToken::In);
    }
    if rest.len() == 0 || !ident_char(rest[0]) {
        lemma_word_token(seq!['b', 'r', 'e', 'a', 'k'], rest);
        assert(keyword(seq!['b', 'r', 'e', 'a', 'k']) == SpecToken::Break);
    }
    if rest.len() == 0 || !ident_char(rest[0]) {
        lemma_word_token(seq!['c', 'o', 'n', 't', 'i', 'n', 'u', 'e'], rest);
        assert(keyword(seq!['c', 'o', 'n', 't', 'i', 'n', 'u', 'e']) == SpecToken::Continue);
    }
    if rest.len() == 0 || !ident_char(rest[0]) {
        lemma_word_token(seq!['m', 'a', 't', 'c', 'h'], rest);
        assert(keyword(seq!['m', 'a', 't', 'c', 'h']) == SpecToken::Match);
    }
    if rest.len() == 0 || !ident_char(rest[0]) {
        lemma_word_token(seq!['s', 't', 'r', 'u', 'c', 't'], rest);
        assert(keyword(seq!['s', 't', 'r', 'u', 'c', 't']) == SpecToken::Struct);
    }
    if rest.len() == 0 || !ident_char(rest[0]) {
        lemma_word_token(seq!['i', 'm', 'p', 'l'], rest);
        assert(keyword(seq!['i', 'm', 'p', 'l']) == SpecToken::Impl);
    }
    if rest.len() == 0 || !ident_char(rest[0]) {
        lemma_word_token(seq!['s', 'e', 'l', 'f'], rest);
        assert(keyword(seq!['s', 'e', 'l', 'f']) == SpecToken::Self_);
    }
    if rest.len() == 0 || !ident_char(rest[0]) {
        lemma_word_token(seq!['a', 's'], rest);
        assert(keyword(seq!['a', 's']) == SpecToken::As);
    }
    if rest.len() == 0 || !ident_char(rest[0]) {
        lemma_word_token(seq!['t', 'r', 'u', 'e'], rest);
        assert(keyword(seq!['t', 'r', 'u', 'e']) == SpecToken::Bool(true));
    }
    if rest.len() == 0 || !ident_char(rest[0]) {
        lemma_word_token(seq!['f', 'a', 'l', 's', 'e'], rest);
        assert(keyword(seq!['f', 'a', 'l', 's', 'e']) == SpecToken::Bool(false));
    }
    if rest.len() == 0 || !ident_char(rest[0]) {
        lemma_word_token(seq!['n', 'o', 'n', 'e'], rest);
        assert(keyword(seq!['n', 'o', 'n', 'e']) == SpecToken::None_);
    }
}

} // verus!
