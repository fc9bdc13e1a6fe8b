//! Text of diagnostics: how tokens and types are shown in error messages,
//! as their derived `Debug` implementations write them.
use vstd::prelude::*;

use crate::ast::{SpecToken, SpecType, Token, Type};
use crate::text::{chars_of, string_from_chars};
use crate::typing::{dec_text, digit_char};

verus! {

/// What `char::escape_debug` writes for a character.
pub uninterp spec fn char_escape_text(c: char) -> Seq<char>;

/// Calls `char::escape_debug`. Claimed, as its documentation shows: printable
/// ASCII other than a backslash and the two quotes stands for itself; the
/// backslash, the quotes, tab, carriage return and line feed get their
/// backslash escapes. What it writes for other characters is not claimed.
#[verifier::external_body]
fn escape_debug_char(c: char) -> (s: String)
    ensures
        s@ == char_escape_text(c),
        (' ' <= c && c <= '~' && c != '\\' && c != '\'' && c != '"') ==> s@ == seq![c],
        c == '\\' ==> s@ == seq!['\\', '\\'],
        c == '"' ==> s@ == seq!['\\', '"'],
        c == '\'' ==> s@ == seq!['\\', '\''],
        c == '\n' ==> s@ == seq!['\\', 'n'],
        c == '\r' ==> s@ == seq!['\\', 'r'],
        c == '\t' ==> s@ == seq!['\\', 't'],
{
    c.escape_debug().to_string()
}

/// How one character of a string appears in the string's debug text: as
/// `char::escape_debug` writes it, except that a single quote stays as it is.
pub open spec fn char_in_str_debug(c: char) -> Seq<char> {
    if c == '\'' {
        seq!['\'']
    } else {
        char_escape_text(c)
    }
}

pub open spec fn str_debug_body(s: Seq<char>) -> Seq<char>
    decreases s.len(),
{
    if s.len() == 0 {
        Seq::empty()
    } else {
        str_debug_body(s.drop_last()) + char_in_str_debug(s.last())
    }
}

/// The debug text of a string: its characters escaped, between double quotes.
pub open spec fn str_debug_text(s: Seq<char>) -> Seq<char> {
    seq!['"'] + str_debug_body(s) + seq!['"']
}

/// The decimal text of an integer, with a minus sign when it is negative.
pub open spec fn int_text(n: i64) -> Seq<char> {
    if n < 0 {
        seq!['-'] + dec_text((-(n as int)) as nat)
    } else {
        dec_text(n as nat)
    }
}

/// `s` without its leading `'0'`s.
pub open spec fn drop_leading_zeros(s: Seq<char>) -> Seq<char>
    decreases s.len(),
{
    if s.len() > 0 && s[0] == '0' {
        drop_leading_zeros(s.drop_first())
    } else {
        s
    }
}

/// `s` without its trailing `'0'`s.
pub open spec fn drop_trailing_zeros(s: Seq<char>) -> Seq<char>
    decreases s.len(),
{
    if s.len() > 0 && s.last() == '0' {
        drop_trailing_zeros(s.drop_last())
    } else {
        s
    }
}

/// The position of the first `'.'` in `s` at or after `i`, or the length.
pub open spec fn point_at(s: Seq<char>, i: int) -> int
    decreases s.len() - i,
{
    if i < 0 || i >= s.len() {
        s.len() as int
    } else if s[i] == '.' {
        i
    } else {
        point_at(s, i + 1)
    }
}

/// `"0"` for an empty digit string.
pub open spec fn or_zero(s: Seq<char>) -> Seq<char> {
    if s.len() == 0 { seq!['0'] } else { s }
}

/// How `Debug` writes the `f64` that the decimal literal `s` (digits, a point,
/// digits) denotes, for values from 1e-4 up to 1e16 written with at most 15
/// significant digits: the integer part without leading zeros, a point, the
/// fraction without trailing zeros, each at least `0`.
pub open spec fn float_literal_debug(s: Seq<char>) -> Seq<char> {
    let p = point_at(s, 0);
    or_zero(drop_leading_zeros(s.subrange(0, p))) + seq!['.']
        + or_zero(drop_trailing_zeros(if p < s.len() { s.subrange(p + 1, s.len() as int) } else { Seq::empty() }))
}

/// The debug text of a token: the variant's name, and its payload in
/// parentheses.
pub open spec fn token_debug_text(t: SpecToken) -> Seq<char> {
    match t {
        SpecToken::Int(n) => "Int("@ + int_text(n) + ")"@,
        SpecToken::Float(s) => "Float("@ + float_literal_debug(s) + ")"@,
        SpecToken::Str(s) => "Str("@ + str_debug_text(s) + ")"@,
        SpecToken::StringLit(s) => "StringLit("@ + str_debug_text(s) + ")"@,
        SpecToken::Bool(b) => "Bool("@ + (if b { "true"@ } else { "false"@ }) + ")"@,
        SpecToken::Ident(s) => "Ident("@ + str_debug_text(s) + ")"@,
        SpecToken::Let => "Let"@,
        SpecToken::Mut => "Mut"@,
        SpecToken::Fn => "Fn"@,
        SpecToken::Return => "Return"@,
        SpecToken::If => "If"@,
        SpecToken::Else => "Else"@,
        SpecToken::While => "While"@,
        SpecToken::For => "For"@,
        SpecToken::In => "In"@,
        SpecToken::Break => "Break"@,
        SpecToken::Continue => "Continue"@,
        SpecToken::Match => "Match"@,
        SpecToken::Struct => "Struct"@,
        SpecToken::Impl => "Impl"@,
        SpecToken::Self_ => "Self_"@,
        SpecToken::As => "As"@,
        SpecToken::True => "True"@,
        SpecToken::False => "False"@,
        SpecToken::None_ => "None_"@,
        SpecToken::Underscore => "Underscore"@,
        SpecToken::Plus => "Plus"@,
        SpecToken::Minus => "Minus"@,
        SpecToken::Star => "Star"@,
        SpecToken::Slash => "Slash"@,
        SpecToken::Percent => "Percent"@,
        SpecToken::Eq => "Eq"@,
        SpecToken::NotEq => "NotEq"@,
        SpecToken::Lt => "Lt"@,
        SpecToken::Gt => "Gt"@,
        SpecToken::LtEq => "LtEq"@,
        SpecToken::GtEq => "GtEq"@,
        SpecToken::And => "And"@,
        SpecToken::Or => "Or"@,
        SpecToken::Bang => "Bang"@,
        SpecToken::Assign => "Assign"@,
        SpecToken::PlusAssign => "PlusAssign"@,
        SpecToken::MinusAssign => "MinusAssign"@,
        SpecToken::StarAssign => "StarAssign"@,
        SpecToken::SlashAssign => "SlashAssign"@,
        SpecToken::Arrow => "Arrow"@,
        SpecToken::FatArrow => "FatArrow"@,
        SpecToken::DotDot => "DotDot"@,
        SpecToken::DotDotEq => "DotDotEq"@,
        SpecToken::Dot => "Dot"@,
        SpecToken::Comma => "Comma"@,
        SpecToken::Colon => "Colon"@,
        SpecToken::Semicolon => "Semicolon"@,
        SpecToken::LParen => "LParen"@,
        SpecToken::RParen => "RParen"@,
        SpecToken::LBrace => "LBrace"@,
        SpecToken::RBrace => "RBrace"@,
        SpecToken::LBracket => "LBracket"@,
        SpecToken::RBracket => "RBracket"@,
        SpecToken::Question => "Question"@,
        SpecToken::EOF => "EOF"@,
    }
}

/// The debug text of a type: the variant's name, and its payload in
/// parentheses (a tuple's element types as a bracketed list).
pub open spec fn type_debug_text(t: SpecType) -> Seq<char>
    decreases t, 0int,
{
    match t {
        SpecType::I32 => "I32"@,
        SpecType::I64 => "I64"@,
        SpecType::F64 => "F64"@,
        SpecType::Bool => "Bool"@,
        SpecType::Str => "Str"@,
        SpecType::Void => "Void"@,
        SpecType::SelfType => "SelfType"@,
        SpecType::Range => "Range"@,
        SpecType::Tuple(ts) => "Tuple(["@ + types_debug_upto(ts, ts.len() as int) + "])"@,
        SpecType::Array(b) => "Array("@ + type_debug_text(*b) + ")"@,
        SpecType::Optional(b) => "Optional("@ + type_debug_text(*b) + ")"@,
        SpecType::Named(n) => "Named("@ + str_debug_text(n) + ")"@,
    }
}

/// The debug texts of the first `n` types, separated by `, `.
pub open spec fn types_debug_upto(ts: Seq<SpecType>, n: int) -> Seq<char>
    decreases ts, n,
{
    if n <= 0 || n > ts.len() {
        Seq::empty()
    } else if n == 1 {
        type_debug_text(ts[0])
    } else {
        types_debug_upto(ts, n - 1) + ", "@ + type_debug_text(ts[n - 1])
    }
}

fn append_chars(v: &mut Vec<char>, w: &Vec<char>)
    ensures
        final(v)@ == old(v)@ + w@,
{
    let mut i: usize = 0;
    while i < w.len()
        invariant
            i <= w@.len(),
            v@ == old(v)@ + w@.take(i as int),
        decreases w.len() - i,
    {
        v.push(w[i]);
        i = i + 1;
        proof {
            assert(w@.take(i as int) =~= w@.take(i - 1).push(w@[i - 1]));
        }
    }
    proof {
        assert(w@.take(w@.len() as int) =~= w@);
    }
}

fn append_str(v: &mut Vec<char>, s: &str)
    ensures
        final(v)@ == old(v)@ + s@,
{
    let w = chars_of(s);
    append_chars(v, &w);
}

/// The characters of `float_literal_debug(s)`.
fn float_debug_chars(s: &String) -> (v: Vec<char>)
    ensures
        v@ == float_literal_debug(s@),
{
    let c = chars_of(s.as_str());
    let n = c.len();
    // the point
    let mut p: usize = 0;
    while p < n && c[p] != '.'
        invariant
            p <= n,
            n == c@.len(),
            c@ == s@,
            point_at(s@, 0) == point_at(s@, p as int),
        decreases n - p,
    {
        p = p + 1;
    }
    // the integer part, leading zeros dropped
    let mut a: usize = 0;
    proof {
        assert(s@.subrange(0, p as int).subrange(0, p as int) =~= s@.subrange(0, p as int));
    }
    while a < p && c[a] == '0'
        invariant
            a <= p <= n,
            n == c@.len(),
            c@ == s@,
            drop_leading_zeros(s@.subrange(0, p as int)) == drop_leading_zeros(s@.subrange(a as int, p as int)),
        decreases p - a,
    {
        proof {
            assert(s@.subrange(a as int, p as int).drop_first() =~= s@.subrange(a + 1, p as int));
        }
        a = a + 1;
    }
    let mut out: Vec<char> = Vec::new();
    if a == p {
        out.push('0');
    } else {
        let mut k: usize = a;
        while k < p
            invariant
                a <= k <= p <= n,
                n == c@.len(),
                c@ == s@,
                out@ == s@.subrange(a as int, k as int),
            decreases p - k,
        {
            out.push(c[k]);
            k = k + 1;
        }
    }
    proof {
        assert(or_zero(drop_leading_zeros(s@.subrange(0, p as int))) =~= out@);
    }
    out.push('.');
    // the fraction, trailing zeros dropped
    let start: usize = if p < n { p + 1 } else { n };
    let ghost frac = if p < n { s@.subrange(p + 1, n as int) } else { Seq::<char>::empty() };
    proof {
        assert(frac =~= s@.subrange(start as int, n as int));
    }
    let mut b: usize = n;
    while b > start && c[b - 1] == '0'
        invariant
            start <= b <= n,
            n == c@.len(),
            c@ == s@,
            drop_trailing_zeros(frac) == drop_trailing_zeros(s@.subrange(start as int, b as int)),
        decreases b,
    {
        proof {
            assert(s@.subrange(start as int, b as int).drop_last() =~= s@.subrange(start as int, b - 1));
        }
        b = b - 1;
    }
    let ghost before = out@;
    if b == start {
        out.push('0');
    } else {
        let mut k: usize = start;
        while k < b
            invariant
                start <= k <= b <= n,
                n == c@.len(),
                c@ == s@,
                out@ == before + s@.subrange(start as int, k as int),
            decreases b - k,
        {
            out.push(c[k]);
            k = k + 1;
        }
    }
    proof {
        assert(out@ =~= before + or_zero(drop_trailing_zeros(frac)));
        assert(point_at(s@, p as int) == p as int);
        assert(out@ =~= float_literal_debug(s@));
    }
    out
}

fn u64_digits(n: u64) -> (v: Vec<char>)
    ensures
        v@ == dec_text(n as nat),
    decreases n,
{
    let d = (n % 10) as u8;
    let c = if d == 0 { '0' } else if d == 1 { '1' } else if d == 2 { '2' } else if d == 3 { '3' }
        else if d == 4 { '4' } else if d == 5 { '5' } else if d == 6 { '6' } else if d == 7 { '7' }
        else if d == 8 { '8' } else { '9' };
    proof {
        assert(c == digit_char((n % 10) as nat));
    }
    if n < 10 {
        let mut v: Vec<char> = Vec::new();
        v.push(c);
        proof {
            assert(v@ =~= seq![digit_char(n as nat)]);
        }
        v
    } else {
        let mut v = u64_digits(n / 10);
        v.push(c);
        v
    }
}

fn int_chars(n: i64) -> (v: Vec<char>)
    ensures
        v@ == int_text(n),
{
    if n < 0 {
        let m: u64 = (0i128 - (n as i128)) as u64;
        let mut v: Vec<char> = Vec::new();
        v.push('-');
        let d = u64_digits(m);
        append_chars(&mut v, &d);
        proof {
            assert(v@ =~= seq!['-'] + dec_text((-(n as int)) as nat));
        }
        v
    } else {
        u64_digits(n as u64)
    }
}

/// The debug text of a string, built character by character.
fn str_debug_chars(s: &String) -> (v: Vec<char>)
    ensures
        v@ == str_debug_text(s@),
{
    let cs = chars_of(s.as_str());
    let mut v: Vec<char> = Vec::new();
    v.push('"');
    let mut i: usize = 0;
    while i < cs.len()
        invariant
            i <= cs@.len(),
            cs@ == s@,
            v@ == seq!['"'] + str_debug_body(cs@.take(i as int)),
        decreases cs.len() - i,
    {
        let c = cs[i];
        let ghost before = v@;
        if c == '\'' {
            v.push('\'');
        } else {
            let e = escape_debug_char(c);
            append_str(&mut v, e.as_str());
        }
        proof {
            assert(cs@.take(i + 1).drop_last() =~= cs@.take(i as int));
            assert(v@ =~= before + char_in_str_debug(c));
        }
        i = i + 1;
    }
    v.push('"');
    proof {
        assert(cs@.take(cs@.len() as int) =~= cs@);
    }
    v
}

fn token_chars(t: &Token) -> (v: Vec<char>)
    ensures
        v@ == token_debug_text(t@),
{
    match t {
        Token::Int(n) => {
            let mut v = chars_of("Int(");
            let d = int_chars(*n);
            append_chars(&mut v, &d);
            append_str(&mut v, ")");
            v
        },
        Token::Float(s) => {
            let mut v = chars_of("Float(");
            let d = float_debug_chars(s);
            append_chars(&mut v, &d);
            append_str(&mut v, ")");
            v
        },
        Token::Str(s) => {
            let mut v = chars_of("Str(");
            let d = str_debug_chars(s);
            append_chars(&mut v, &d);
            append_str(&mut v, ")");
            v
        },
        Token::StringLit(s) => {
            let mut v = chars_of("StringLit(");
            let d = str_debug_chars(s);
            append_chars(&mut v, &d);
            append_str(&mut v, ")");
            v
        },
        Token::Bool(b) => {
            let mut v = chars_of("Bool(");
            if *b {
                append_str(&mut v, "true");
            } else {
                append_str(&mut v, "false");
            }
            append_str(&mut v, ")");
            v
        },
        Token::Ident(s) => {
            let mut v = chars_of("Ident(");
            let d = str_debug_chars(s);
            append_chars(&mut v, &d);
            append_str(&mut v, ")");
            v
        },
        Token::Let => chars_of("Let"),
        Token::Mut => chars_of("Mut"),
        Token::Fn => chars_of("Fn"),
        Token::Return => chars_of("Return"),
        Token::If => chars_of("If"),
        Token::Else => chars_of("Else"),
        Token::While => chars_of("While"),
        Token::For => chars_of("For"),
        Token::In => chars_of("In"),
        Token::Break => chars_of("Break"),
        Token::Continue => chars_of("Continue"),
        Token::Match => chars_of("Match"),
        Token::Struct => chars_of("Struct"),
        Token::Impl => chars_of("Impl"),
        Token::Self_ => chars_of("Self_"),
        Token::As => chars_of("As"),
        Token::True => chars_of("True"),
        Token::False => chars_of("False"),
        Token::None_ => chars_of("None_"),
        Token::Underscore => chars_of("Underscore"),
        Token::Plus => chars_of("Plus"),
        Token::Minus => chars_of("Minus"),
        Token::Star => chars_of("Star"),
        Token::Slash => chars_of("Slash"),
        Token::Percent => chars_of("Percent"),
        Token::Eq => chars_of("Eq"),
        Token::NotEq => chars_of("NotEq"),
        Token::Lt => chars_of("Lt"),
        Token::Gt => chars_of("Gt"),
        Token::LtEq => chars_of("LtEq"),
        Token::GtEq => chars_of("GtEq"),
        Token::And => chars_of("And"),
        Token::Or => chars_of("Or"),
        Token::Bang => chars_of("Bang"),
        Token::Assign => chars_of("Assign"),
        Token::PlusAssign => chars_of("PlusAssign"),
        Token::MinusAssign => chars_of("MinusAssign"),
        Token::StarAssign => chars_of("StarAssign"),
        Token::SlashAssign => chars_of("SlashAssign"),
        Token::Arrow => chars_of("Arrow"),
        Token::FatArrow => chars_of("FatArrow"),
        Token::DotDot => chars_of("DotDot"),
        Token::DotDotEq => chars_of("DotDotEq"),
        Token::Dot => chars_of("Dot"),
        Token::Comma => chars_of("Comma"),
        Token::Colon => chars_of("Colon"),
        Token::Semicolon => chars_of("Semicolon"),
        Token::LParen => chars_of("LParen"),
        Token::RParen => chars_of("RParen"),
        Token::LBrace => chars_of("LBrace"),
        Token::RBrace => chars_of("RBrace"),
        Token::LBracket => chars_of("LBracket"),
        Token::RBracket => chars_of("RBracket"),
        Token::Question => chars_of("Question"),
        Token::EOF => chars_of("EOF"),
    }
}

/// Formats a token as its derived `Debug` implementation does.
pub fn debug_token(t: &Token) -> (s: String)
    ensures
        s@ == token_debug_text(t@),
{
    let v = token_chars(t);
    string_from_chars(&v)
}

#[verifier::loop_isolation(false)]
fn type_chars(t: &Type) -> (v: Vec<char>)
    ensures
        v@ == type_debug_text(t@),
    decreases t,
{
    match t {
        Type::I32 => chars_of("I32"),
        Type::I64 => chars_of("I64"),
        Type::F64 => chars_of("F64"),
        Type::Bool => chars_of("Bool"),
        Type::Str => chars_of("Str"),
        Type::Void => chars_of("Void"),
        Type::SelfType => chars_of("SelfType"),
        Type::Range => chars_of("Range"),
        Type::Tuple(elems) => {
            let ghost ts = crate::ast::spec_types(elems@);
            proof {
                crate::ast::lemma_spec_types_len(elems@);
            }
            let mut v = chars_of("Tuple([");
            let ghost start = v@;
            let mut i: usize = 0;
            while i < elems.len()
                invariant
                    i <= elems.len(),
                    ts.len() == elems.len(),
                    forall|j: int| 0 <= j < elems.len() ==> #[trigger] ts[j] == elems@[j]@,
                    v@ == start + types_debug_upto(ts, i as int),
                decreases elems.len() - i,
            {
                proof {
                    assert(decreases_to!(elems => elems@));
                    assert(decreases_to!(elems@ => elems@[i as int]));
                }
                let ghost before = v@;
                if i > 0 {
                    append_str(&mut v, ", ");
                }
                let d = type_chars(&elems[i]);
                append_chars(&mut v, &d);
                proof {
                    assert(ts[i as int] == elems@[i as int]@);
                    if i == 0 {
                        assert(v@ =~= start + types_debug_upto(ts, 1));
                    } else {
                        assert(v@ =~= start + types_debug_upto(ts, i + 1));
                    }
                }
                i = i + 1;
            }
            append_str(&mut v, "])");
            v
        },
        Type::Array(b) => {
            let mut v = chars_of("Array(");
            let d = type_chars(b);
            append_chars(&mut v, &d);
            append_str(&mut v, ")");
            v
        },
        Type::Optional(b) => {
            let mut v = chars_of("Optional(");
            let d = type_chars(b);
            append_chars(&mut v, &d);
            append_str(&mut v, ")");
            v
        },
        Type::Named(n) => {
            let mut v = chars_of("Named(");
            let d = str_debug_chars(n);
            append_chars(&mut v, &d);
            append_str(&mut v, ")");
            v
        },
    }
}

/// Formats a type as its derived `Debug` implementation does.
pub fn debug_type(t: &Type) -> (s: String)
    ensures
        s@ == type_debug_text(t@),
{
    let v = type_chars(t);
    string_from_chars(&v)
}

} // verus!
