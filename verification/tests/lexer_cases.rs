use pebbles::lexer::{Lexer, Token};

fn lex(src: &str) -> Vec<(Token, usize)> {
    let mut lx = Lexer::new(src);
    lx.tokenize()
}

fn kinds(src: &str) -> Vec<String> {
    lex(src).iter().map(|(t, _)| format!("{:?}", t)).collect()
}

#[test]
fn empty_source_is_only_eof() {
    let toks = lex("");
    assert_eq!(toks.len(), 1);
    assert!(matches!(toks[0].0, Token::EOF));
    assert_eq!(toks[0].1, 1);
}

#[test]
fn token_list_ends_with_a_single_eof() {
    let toks = lex("fn main() { let x = 1 }");
    assert!(matches!(toks.last().unwrap().0, Token::EOF));
    let eofs = toks.iter().filter(|(t, _)| matches!(t, Token::EOF)).count();
    assert_eq!(eofs, 1);
}

#[test]
fn keywords_identifiers_and_punctuation() {
    assert_eq!(
        kinds("fn add(a: i32) -> i32 { return a }"),
        vec![
            "Fn", "Ident(\"add\")", "LParen", "Ident(\"a\")", "Colon", "Ident(\"i32\")", "RParen",
            "Arrow", "Ident(\"i32\")", "LBrace", "Return", "Ident(\"a\")", "RBrace", "EOF",
        ]
    );
}

#[test]
fn two_character_operators() {
    assert_eq!(
        kinds("== != <= >= && || += -= *= /= => .. ..="),
        vec![
            "Eq", "NotEq", "LtEq", "GtEq", "And", "Or", "PlusAssign", "MinusAssign", "StarAssign",
            "SlashAssign", "FatArrow", "DotDot", "DotDotEq", "EOF",
        ]
    );
}

#[test]
fn numbers_integer_and_float() {
    let toks = lex("42 3.25 7");
    assert!(matches!(toks[0].0, Token::Int(42)));
    match &toks[1].0 {
        Token::Float(text) => assert_eq!(text, "3.25"),
        other => panic!("expected float, found {:?}", other),
    }
    assert!(matches!(toks[2].0, Token::Int(7)));
}

#[test]
fn integer_range_is_not_a_float() {
    assert_eq!(kinds("0..10"), vec!["Int(0)", "DotDot", "Int(10)", "EOF"]);
}

#[test]
fn string_literal_with_escapes() {
    let toks = lex("\"a\\nb\\t\\\"c\\\"\"");
    match &toks[0].0 {
        Token::StringLit(s) => assert_eq!(s, "a\nb\t\"c\""),
        other => panic!("expected string, found {:?}", other),
    }
}

#[test]
fn comments_are_skipped_and_lines_counted() {
    let toks = lex("let x = 1 // one\n/* two\nlines */ let y = 2");
    let lets: Vec<usize> = toks.iter().filter(|(t, _)| matches!(t, Token::Let)).map(|(_, l)| *l).collect();
    assert_eq!(lets, vec![1, 3]);
}

#[test]
fn booleans_and_none() {
    assert_eq!(kinds("true false none"), vec!["Bool(true)", "Bool(false)", "None_", "EOF"]);
}

#[test]
fn underscore_and_self() {
    assert_eq!(kinds("_ self x_1"), vec!["Underscore", "Self_", "Ident(\"x_1\")", "EOF"]);
}

#[test]
fn unicode_spaces_separate_tokens() {
    assert_eq!(kinds("let\u{3000}x\u{00A0}=\u{2009}1"), vec!["Let", "Ident(\"x\")", "Assign", "Int(1)", "EOF"]);
}

#[test]
fn token_lines_never_decrease() {
    let toks = lex("fn main() {\n  let a = 1\n\n  let b = \"x\ny\"\n  print(b)\n}\n");
    for w in toks.windows(2) {
        assert!(w[0].1 <= w[1].1);
    }
    assert_eq!(toks.last().unwrap().1, 8);
}

#[test]
fn non_ascii_letters_continue_but_do_not_start_identifiers() {
    // an identifier starts with an ASCII letter or `_`; a character that starts
    // no token is skipped
    assert_eq!(kinds("café ñ1"), vec!["Ident(\"café\")", "Int(1)", "EOF"]);
}
