use lualex::lexer::{Lexeme, Lexer};
use lualex::numeral::Numeral;
use lualex::token::Token;

/// The floating-point number that a numeral denotes.
fn number_value(numeral: &Numeral) -> f64 {
    match numeral {
        Numeral::Decimal(text) => text.parse::<f64>().unwrap(),
        Numeral::Hexadecimal(value) => *value as f64,
    }
}

/// The next token, or `None` at the end of the text. A fatal error ends the
/// test.
fn next_token(lex: &mut Lexer) -> Option<Token> {
    match lex.next() {
        Ok(Some(Lexeme(tk, _))) => Some(tk),
        Ok(None) => None,
        Err(e) => panic!("{}", e.message()),
    }
}

/// Reads the rest of the text.
fn drain(lex: &mut Lexer) {
    while next_token(lex).is_some() {}
}

/// Holds the tokens of `lex` against `expected`, one by one, then reads
/// the rest.
fn matchseq(lex: &mut Lexer, expected: Vec<Token>) {
    for want in expected {
        match next_token(lex) {
            Some(tk) => assert_eq!(tk, want),
            None => panic!("the text ended before {:?}", want),
        }
    }
    drain(lex);
}

/// Holds the tokens of `lex` against the numbers `expected`, one by one,
/// then reads the rest.
fn matchnumbers(lex: &mut Lexer, expected: Vec<f64>) {
    for want in expected {
        match next_token(lex) {
            Some(Token::Number(numeral)) => assert_eq!(number_value(&numeral), want),
            Some(other) => panic!("{:?} is no number", other),
            None => panic!("the text ended before {:?}", want),
        }
    }
    drain(lex);
}

#[test]
fn lex_op_dot() {
    let src = format!(". .. ...");
    let mut lex = Lexer::new(&src);
    matchseq(&mut lex, vec![Token::MemberAccess, Token::Concat, Token::VarArgs]);
}

#[test]
fn lex_op_comp() {
    let src = format!("< <= > >= == ~=");
    let mut lex = Lexer::new(&src);
    matchseq(
        &mut lex,
        vec![
            Token::LessThan,
            Token::LessThanEqual,
            Token::GreaterThan,
            Token::GreaterThanEqual,
            Token::Equal,
            Token::NotEqual,
        ],
    );
}

#[test]
fn lex_comment() {
    let src = format!("\n-- hello, world!\n");
    let mut lex = Lexer::new(&src);
    matchseq(&mut lex, vec![Token::Comment(format!("hello, world!"))]);
}

#[test]
fn lex_hashbang() {
    let src = format!("#!/usr/bin/env lua\n");
    let mut lex = Lexer::new(&src);
    matchseq(&mut lex, vec![Token::Hashbang(format!("/usr/bin/env lua"))]);
}

#[test]
#[should_panic]
fn lex_hashbang_invalid() {
    let src = format!("\n#!/usr/bin/env lua\n");
    let mut lex = Lexer::new(&src);
    matchseq(&mut lex, vec![]);
}

#[test]
fn lex_ident() {
    let src = format!("hello world");
    let mut lex = Lexer::new(&src);
    matchseq(&mut lex, vec![Token::from("hello"), Token::from("world")]);
}

#[test]
fn lex_num_dec_int() {
    let src = format!("1234");
    let mut lex = Lexer::new(&src);
    matchnumbers(&mut lex, vec![1234f64]);
}

#[test]
fn lex_num_dec_int_exp() {
    let src = format!("1234E31");
    let mut lex = Lexer::new(&src);
    matchnumbers(&mut lex, vec![1234E31f64]);
}

#[test]
#[should_panic]
fn lex_num_dec_int_invalid_exp() {
    let src = format!("1234EFF");
    let mut lex = Lexer::new(&src);
    matchseq(&mut lex, vec![]);
}

#[test]
fn lex_num_dec_float() {
    let src = format!("1.234");
    let mut lex = Lexer::new(&src);
    matchnumbers(&mut lex, vec![1.234f64]);
}

#[test]
fn lex_num_hex_int() {
    let src = format!("0xFFFF");
    let mut lex = Lexer::new(&src);
    matchnumbers(&mut lex, vec![65535f64]);
}

#[test]
#[should_panic]
fn lex_num_hex_eof() {
    let src = format!("0x");
    let mut lex = Lexer::new(&src);
    matchseq(&mut lex, vec![]);
}

#[test]
#[should_panic]
fn lex_num_hex_misformed() {
    let src = format!("0xy");
    let mut lex = Lexer::new(&src);
    matchseq(&mut lex, vec![]);
}

#[test]
fn lex_str() {
    let src = format!("\"Hello, '\\\"world!\\\"'\"\n'ayoo\\a'");
    let mut lex = Lexer::new(&src);
    matchseq(
        &mut lex,
        vec![
            Token::StaticString(format!("Hello, '\"world!\"'")),
            Token::StaticString(format!("ayoo\x07")),
        ],
    );
}

#[test]
fn lex_general() {
    let src = format!(
        "function Memoize(fn) fn = fn or function(x) return nil end return \
         setmetatable({{}}, {{ __index = function(t, k) local val = fn(k) t[k] \
         = val return val end, __call  = function(t, k) return t[k] end }}) end"
    );
    let mut lex = Lexer::new(&src);
    matchseq(
        &mut lex,
        vec![
            Token::from("function"),
            Token::from("Memoize"),
            Token::OpenParen,
            Token::from("fn"),
            Token::CloseParen,
            Token::from("fn"),
            Token::Assignment,
            Token::from("fn"),
            Token::from("or"),
            Token::from("function"),
            Token::OpenParen,
            Token::from("x"),
            Token::CloseParen,
            Token::from("return"),
            Token::from("nil"),
            Token::from("end"),
            Token::from("return"),
            Token::from("setmetatable"),
            Token::OpenParen,
            Token::OpenBrace,
            Token::CloseBrace,
            Token::Comma,
            Token::OpenBrace,
            Token::from("__index"),
            Token::Assignment,
            Token::from("function"),
            Token::OpenParen,
            Token::from("t"),
            Token::Comma,
            Token::from("k"),
            Token::CloseParen,
            Token::from("local"),
            Token::from("val"),
            Token::Assignment,
            Token::from("fn"),
            Token::OpenParen,
            Token::from("k"),
            Token::CloseParen,
            Token::from("t"),
            Token::OpenBracket,
            Token::from("k"),
            Token::CloseBracket,
            Token::Assignment,
            Token::from("val"),
            Token::from("return"),
            Token::from("val"),
            Token::from("end"),
            Token::Comma,
            Token::from("__call"),
            Token::Assignment,
            Token::from("function"),
            Token::OpenParen,
            Token::from("t"),
            Token::Comma,
            Token::from("k"),
            Token::CloseParen,
            Token::from("return"),
            Token::from("t"),
            Token::OpenBracket,
            Token::from("k"),
            Token::CloseBracket,
            Token::from("end"),
            Token::CloseBrace,
            Token::CloseParen,
            Token::from("end"),
        ],
    );
}
