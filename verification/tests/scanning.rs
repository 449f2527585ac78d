use lualex::chars::{classify, decode_escape, CharClass, SourceChar};
use lualex::error::{LexError, LexErrorKind};
use lualex::lexer::{Lexeme, Lexer};
use lualex::numeral::Numeral;
use lualex::token::{Keyword, Token};

/// All the tokens of `src`, without their positions.
fn tokens_of(src: &str) -> Result<Vec<Token>, LexError> {
    let text = src.to_string();
    let mut lex = Lexer::new(&text);
    match lex.tokenize() {
        Ok(lexemes) => Ok(lexemes.into_iter().map(|Lexeme(tk, _)| tk).collect()),
        Err(e) => Err(e),
    }
}

/// The error that ends the analysis of `src`: its kind, line and column.
fn error_of(src: &str) -> (LexErrorKind, usize, usize) {
    match tokens_of(src) {
        Ok(tokens) => panic!("{:?} has no error: {:?}", src, tokens),
        Err(e) => (e.kind, e.position.line(), e.position.column()),
    }
}

/// The lines and columns of the lexemes of `src`.
fn positions_of(src: &str) -> Vec<(usize, usize)> {
    let text = src.to_string();
    let mut lex = Lexer::new(&text);
    let lexemes = lex.tokenize().unwrap();
    lexemes.iter().map(|Lexeme(_, p)| (p.line(), p.column())).collect()
}

fn ident(name: &str) -> Token {
    Token::Ident(name.to_string())
}

fn decimal(text: &str) -> Token {
    Token::Number(Numeral::Decimal(text.to_string()))
}

#[test]
fn whitespace_only_has_no_lexemes() {
    assert_eq!(tokens_of(""), Ok(vec![]));
    assert_eq!(tokens_of(" "), Ok(vec![]));
    assert_eq!(tokens_of(" \t\r\n\n  \u{a0}\u{2003}"), Ok(vec![]));
}

#[test]
fn exhausted_lexer_keeps_yielding_nothing() {
    let text = "x ".to_string();
    let mut lex = Lexer::new(&text);
    assert!(matches!(lex.next(), Ok(Some(_))));
    assert_eq!(lex.next(), Ok(None));
    assert_eq!(lex.next(), Ok(None));
    assert_eq!(lex.tokenize(), Ok(vec![]));
}

#[test]
fn same_text_gives_same_lexemes() {
    let text = "local x = 0x1F -- note\nreturn 'a\\n' .. x".to_string();
    let first = Lexer::new(&text).tokenize();
    let second = Lexer::new(&text).tokenize();
    assert!(first.is_ok());
    assert_eq!(first, second);
    let broken = "x = 'abc".to_string();
    assert_eq!(Lexer::new(&broken).tokenize(), Lexer::new(&broken).tokenize());
}

#[test]
fn pulls_and_tokenize_agree() {
    let text = "a + b\n* 12".to_string();
    let mut pulled = Vec::new();
    let mut lex = Lexer::new(&text);
    while let Some(lexeme) = lex.next().unwrap() {
        pulled.push(lexeme);
    }
    assert_eq!(Lexer::new(&text).tokenize(), Ok(pulled));
}

#[test]
fn positions_count_lines_and_columns() {
    assert_eq!(positions_of("a"), vec![(1, 0)]);
    assert_eq!(positions_of("  a"), vec![(1, 2)]);
    assert_eq!(positions_of("a bc\n  d\n\n e f"), vec![(1, 0), (1, 2), (2, 2), (4, 1), (4, 3)]);
    assert_eq!(positions_of("\n\n\nx"), vec![(4, 0)]);
    assert_eq!(positions_of("x\ny"), vec![(1, 0), (2, 0)]);
}

#[test]
fn position_is_that_of_the_first_character() {
    assert_eq!(positions_of("'a\nb' c"), vec![(1, 0), (2, 3)]);
    assert_eq!(positions_of("-- one\n-- two\nx"), vec![(1, 0), (2, 0), (3, 0)]);
    assert_eq!(positions_of("abc..def"), vec![(1, 0), (1, 3), (1, 5)]);
}

#[test]
fn single_character_punctuation() {
    assert_eq!(
        tokens_of("( ) [ ] { } | , ; + * / % ^ $ # - : = < > ."),
        Ok(vec![
            Token::OpenParen,
            Token::CloseParen,
            Token::OpenBracket,
            Token::CloseBracket,
            Token::OpenBrace,
            Token::CloseBrace,
            Token::Lambda,
            Token::Comma,
            Token::Semicolon,
            Token::Add,
            Token::Mul,
            Token::Div,
            Token::Mod,
            Token::Power,
            Token::Dollar,
            Token::Len,
            Token::SubOrMinus,
            Token::Colon,
            Token::Assignment,
            Token::LessThan,
            Token::GreaterThan,
            Token::MemberAccess,
        ])
    );
}

#[test]
fn punctuation_needs_no_space() {
    assert_eq!(
        tokens_of("(){}[]"),
        Ok(vec![
            Token::OpenParen,
            Token::CloseParen,
            Token::OpenBrace,
            Token::CloseBrace,
            Token::OpenBracket,
            Token::CloseBracket,
        ])
    );
    assert_eq!(tokens_of("a=b"), Ok(vec![ident("a"), Token::Assignment, ident("b")]));
}

#[test]
fn longest_operator_wins() {
    assert_eq!(tokens_of("::"), Ok(vec![Token::DoubleColon]));
    assert_eq!(tokens_of(":::"), Ok(vec![Token::DoubleColon, Token::Colon]));
    assert_eq!(tokens_of("==="), Ok(vec![Token::Equal, Token::Assignment]));
    assert_eq!(tokens_of("...."), Ok(vec![Token::VarArgs, Token::MemberAccess]));
    assert_eq!(tokens_of("....."), Ok(vec![Token::VarArgs, Token::Concat]));
    assert_eq!(tokens_of("<=="), Ok(vec![Token::LessThanEqual, Token::Assignment]));
    assert_eq!(tokens_of(">=>"), Ok(vec![Token::GreaterThanEqual, Token::GreaterThan]));
    assert_eq!(tokens_of("a.b"), Ok(vec![ident("a"), Token::MemberAccess, ident("b")]));
}

#[test]
fn lone_tilde_is_fatal() {
    assert_eq!(error_of("~"), (LexErrorKind::UnsupportedCharacter, 1, 0));
    assert_eq!(error_of("a ~ b"), (LexErrorKind::UnsupportedCharacter, 1, 2));
    assert_eq!(error_of("~~="), (LexErrorKind::UnsupportedCharacter, 1, 0));
}

#[test]
fn unsupported_characters_are_fatal() {
    assert_eq!(error_of("@"), (LexErrorKind::UnsupportedCharacter, 1, 0));
    assert_eq!(error_of("x\n  ?"), (LexErrorKind::UnsupportedCharacter, 2, 2));
    assert_eq!(error_of("a & b"), (LexErrorKind::UnsupportedCharacter, 1, 2));
    assert_eq!(error_of("!"), (LexErrorKind::UnsupportedCharacter, 1, 0));
    assert_eq!(error_of("\\"), (LexErrorKind::UnsupportedCharacter, 1, 0));
}

#[test]
fn comment_runs_to_the_end_of_the_line() {
    assert_eq!(
        tokens_of("x -- the rest\ny"),
        Ok(vec![ident("x"), Token::Comment("the rest".to_string()), ident("y")])
    );
    assert_eq!(tokens_of("--"), Ok(vec![Token::Comment(String::new())]));
    assert_eq!(tokens_of("--x"), Ok(vec![Token::Comment("x".to_string())]));
    assert_eq!(tokens_of("-- a -- b"), Ok(vec![Token::Comment("a -- b".to_string())]));
    assert_eq!(tokens_of("--- dashes"), Ok(vec![Token::Comment("- dashes".to_string())]));
}

#[test]
fn comment_passes_over_the_whitespace_before_its_text() {
    assert_eq!(tokens_of("--   spaced  "), Ok(vec![Token::Comment("spaced  ".to_string())]));
    assert_eq!(tokens_of("--\n  next line\nx"), Ok(vec![
        Token::Comment("next line".to_string()),
        ident("x"),
    ]));
}

#[test]
fn minus_is_no_comment() {
    assert_eq!(tokens_of("a - b"), Ok(vec![ident("a"), Token::SubOrMinus, ident("b")]));
    assert_eq!(tokens_of("-"), Ok(vec![Token::SubOrMinus]));
    assert_eq!(tokens_of("- -"), Ok(vec![Token::SubOrMinus, Token::SubOrMinus]));
}

#[test]
fn hashbang_only_at_the_very_start() {
    assert_eq!(
        tokens_of("#!/bin/lua\nx"),
        Ok(vec![Token::Hashbang("/bin/lua".to_string()), ident("x")])
    );
    assert_eq!(tokens_of("#!lua"), Ok(vec![Token::Hashbang("lua".to_string())]));
    assert_eq!(error_of("\n#!/usr/bin/env lua\n"), (LexErrorKind::MisplacedHashbang, 2, 0));
    assert_eq!(error_of(" #!lua"), (LexErrorKind::MisplacedHashbang, 1, 1));
    assert_eq!(error_of("x #!lua"), (LexErrorKind::MisplacedHashbang, 1, 2));
}

#[test]
fn hash_is_the_length_operator() {
    assert_eq!(tokens_of("#t"), Ok(vec![Token::Len, ident("t")]));
    assert_eq!(tokens_of("#"), Ok(vec![Token::Len]));
    assert_eq!(tokens_of("x # !"), Err(LexError {
        kind: LexErrorKind::UnsupportedCharacter,
        position: error_position("x # !"),
    }));
}

fn error_position(src: &str) -> lualex::position::TokenPosition {
    tokens_of(src).unwrap_err().position
}

#[test]
fn identifiers() {
    assert_eq!(tokens_of("_"), Ok(vec![ident("_")]));
    assert_eq!(tokens_of("_a1 b_2 C3"), Ok(vec![ident("_a1"), ident("b_2"), ident("C3")]));
    assert_eq!(tokens_of("x1y2"), Ok(vec![ident("x1y2")]));
    assert_eq!(tokens_of("caf\u{e9} \u{3b1}\u{3b2}"), Ok(vec![
        ident("caf\u{e9}"),
        ident("\u{3b1}\u{3b2}"),
    ]));
}

#[test]
fn keywords_are_identifiers() {
    assert_eq!(
        tokens_of("if x then end"),
        Ok(vec![ident("if"), ident("x"), ident("then"), ident("end")])
    );
}

#[test]
fn keyword_tokens_come_from_keywords() {
    assert_eq!(Token::from(Keyword::While), Token::Keyword(Keyword::While));
    assert_eq!(Token::from(Keyword::Nil), Token::Keyword(Keyword::Nil));
    assert_ne!(Token::from(Keyword::And), Token::from("and"));
    assert_eq!(Token::from("and"), Token::Ident("and".to_string()));
}

#[test]
fn strings_with_either_quote() {
    assert_eq!(tokens_of("\"\""), Ok(vec![Token::StaticString(String::new())]));
    assert_eq!(tokens_of("''"), Ok(vec![Token::StaticString(String::new())]));
    assert_eq!(tokens_of("'it\"s'"), Ok(vec![Token::StaticString("it\"s".to_string())]));
    assert_eq!(tokens_of("\"it's\""), Ok(vec![Token::StaticString("it's".to_string())]));
    assert_eq!(
        tokens_of("'a''b'"),
        Ok(vec![Token::StaticString("a".to_string()), Token::StaticString("b".to_string())])
    );
}

#[test]
fn string_is_followed_by_the_next_token() {
    assert_eq!(
        tokens_of("'a'..'b'"),
        Ok(vec![
            Token::StaticString("a".to_string()),
            Token::Concat,
            Token::StaticString("b".to_string()),
        ])
    );
    assert_eq!(tokens_of("\"a\"b"), Ok(vec![Token::StaticString("a".to_string()), ident("b")]));
}

#[test]
fn string_keeps_line_breaks() {
    assert_eq!(tokens_of("'a\nb'"), Ok(vec![Token::StaticString("a\nb".to_string())]));
}

#[test]
fn every_escape_code_is_decoded() {
    assert_eq!(
        tokens_of(r#""\\ \' \" \a \b \v \f \n \r \t \[ \]""#),
        Ok(vec![Token::StaticString(
            "\\ ' \" \x07 \x08 \x0b \x0c \n \r \t [ ]".to_string()
        )])
    );
}

#[test]
fn escape_table() {
    assert_eq!(decode_escape('\\'), Some('\\'));
    assert_eq!(decode_escape('\''), Some('\''));
    assert_eq!(decode_escape('"'), Some('"'));
    assert_eq!(decode_escape('a'), Some('\x07'));
    assert_eq!(decode_escape('b'), Some('\x08'));
    assert_eq!(decode_escape('v'), Some('\x0b'));
    assert_eq!(decode_escape('f'), Some('\x0c'));
    assert_eq!(decode_escape('n'), Some('\n'));
    assert_eq!(decode_escape('r'), Some('\r'));
    assert_eq!(decode_escape('t'), Some('\t'));
    assert_eq!(decode_escape('['), Some('['));
    assert_eq!(decode_escape(']'), Some(']'));
    assert_eq!(decode_escape('q'), None);
    assert_eq!(decode_escape('0'), None);
    assert_eq!(decode_escape('x'), None);
    assert_eq!(decode_escape('\n'), None);
}

#[test]
fn unterminated_string_is_fatal() {
    assert_eq!(error_of("'abc"), (LexErrorKind::UnterminatedString, 1, 4));
    assert_eq!(error_of("\"abc'"), (LexErrorKind::UnterminatedString, 1, 5));
    assert_eq!(error_of("'"), (LexErrorKind::UnterminatedString, 1, 1));
    assert_eq!(error_of("x = 'a\nb"), (LexErrorKind::UnterminatedString, 2, 1));
    assert_eq!(error_of("'a\\'"), (LexErrorKind::UnterminatedString, 1, 4));
}

#[test]
fn invalid_escape_is_fatal() {
    assert_eq!(error_of("'a\\qb'"), (LexErrorKind::InvalidEscapeSequence, 1, 4));
    assert_eq!(error_of("'\\0'"), (LexErrorKind::InvalidEscapeSequence, 1, 3));
    assert_eq!(error_of("'abc\\"), (LexErrorKind::InvalidEscapeSequence, 1, 5));
    assert_eq!(error_of("'\\\n'"), (LexErrorKind::InvalidEscapeSequence, 2, 0));
}

#[test]
fn decimal_numerals_keep_their_text() {
    assert_eq!(tokens_of("0"), Ok(vec![decimal("0")]));
    assert_eq!(tokens_of("1234"), Ok(vec![decimal("1234")]));
    assert_eq!(tokens_of("007"), Ok(vec![decimal("007")]));
    assert_eq!(tokens_of("1.234"), Ok(vec![decimal("1.234")]));
    assert_eq!(tokens_of("1."), Ok(vec![decimal("1.")]));
    assert_eq!(tokens_of("1234E31"), Ok(vec![decimal("1234E31")]));
    assert_eq!(tokens_of("1e5"), Ok(vec![decimal("1e5")]));
    assert_eq!(tokens_of("1.5e10"), Ok(vec![decimal("1.5e10")]));
    assert_eq!(tokens_of("1.e3"), Ok(vec![decimal("1.e3")]));
}

#[test]
fn exponent_takes_a_minus_sign() {
    assert_eq!(tokens_of("1e-5"), Ok(vec![decimal("1e-5")]));
    assert_eq!(tokens_of("25E-2"), Ok(vec![decimal("25E-2")]));
    assert_eq!(tokens_of("1.5e-3"), Ok(vec![decimal("1.5e-3")]));
}

#[test]
fn exponent_takes_no_plus_sign() {
    assert_eq!(error_of("1e+5"), (LexErrorKind::MalformedNumber, 1, 2));
}

#[test]
fn numeral_ends_at_the_first_character_that_is_no_part_of_it() {
    assert_eq!(tokens_of("12)"), Ok(vec![decimal("12"), Token::CloseParen]));
    assert_eq!(tokens_of("12+3"), Ok(vec![decimal("12"), Token::Add, decimal("3")]));
    assert_eq!(tokens_of("1 2"), Ok(vec![decimal("1"), decimal("2")]));
    assert_eq!(tokens_of("12abc"), Ok(vec![decimal("12"), ident("abc")]));
    assert_eq!(tokens_of("1.5;"), Ok(vec![decimal("1.5"), Token::Semicolon]));
    assert_eq!(tokens_of("3x"), Ok(vec![decimal("3"), ident("x")]));
    assert_eq!(tokens_of("1-2"), Ok(vec![decimal("1"), Token::SubOrMinus, decimal("2")]));
}

#[test]
fn point_begins_no_numeral() {
    assert_eq!(tokens_of(".5"), Ok(vec![Token::MemberAccess, decimal("5")]));
}

#[test]
fn second_point_is_fatal() {
    assert_eq!(error_of("1.2.3"), (LexErrorKind::MalformedNumber, 1, 3));
    assert_eq!(error_of("1.."), (LexErrorKind::MalformedNumber, 1, 2));
    assert_eq!(error_of("x = 1.2.3"), (LexErrorKind::MalformedNumber, 1, 7));
}

#[test]
fn anything_but_a_digit_in_an_exponent_is_fatal() {
    assert_eq!(error_of("1234EFF"), (LexErrorKind::MalformedNumber, 1, 5));
    assert_eq!(error_of("1e5e3"), (LexErrorKind::MalformedNumber, 1, 3));
    assert_eq!(error_of("1e5 "), (LexErrorKind::MalformedNumber, 1, 3));
    assert_eq!(error_of("1e5)"), (LexErrorKind::MalformedNumber, 1, 3));
    assert_eq!(error_of("1e--5"), (LexErrorKind::MalformedNumber, 1, 3));
}

#[test]
fn numeral_that_denotes_no_number_is_fatal() {
    assert_eq!(error_of("1e"), (LexErrorKind::MalformedNumber, 1, 2));
    assert_eq!(error_of("1e-"), (LexErrorKind::MalformedNumber, 1, 3));
    assert_eq!(error_of("1e.5"), (LexErrorKind::MalformedNumber, 1, 4));
    assert_eq!(error_of("1e5.5"), (LexErrorKind::MalformedNumber, 1, 5));
    assert_eq!(error_of("2e3."), (LexErrorKind::MalformedNumber, 1, 4));
}

#[test]
fn hexadecimal_numerals_have_their_value() {
    assert_eq!(tokens_of("0xFFFF"), Ok(vec![Token::Number(Numeral::Hexadecimal(65535))]));
    assert_eq!(tokens_of("0Xff"), Ok(vec![Token::Number(Numeral::Hexadecimal(255))]));
    assert_eq!(tokens_of("0x0"), Ok(vec![Token::Number(Numeral::Hexadecimal(0))]));
    assert_eq!(tokens_of("0x1e2"), Ok(vec![Token::Number(Numeral::Hexadecimal(0x1e2))]));
    assert_eq!(tokens_of("0xAbCdEf"), Ok(vec![Token::Number(Numeral::Hexadecimal(0xabcdef))]));
    assert_eq!(
        tokens_of("0x7fffffffffffffff"),
        Ok(vec![Token::Number(Numeral::Hexadecimal(i64::MAX))])
    );
    assert_eq!(
        tokens_of("0x0000000000000000000010"),
        Ok(vec![Token::Number(Numeral::Hexadecimal(16))])
    );
}

#[test]
fn hexadecimal_numeral_ends_at_the_first_character_that_is_no_digit() {
    assert_eq!(
        tokens_of("0xFFg"),
        Ok(vec![Token::Number(Numeral::Hexadecimal(255)), ident("g")])
    );
    assert_eq!(
        tokens_of("0x10 0x20"),
        Ok(vec![Token::Number(Numeral::Hexadecimal(16)), Token::Number(Numeral::Hexadecimal(32))])
    );
}

#[test]
fn hexadecimal_prefix_needs_a_digit() {
    assert_eq!(error_of("0x"), (LexErrorKind::MalformedHexNumeral, 1, 0));
    assert_eq!(error_of("0xy"), (LexErrorKind::MalformedHexNumeral, 1, 0));
    assert_eq!(error_of("0X"), (LexErrorKind::MalformedHexNumeral, 1, 0));
    assert_eq!(error_of("a 0x."), (LexErrorKind::MalformedHexNumeral, 1, 2));
    assert_eq!(error_of("0x "), (LexErrorKind::MalformedHexNumeral, 1, 0));
}

#[test]
fn only_zero_begins_a_hexadecimal_numeral() {
    assert_eq!(tokens_of("1x2"), Ok(vec![decimal("1"), ident("x2")]));
    assert_eq!(tokens_of("00x1"), Ok(vec![decimal("00"), ident("x1")]));
}

#[test]
fn hexadecimal_numeral_that_denotes_no_integer_is_fatal() {
    assert_eq!(error_of("0x8000000000000000"), (LexErrorKind::MalformedNumber, 1, 18));
    assert_eq!(error_of("0xFFFFFFFFFFFFFFFFFFFF"), (LexErrorKind::MalformedNumber, 1, 22));
    assert_eq!(error_of("0x1.8"), (LexErrorKind::MalformedNumber, 1, 5));
    assert_eq!(error_of("0x1."), (LexErrorKind::MalformedNumber, 1, 4));
    assert_eq!(error_of("0x1.2.3"), (LexErrorKind::MalformedNumber, 1, 5));
}

#[test]
fn error_ends_the_analysis() {
    let text = "a @ b".to_string();
    let mut lex = Lexer::new(&text);
    assert!(matches!(lex.next(), Ok(Some(_))));
    let first = lex.next();
    assert!(matches!(first, Err(LexError { kind: LexErrorKind::UnsupportedCharacter, .. })));
    assert_eq!(lex.next(), first);
    assert_eq!(lex.next(), first);
    assert_eq!(lex.tokenize(), Err(first.unwrap_err()));
}

#[test]
fn no_lexeme_comes_with_an_error() {
    assert!(tokens_of("a b c 'open").is_err());
    assert_eq!(error_of("a b c 'open"), (LexErrorKind::UnterminatedString, 1, 11));
}

#[test]
fn messages_give_position_and_description() {
    let e = tokens_of("\n#!/usr/bin/env lua\n").unwrap_err();
    assert_eq!(e.message(), "[2, 0] The shebang has to be on the first line!");
    assert_eq!(tokens_of("'abc").unwrap_err().message(), "[1, 4] Unterminated string.");
    assert_eq!(tokens_of("'\\q'").unwrap_err().message(), "[1, 3] Invalid escape code.");
    assert_eq!(
        tokens_of("1.2.3").unwrap_err().message(),
        "[1, 3] The number is malformed and doesn't parse."
    );
    assert_eq!(tokens_of("0xy").unwrap_err().message(), "[1, 0] Malformed hexadecimal numeral.");
    assert_eq!(tokens_of("@").unwrap_err().message(), "[1, 0] Unsupported character.");
}

#[test]
fn descriptions_of_the_kinds() {
    assert_eq!(LexErrorKind::UnterminatedString.description(), "Unterminated string.");
    assert_eq!(LexErrorKind::InvalidEscapeSequence.description(), "Invalid escape code.");
    assert_eq!(
        LexErrorKind::MalformedNumber.description(),
        "The number is malformed and doesn't parse."
    );
    assert_eq!(LexErrorKind::MalformedHexNumeral.description(), "Malformed hexadecimal numeral.");
    assert_eq!(
        LexErrorKind::MisplacedHashbang.description(),
        "The shebang has to be on the first line!"
    );
    assert_eq!(LexErrorKind::UnsupportedCharacter.description(), "Unsupported character.");
}

#[test]
fn messages_write_numbers_in_decimal() {
    let mut text = String::new();
    for _ in 0..122 {
        text.push('\n');
    }
    for _ in 0..4567 {
        text.push(' ');
    }
    text.push('@');
    let e = Lexer::new(&text).tokenize().unwrap_err();
    assert_eq!(e.position.line(), 123);
    assert_eq!(e.position.column(), 4567);
    assert_eq!(e.position.to_string(), "[123, 4567]");
    assert_eq!(e.message(), "[123, 4567] Unsupported character.");
}

#[test]
fn classes_come_from_the_unicode_tables() {
    let space = classify(' ');
    assert_eq!(space.value, ' ');
    assert!(space.class.whitespace && !space.class.alphabetic && !space.class.alphanumeric);
    let letter = classify('a');
    assert!(!letter.class.whitespace && letter.class.alphabetic && letter.class.alphanumeric);
    let digit = classify('7');
    assert!(!digit.class.whitespace && !digit.class.alphabetic && digit.class.alphanumeric);
    let sign = classify('+');
    assert!(!sign.class.whitespace && !sign.class.alphabetic && !sign.class.alphanumeric);
    assert!(classify('\n').class.whitespace);
    assert!(classify('\u{2003}').class.whitespace);
    assert!(classify('\u{3b1}').class.alphabetic);
    assert!(classify('\u{663}').class.alphanumeric && !classify('\u{663}').class.alphabetic);
}

#[test]
fn classified_text_is_scanned_by_its_classes() {
    let plain = CharClass { whitespace: false, alphabetic: false, alphanumeric: false };
    let blank = CharClass { whitespace: true, alphabetic: false, alphanumeric: false };
    let letter = CharClass { whitespace: false, alphabetic: true, alphanumeric: true };
    let chars = vec![
        SourceChar { value: 'x', class: blank },
        SourceChar { value: '+', class: letter },
        SourceChar { value: '9', class: letter },
        SourceChar { value: 'a', class: plain },
    ];
    let mut lex = Lexer::from_chars(chars);
    assert_eq!(lex.next().map(|l| l.map(|Lexeme(tk, p)| (tk, p.line(), p.column()))), Ok(Some((
        Token::Add,
        1,
        1,
    ))));
    assert_eq!(lex.next().map(|l| l.map(|Lexeme(tk, _)| tk)), Ok(Some(ident("9"))));
    assert!(matches!(lex.next(), Err(LexError { kind: LexErrorKind::UnsupportedCharacter, .. })));
}

#[test]
fn new_classifies_like_classify() {
    let text = "a1 +\u{e9}".to_string();
    let chars: Vec<SourceChar> = text.chars().map(classify).collect();
    assert_eq!(Lexer::new(&text).tokenize(), Lexer::from_chars(chars).tokenize());
}
