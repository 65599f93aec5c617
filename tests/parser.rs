use lexer::diagnostics::Position;
use lexer::parser::{lookup_keyword, Lexer, LexingError};
use lexer::syntax::{Token, TokenKind};

fn kinds(text: &str) -> Vec<TokenKind> {
    let mut lexer = Lexer::new(text);
    let mut out = Vec::new();
    while let Some(result) = lexer.next() {
        match result {
            Ok(token) => out.push(token.kind().clone()),
            Err(e) => panic!("unexpected error: {:?}", e),
        }
    }
    out
}

fn first_error(text: &str) -> LexingError {
    let mut lexer = Lexer::new(text);
    loop {
        match lexer.next() {
            Some(Ok(_)) => {}
            Some(Err(e)) => return e,
            None => panic!("expected an error"),
        }
    }
}

#[test]
fn test_lexer() {
    let tokens = [
        TokenKind::Identifier(String::from("_abc_123_")),
        TokenKind::Number(123),
        TokenKind::Character('a'),
        TokenKind::String(String::from(r#"123abd.\"'"#)),
        TokenKind::Fn,
        TokenKind::Let,
        TokenKind::Ret,
        TokenKind::If,
        TokenKind::Elif,
        TokenKind::Else,
        TokenKind::B8,
        TokenKind::B16,
        TokenKind::B32,
        TokenKind::B64,
        TokenKind::B128,
        TokenKind::I8,
        TokenKind::I16,
        TokenKind::I32,
        TokenKind::I64,
        TokenKind::I128,
        TokenKind::F16,
        TokenKind::F32,
        TokenKind::F64,
        TokenKind::F128,
        TokenKind::CommercialAt,
        TokenKind::Colon,
        TokenKind::Semicolon,
        TokenKind::DoubleEqualsSign,
        TokenKind::RightwardsDoubleArrow,
        TokenKind::EqualsSign,
        TokenKind::DoublePlusSign,
        TokenKind::PlusSign,
        TokenKind::DoubleMinusSign,
        TokenKind::RightwardsArrow,
        TokenKind::MinusSign,
        TokenKind::LeftParenthesis,
        TokenKind::RightParenthesis,
        TokenKind::DoubleVerticalLine,
        TokenKind::VerticalLine,
    ];
    let mut lexer = Lexer::new(
        r#"
        _abc_123_   
        123 'a' "123abd.\\\"\'"
        fn let ret if elif else
        b8 b16 b32 b64 b128
        i8 i16 i32 i64 i128
        f16 f32 f64 f128
        @:;===>=+++--->-()|||
    "#,
    );
    for token in tokens {
        match lexer.next() {
            Some(Ok(result)) => {
                println!("expected: {:?}, recieved: {:?}", token, result.kind());
                if *result.kind() != token {
                    panic!()
                }
            }
            Some(Err(e)) => {
                println!("unexpected error: {:?}", e);
                panic!()
            }
            None => {
                println!("expected token");
                panic!()
            }
        }
    }
}

#[test]
fn same_input_lexes_the_same_twice() {
    let text = "fn f(x: i32) -> i32 = x ++ 'a' \"s\\\"t\" 42 ; bad#";
    let mut a = Lexer::new(text);
    let mut b = Lexer::new(text);
    loop {
        let (ra, rb) = (a.next(), b.next());
        match (ra, rb) {
            (None, None) => break,
            (Some(Ok(x)), Some(Ok(y))) => {
                assert_eq!(x.kind(), y.kind());
                assert_eq!(x.position, y.position);
            }
            (Some(Err(x)), Some(Err(y))) => assert_eq!(format!("{:?}", x), format!("{:?}", y)),
            _ => panic!("the two runs differ"),
        }
        assert_eq!(a.position(), b.position());
    }
}

#[test]
fn positions_advance_by_rows_and_columns() {
    let mut lexer = Lexer::new("a\n  b");
    assert_eq!(*lexer.position(), Position { row: 1, column: 1 });
    let a = lexer.next().unwrap().unwrap();
    assert_eq!(a.position, Position { row: 1, column: 2 });
    let b = lexer.next().unwrap().unwrap();
    assert_eq!(b.position, Position { row: 2, column: 4 });
    assert!(lexer.next().is_none());
    assert_eq!(*lexer.position(), Position { row: 2, column: 4 });
}

#[test]
fn positions_never_go_back() {
    let mut lexer = Lexer::new("x\n\ny  z\n;\n");
    let mut last = *lexer.position();
    loop {
        let more = lexer.next().is_some();
        let now = *lexer.position();
        assert!(now.row >= last.row);
        last = now;
        if !more {
            break;
        }
    }
    assert_eq!(last, Position { row: 5, column: 1 });
}

#[test]
fn newline_resets_column() {
    let mut p = Position { row: 3, column: 7 };
    p.advance('\n');
    assert_eq!(p, Position { row: 4, column: 1 });
    p.advance('x');
    assert_eq!(p, Position { row: 4, column: 2 });
    assert_eq!(Position::start(), Position { row: 1, column: 1 });
}

#[test]
fn maximal_munch_takes_compound_operators() {
    assert_eq!(kinds("=="), vec![TokenKind::DoubleEqualsSign]);
    assert_eq!(kinds("=>"), vec![TokenKind::RightwardsDoubleArrow]);
    assert_eq!(kinds("++"), vec![TokenKind::DoublePlusSign]);
    assert_eq!(kinds("--"), vec![TokenKind::DoubleMinusSign]);
    assert_eq!(kinds("->"), vec![TokenKind::RightwardsArrow]);
    assert_eq!(kinds("||"), vec![TokenKind::DoubleVerticalLine]);
    assert_eq!(kinds("==="), vec![TokenKind::DoubleEqualsSign, TokenKind::EqualsSign]);
}

#[test]
fn short_operators_leave_the_next_character() {
    assert_eq!(
        kinds("=a"),
        vec![TokenKind::EqualsSign, TokenKind::Identifier(String::from("a"))]
    );
    assert_eq!(kinds("+1"), vec![TokenKind::PlusSign, TokenKind::Number(1)]);
    assert_eq!(kinds("-("), vec![TokenKind::MinusSign, TokenKind::LeftParenthesis]);
    assert_eq!(kinds("|)"), vec![TokenKind::VerticalLine, TokenKind::RightParenthesis]);
    assert_eq!(kinds("=;"), vec![TokenKind::EqualsSign, TokenKind::Semicolon]);
}

#[test]
fn keywords_and_identifiers() {
    assert_eq!(kinds("fn"), vec![TokenKind::Fn]);
    assert_eq!(kinds("fn2"), vec![TokenKind::Identifier(String::from("fn2"))]);
    assert_eq!(kinds("_fn"), vec![TokenKind::Identifier(String::from("_fn"))]);
    assert_eq!(kinds("Fn"), vec![TokenKind::Identifier(String::from("Fn"))]);
    assert_eq!(kinds("héllo"), vec![TokenKind::Identifier(String::from("héllo"))]);
}

#[test]
fn word_stops_before_the_next_character() {
    assert_eq!(
        kinds("abc;x"),
        vec![
            TokenKind::Identifier(String::from("abc")),
            TokenKind::Semicolon,
            TokenKind::Identifier(String::from("x")),
        ]
    );
    assert_eq!(kinds("12@"), vec![TokenKind::Number(12), TokenKind::CommercialAt]);
}

#[test]
fn keyword_table_lookup() {
    assert_eq!(lookup_keyword("elif"), Some(TokenKind::Elif));
    assert_eq!(lookup_keyword("b128"), Some(TokenKind::B128));
    assert_eq!(lookup_keyword("f16"), Some(TokenKind::F16));
    assert_eq!(lookup_keyword("eli"), None);
    assert_eq!(lookup_keyword("i256"), None);
    assert_eq!(lookup_keyword(""), None);
}

#[test]
fn string_escapes_are_resolved() {
    assert_eq!(
        kinds(r#""123abd.\\\"\'""#),
        vec![TokenKind::String(String::from(r#"123abd.\"'"#))]
    );
    assert_eq!(kinds(r#""""#), vec![TokenKind::String(String::new())]);
}

#[test]
fn unterminated_string_keeps_what_was_read() {
    match first_error("\"abc") {
        LexingError::IncompleteString(v) => assert_eq!(v, vec!['a', 'b', 'c']),
        e => panic!("unexpected error: {:?}", e),
    }
    match first_error("\"ab\\") {
        LexingError::IncompleteString(v) => assert_eq!(v, vec!['a', 'b']),
        e => panic!("unexpected error: {:?}", e),
    }
}

#[test]
fn unknown_escape_is_reported() {
    match first_error(r#""a\nb""#) {
        LexingError::UnknownEscapeCharacter(c) => assert_eq!(c, 'n'),
        e => panic!("unexpected error: {:?}", e),
    }
}

#[test]
fn character_literals() {
    assert_eq!(kinds("'x'"), vec![TokenKind::Character('x')]);
    assert_eq!(kinds(r"'\''"), vec![TokenKind::Character('\'')]);
    assert!(matches!(first_error("'a"), LexingError::IncompleteCharacter));
    assert!(matches!(first_error("'ab'"), LexingError::IncompleteCharacter));
    assert!(matches!(first_error("'"), LexingError::IncompleteCharacter));
}

#[test]
fn numbers_are_read_in_decimal() {
    assert_eq!(kinds("007"), vec![TokenKind::Number(7)]);
    assert_eq!(kinds("0"), vec![TokenKind::Number(0)]);
    let max = usize::MAX.to_string();
    assert_eq!(kinds(&max), vec![TokenKind::Number(usize::MAX)]);
}

#[test]
fn too_large_number_fails_to_parse() {
    assert!(matches!(
        first_error("99999999999999999999999999999"),
        LexingError::NumberParsing(_)
    ));
}

#[test]
fn unknown_character_is_reported() {
    assert!(matches!(first_error("#"), LexingError::UnknownToken));
    let mut lexer = Lexer::new("# @");
    assert!(matches!(lexer.next(), Some(Err(LexingError::UnknownToken))));
    assert_eq!(lexer.next().unwrap().unwrap().kind, TokenKind::CommercialAt);
}

#[test]
fn whitespace_only_ends_the_stream() {
    let mut empty = Lexer::new("");
    assert!(empty.next().is_none());
    let mut blank = Lexer::new(" \n\t  \r\n ");
    assert!(blank.next().is_none());
    assert!(blank.next().is_none());
}

#[test]
fn new_token_has_no_kind_yet() {
    let t = Token::new(Position { row: 2, column: 5 });
    assert_eq!(*t.kind(), TokenKind::Empty);
    assert_eq!(t.position, Position { row: 2, column: 5 });
}
