use candy::lexer::{Lexer, TokenKind};

#[test]
fn every_token_span_is_ordered_across_lines() {
    let src = "fn f() -> Int {\n  let s = \"abc\";\n  return 12;\n}\n";
    let toks = Lexer::new("m.candy", src).lex_all();
    for t in &toks {
        assert!(t.span.start_line <= t.span.end_line);
        if t.span.start_line == t.span.end_line {
            assert!(t.span.start_col <= t.span.end_col);
        }
    }
    let ret = toks.iter().find(|t| matches!(t.kind, TokenKind::KwReturn)).unwrap();
    assert_eq!((ret.span.start_line, ret.span.start_col, ret.span.end_col), (3, 3, 9));
    let eof = toks.last().unwrap();
    assert!(matches!(eof.kind, TokenKind::Eof));
    assert_eq!((eof.span.start_line, eof.span.start_col), (5, 1));
}

#[test]
fn lone_dash_and_unknown_chars_become_identifiers() {
    let toks = Lexer::new("t", "- -> @").lex_all();
    assert!(matches!(toks[0].kind, TokenKind::Ident(ref s) if s == "-"));
    assert!(matches!(toks[1].kind, TokenKind::Arrow));
    assert!(matches!(toks[2].kind, TokenKind::Ident(ref s) if s == "@"));
    assert_eq!(toks[1].span.start_col, 3);
    assert_eq!(toks[1].span.end_col, 5);
    assert_eq!(toks.len(), 4);
}

#[test]
fn unterminated_string_recovers_as_quote_identifier() {
    let toks = Lexer::new("t", "\"abc\nx").lex_all();
    assert!(matches!(toks[0].kind, TokenKind::Ident(ref s) if s == "\""));
    assert_eq!((toks[0].span.start_col, toks[0].span.end_col), (1, 5));
    assert!(matches!(toks[1].kind, TokenKind::Ident(ref s) if s == "x"));
    assert_eq!(toks[1].span.start_line, 2);
}

#[test]
fn integer_literals_saturate_to_zero() {
    let toks = Lexer::new("t", "9223372036854775807 9223372036854775808 007").lex_all();
    assert!(matches!(toks[0].kind, TokenKind::IntLit(9223372036854775807)));
    assert!(matches!(toks[1].kind, TokenKind::IntLit(0)));
    assert!(matches!(toks[2].kind, TokenKind::IntLit(7)));
}

#[test]
fn identifiers_and_keywords_are_case_sensitive() {
    let toks = Lexer::new("t", "Fn fn_x _a1 final").lex_all();
    assert!(matches!(toks[0].kind, TokenKind::Ident(ref s) if s == "Fn"));
    assert!(matches!(toks[1].kind, TokenKind::Ident(ref s) if s == "fn_x"));
    assert!(matches!(toks[2].kind, TokenKind::Ident(ref s) if s == "_a1"));
    assert!(matches!(toks[3].kind, TokenKind::FinalKw));
}

#[test]
fn empty_and_blank_input_give_only_the_end_marker() {
    let toks = Lexer::new("t", "").lex_all();
    assert_eq!(toks.len(), 1);
    assert!(matches!(toks[0].kind, TokenKind::Eof));
    assert_eq!((toks[0].span.start_line, toks[0].span.start_col), (1, 1));
    let toks = Lexer::new("t", " \t\n  ").lex_all();
    assert_eq!(toks.len(), 1);
    assert_eq!((toks[0].span.start_line, toks[0].span.start_col), (2, 3));
}

#[test]
fn next_token_keeps_returning_the_end_marker() {
    let mut lx = Lexer::new("t", "x");
    assert!(matches!(lx.next_token().kind, TokenKind::Ident(_)));
    assert!(matches!(lx.next_token().kind, TokenKind::Eof));
    assert!(matches!(lx.next_token().kind, TokenKind::Eof));
}
