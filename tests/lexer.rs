use candy::lexer::{Lexer, TokenKind};

#[test]
fn lex_effects_keyword() {
    let src = "effects(io, time)";
    let toks = Lexer::new("<memory>", src).lex_all();
    assert!(matches!(toks[0].kind, TokenKind::KwEffects));
    assert!(toks.iter().any(|t| matches!(t.kind, TokenKind::Comma)));
}

#[test]
fn lex_string_literal_basic() {
    let src = r#"fn main() -> Unit { "hello"; }"#;
    let toks = Lexer::new("<memory>", src).lex_all();
    let has_str = toks
        .iter()
        .any(|t| matches!(t.kind, TokenKind::StrLit(ref s) if s == "hello"));
    assert!(has_str, "expected StrLit(\"hello\") token");
}

#[test]
fn lex_effects_keyword_and_comma() {
    let src = r#"effects(io, time, rand)"#;
    let toks = Lexer::new("<t>", src).lex_all();

    assert!(matches!(toks[0].kind, TokenKind::KwEffects));
    assert!(matches!(toks[1].kind, TokenKind::LParen));
    assert!(matches!(toks[2].kind, TokenKind::Ident(ref s) if s == "io"));
    assert!(matches!(toks[3].kind, TokenKind::Comma));
    assert!(matches!(toks[4].kind, TokenKind::Ident(ref s) if s == "time"));
    assert!(matches!(toks[5].kind, TokenKind::Comma));
    assert!(matches!(toks[6].kind, TokenKind::Ident(ref s) if s == "rand"));
    assert!(matches!(toks[7].kind, TokenKind::RParen));
    assert!(matches!(toks.last().unwrap().kind, TokenKind::Eof));
}

#[test]
fn lex_string_literal_token_and_span_nonzero() {
    let src = r#"log("hello");"#;
    let toks = Lexer::new("<t>", src).lex_all();

    assert!(matches!(toks[0].kind, TokenKind::Ident(ref s) if s == "log"));
    assert!(matches!(toks[1].kind, TokenKind::LParen));
    match &toks[2] {
        t if matches!(t.kind, TokenKind::StrLit(_)) => {
            assert!(t.span.start_line == 1);
            assert!(t.span.start_col >= 1);
            assert!(t.span.end_col >= t.span.start_col);
        }
        _ => panic!("expected StrLit token"),
    }
    assert!(matches!(toks[3].kind, TokenKind::RParen));
    assert!(matches!(toks[4].kind, TokenKind::Semi));
}

#[test]
fn lex_keywords_and_symbols_with_spans() {
    let src = "fn main() -> Int { return 1; }";
    let toks = Lexer::new("main.candy", src).lex_all();

    assert!(matches!(toks[0].kind, TokenKind::KwFn));
    assert_eq!(toks[0].span.start_line, 1);
    assert_eq!(toks[0].span.start_col, 1);

    assert!(matches!(toks[1].kind, TokenKind::Ident(ref s) if s == "main"));
    assert_eq!(toks[1].span.start_col, 4);

    assert!(toks.iter().any(|t| matches!(t.kind, TokenKind::LParen)));
    assert!(toks.iter().any(|t| matches!(t.kind, TokenKind::Arrow)));
    assert!(matches!(toks.last().unwrap().kind, TokenKind::Eof));
}

#[test]
fn lex_spans_across_newlines() {
    let src = "let x = 1;\nreturn x;\n";
    let toks = Lexer::new("main.candy", src).lex_all();

    assert!(matches!(toks[0].kind, TokenKind::KwLet));
    assert_eq!(toks[0].span.start_line, 1);
    assert_eq!(toks[0].span.start_col, 1);

    let ret = toks
        .iter()
        .find(|t| matches!(t.kind, TokenKind::KwReturn))
        .unwrap();
    assert_eq!(ret.span.start_line, 2);
    assert_eq!(ret.span.start_col, 1);
}

#[test]
fn lex_int_literal_span_is_nonzero() {
    let src = "return 42;";
    let toks = Lexer::new("main.candy", src).lex_all();

    let lit = toks
        .iter()
        .find(|t| matches!(t.kind, TokenKind::IntLit(42)))
        .unwrap();
    assert_eq!(lit.span.start_line, 1);
    assert!(lit.span.start_col > 0);
    assert!(lit.span.end_col >= lit.span.start_col);
}

#[test]
fn lex_secret_keyword() {
    let src = "let x: secret Int = 1;";
    let toks = candy::lexer::Lexer::new("main.candy", src).lex_all();
    assert!(toks
        .iter()
        .any(|t| matches!(t.kind, candy::lexer::TokenKind::KwSecret)));
}

#[test]
fn lex_protocol_final_keyword() {
    let src = "protocol P { final state Done; }";
    let tokens = Lexer::new("test.candy", src).lex_all();

    let kinds: Vec<TokenKind> = tokens.into_iter().map(|t| t.kind).collect();
    assert!(kinds.contains(&TokenKind::FinalKw));
    assert!(kinds.contains(&TokenKind::StateKw));
    assert!(kinds.contains(&TokenKind::ProtocolKw));
}

#[test]
fn lex_protocol_keywords() {
    let src = "protocol P { state Init; transition Init -> Init; }";
    let tokens = Lexer::new("test.candy", src).lex_all();

    let kinds: Vec<TokenKind> = tokens.into_iter().map(|t| t.kind).collect();

    assert!(kinds.contains(&TokenKind::ProtocolKw));
    assert!(kinds.contains(&TokenKind::StateKw));
    assert!(kinds.contains(&TokenKind::TransitionKw));
}
