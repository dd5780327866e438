//! The grammar of the language, as a recognizer over the text: for each
//! production, where it ends when read from a position, or `None` where the
//! text does not follow it there. The parser is proved to raise no
//! diagnostic exactly on the texts that this grammar accepts.
//!
//! The `*_reads` relations say which syntax tree a text holds: names,
//! literal values, types and the shape of every node, spans aside. On a
//! text the grammar accepts, the parser is proved to return that tree.
use vstd::prelude::*;

use crate::ast::{Block, Effect, Expr, FnDecl, Param, ProtocolDecl, StateDecl, Stmt, TransitionDecl, Type};
use crate::lexer::{
    digits_end, ident_end, int_value, is_digit, is_ident_start, lemma_skip_ws_bounds,
    lemma_token_end_bounds, skip_ws, string_closed, string_stop, token_end, token_kind_ok,
    word_kind_ok, TokenKind,
};

verus! {

/// A token's kind without its payload.
#[derive(Debug, Clone, Copy, PartialEq, Eq, Structural)]
pub enum TokenClass {
    Protocol,
    State,
    Transition,
    Final,
    Ident,
    IntLit,
    StrLit,
    Fn,
    Let,
    Return,
    Secret,
    If,
    Else,
    Effects,
    LParen,
    RParen,
    LBrace,
    RBrace,
    Colon,
    Semi,
    Comma,
    Eq,
    Arrow,
    Eof,
}

pub open spec fn kind_class(k: TokenKind) -> TokenClass {
    match k {
        TokenKind::ProtocolKw => TokenClass::Protocol,
        TokenKind::StateKw => TokenClass::State,
        TokenKind::TransitionKw => TokenClass::Transition,
        TokenKind::FinalKw => TokenClass::Final,
        TokenKind::Ident(_) => TokenClass::Ident,
        TokenKind::IntLit(_) => TokenClass::IntLit,
        TokenKind::StrLit(_) => TokenClass::StrLit,
        TokenKind::KwFn => TokenClass::Fn,
        TokenKind::KwLet => TokenClass::Let,
        TokenKind::KwReturn => TokenClass::Return,
        TokenKind::KwSecret => TokenClass::Secret,
        TokenKind::KwIf => TokenClass::If,
        TokenKind::KwElse => TokenClass::Else,
        TokenKind::KwEffects => TokenClass::Effects,
        TokenKind::LParen => TokenClass::LParen,
        TokenKind::RParen => TokenClass::RParen,
        TokenKind::LBrace => TokenClass::LBrace,
        TokenKind::RBrace => TokenClass::RBrace,
        TokenKind::Colon => TokenClass::Colon,
        TokenKind::Semi => TokenClass::Semi,
        TokenKind::Comma => TokenClass::Comma,
        TokenKind::Eq => TokenClass::Eq,
        TokenKind::Arrow => TokenClass::Arrow,
        TokenKind::Eof => TokenClass::Eof,
    }
}

pub open spec fn word_class(w: Seq<char>) -> TokenClass {
    if w == "fn"@ {
        TokenClass::Fn
    } else if w == "let"@ {
        TokenClass::Let
    } else if w == "return"@ {
        TokenClass::Return
    } else if w == "secret"@ {
        TokenClass::Secret
    } else if w == "if"@ {
        TokenClass::If
    } else if w == "else"@ {
        TokenClass::Else
    } else if w == "effects"@ {
        TokenClass::Effects
    } else if w == "protocol"@ {
        TokenClass::Protocol
    } else if w == "state"@ {
        TokenClass::State
    } else if w == "transition"@ {
        TokenClass::Transition
    } else if w == "final"@ {
        TokenClass::Final
    } else {
        TokenClass::Ident
    }
}

/// The class of the token that starts at `st`.
pub open spec fn class_at(s: Seq<char>, st: nat) -> TokenClass {
    if st >= s.len() {
        TokenClass::Eof
    } else {
        let c = s[st as int];
        if c == '(' {
            TokenClass::LParen
        } else if c == ')' {
            TokenClass::RParen
        } else if c == '{' {
            TokenClass::LBrace
        } else if c == '}' {
            TokenClass::RBrace
        } else if c == ':' {
            TokenClass::Colon
        } else if c == ';' {
            TokenClass::Semi
        } else if c == ',' {
            TokenClass::Comma
        } else if c == '=' {
            TokenClass::Eq
        } else if c == '-' {
            if st + 1 < s.len() && s[st + 1int] == '>' {
                TokenClass::Arrow
            } else {
                TokenClass::Ident
            }
        } else if c == '"' {
            if string_closed(s, st) {
                TokenClass::StrLit
            } else {
                TokenClass::Ident
            }
        } else if is_digit(c) {
            TokenClass::IntLit
        } else if is_ident_start(c) {
            word_class(s.subrange(st as int, ident_end(s, st) as int))
        } else {
            TokenClass::Ident
        }
    }
}

/// The name that an identifier token starting at `st` carries.
pub open spec fn ident_text_at(s: Seq<char>, st: nat) -> Seq<char> {
    let c = s[st as int];
    if c == '-' {
        seq!['-']
    } else if c == '"' {
        seq!['"']
    } else if is_ident_start(c) {
        s.subrange(st as int, ident_end(s, st) as int)
    } else {
        seq![c]
    }
}

/// The class of the next token read from position `p`.
#[verifier::opaque]
pub open spec fn tclass(s: Seq<char>, p: nat) -> TokenClass {
    class_at(s, skip_ws(s, p))
}

/// The name of the next token read from `p`, where it is an identifier.
#[verifier::opaque]
pub open spec fn text_of(s: Seq<char>, p: nat) -> Seq<char> {
    ident_text_at(s, skip_ws(s, p))
}

/// The position after the next token read from `p`.
#[verifier::opaque]
pub open spec fn adv(s: Seq<char>, p: nat) -> nat {
    token_end(s, skip_ws(s, p))
}

/// The lexer's tokens have the classes and names stated here.
pub proof fn lemma_kind_class(k: TokenKind, s: Seq<char>, st: nat)
    requires
        token_kind_ok(k, s, st),
    ensures
        kind_class(k) == class_at(s, st),
        k is Ident ==> k->Ident_0@ == ident_text_at(s, st),
{
    if st < s.len() && is_ident_start(s[st as int]) {
        let c = s[st as int];
        assert(!is_digit(c));
        assert(c != '(' && c != ')' && c != '{' && c != '}' && c != ':' && c != ';' && c != ','
            && c != '=' && c != '-' && c != '"');
        let w = s.subrange(st as int, ident_end(s, st) as int);
        assert(word_kind_ok(k, w));
    }
}

/// The value of the integer literal read next from `p`.
#[verifier::opaque]
pub open spec fn int_at(s: Seq<char>, p: nat) -> int {
    let st = skip_ws(s, p);
    int_value(s.subrange(st as int, digits_end(s, st) as int))
}

/// The contents of the string literal read next from `p`.
#[verifier::opaque]
pub open spec fn str_at(s: Seq<char>, p: nat) -> Seq<char> {
    let st = skip_ws(s, p);
    s.subrange(st + 1int, string_stop(s, st + 1) as int)
}

/// What the lexer reads from `p` is the next token of this module.
pub proof fn lemma_next_token(k: TokenKind, s: Seq<char>, p: nat)
    requires
        token_kind_ok(k, s, skip_ws(s, p)),
    ensures
        kind_class(k) == tclass(s, p),
        k is Ident ==> k->Ident_0@ == text_of(s, p),
        k is IntLit ==> k->IntLit_0 as int == int_at(s, p),
        k is StrLit ==> k->StrLit_0@ == str_at(s, p),
        token_end(s, skip_ws(s, p)) == adv(s, p),
{
    reveal(tclass);
    reveal(text_of);
    reveal(adv);
    reveal(int_at);
    reveal(str_at);
    lemma_kind_class(k, s, skip_ws(s, p));
}

/// Reading a token that is not the end moves forward within the text.
pub proof fn lemma_adv(s: Seq<char>, p: nat)
    ensures
        tclass(s, p) != TokenClass::Eof ==> p < adv(s, p) <= s.len(),
        p <= s.len() ==> p <= adv(s, p) <= s.len(),
{
    reveal(tclass);
    reveal(adv);
    if p <= s.len() {
        lemma_skip_ws_bounds(s, p);
        lemma_token_end_bounds(s, skip_ws(s, p));
    }
}

/// A token of class `c` at `p`: the position after it.
pub open spec fn expect(s: Seq<char>, p: nat, c: TokenClass) -> Option<nat> {
    if tclass(s, p) == c {
        Some(adv(s, p))
    } else {
        None
    }
}

/// `type = "secret" type | ident`.
pub open spec fn g_type(s: Seq<char>, p: nat) -> Option<nat>
    decreases s.len() - p,
{
    if tclass(s, p) == TokenClass::Secret {
        proof {
            lemma_adv(s, p);
        }
        g_type(s, adv(s, p))
    } else {
        expect(s, p, TokenClass::Ident)
    }
}

/// `expr = intlit | strlit | true | false | move ( ident ) | ident ( [expr
/// {, expr}] ) | ident`.
pub open spec fn g_expr(s: Seq<char>, p: nat) -> Option<nat>
    decreases s.len() - p, 0nat,
{
    let q = adv(s, p);
    let c = tclass(s, p);
    if c == TokenClass::IntLit || c == TokenClass::StrLit {
        Some(q)
    } else if c == TokenClass::Ident {
        let w = text_of(s, p);
        if w == "true"@ || w == "false"@ {
            Some(q)
        } else if w == "move"@ {
            match expect(s, q, TokenClass::LParen) {
                None => None,
                Some(q1) => match expect(s, q1, TokenClass::Ident) {
                    None => None,
                    Some(q2) => expect(s, q2, TokenClass::RParen),
                },
            }
        } else if tclass(s, q) == TokenClass::LParen {
            let q1 = adv(s, q);
            if tclass(s, q1) == TokenClass::RParen {
                Some(adv(s, q1))
            } else {
                proof {
                    lemma_adv(s, p);
                    lemma_adv(s, q);
                }
                g_args(s, q1)
            }
        } else {
            Some(q)
        }
    } else {
        None
    }
}

/// `expr {, expr} )`: the arguments of a call after its `(`.
pub open spec fn g_args(s: Seq<char>, p: nat) -> Option<nat>
    decreases s.len() - p, 1nat,
{
    match g_expr(s, p) {
        None => None,
        Some(q) => if tclass(s, q) == TokenClass::Comma {
            if q >= p {
                proof {
                    lemma_adv(s, q);
                }
                g_args(s, adv(s, q))
            } else {
                None
            }
        } else {
            expect(s, q, TokenClass::RParen)
        },
    }
}

/// `= expr ;`, the value of a `let`.
pub open spec fn g_let_value(s: Seq<char>, p: nat) -> Option<nat> {
    match expect(s, p, TokenClass::Eq) {
        None => None,
        Some(q3) => match g_expr(s, q3) {
            None => None,
            Some(q4) => expect(s, q4, TokenClass::Semi),
        },
    }
}

/// `let = "let" ident [: type] = expr ;`.
pub open spec fn g_let(s: Seq<char>, p: nat) -> Option<nat> {
    match expect(s, adv(s, p), TokenClass::Ident) {
        None => None,
        Some(q1) => {
            let q2 = if tclass(s, q1) == TokenClass::Colon {
                g_type(s, adv(s, q1))
            } else {
                Some(q1)
            };
            match q2 {
                None => None,
                Some(q2) => g_let_value(s, q2),
            }
        },
    }
}

/// `return = "return" [expr] ;`.
pub open spec fn g_return(s: Seq<char>, p: nat) -> Option<nat> {
    let q = adv(s, p);
    if tclass(s, q) == TokenClass::Semi {
        Some(adv(s, q))
    } else {
        match g_expr(s, q) {
            None => None,
            Some(q1) => expect(s, q1, TokenClass::Semi),
        }
    }
}

/// `( expr )`, the condition of an `if`.
pub open spec fn g_cond(s: Seq<char>, p: nat) -> Option<nat> {
    match expect(s, p, TokenClass::LParen) {
        None => None,
        Some(q1) => match g_expr(s, q1) {
            None => None,
            Some(q2) => expect(s, q2, TokenClass::RParen),
        },
    }
}

/// `if = "if" ( expr ) block ["else" block]`.
pub open spec fn g_if(s: Seq<char>, p: nat) -> Option<nat>
    decreases s.len() - p, 1nat,
{
    match g_cond(s, adv(s, p)) {
                None => None,
                Some(q3) => if p < q3 <= s.len() {
                    match g_block(s, q3) {
                        None => None,
                        Some(q4) => if tclass(s, q4) == TokenClass::Else {
                            if q4 >= p {
                                proof {
                                    lemma_adv(s, q4);
                                }
                                g_block(s, adv(s, q4))
                            } else {
                                None
                            }
                        } else {
                            Some(q4)
                        },
                    }
                } else {
                    None
                },
    }
}

/// `stmt = let | return | if | expr ;`.
pub open spec fn g_stmt(s: Seq<char>, p: nat) -> Option<nat>
    decreases s.len() - p, 2nat,
{
    let c = tclass(s, p);
    if c == TokenClass::Let {
        g_let(s, p)
    } else if c == TokenClass::Return {
        g_return(s, p)
    } else if c == TokenClass::If {
        g_if(s, p)
    } else {
        match g_expr(s, p) {
            None => None,
            Some(q) => expect(s, q, TokenClass::Semi),
        }
    }
}

/// `{ stmt } }`: the statements of a block after its `{`.
pub open spec fn g_stmts(s: Seq<char>, p: nat) -> Option<nat>
    decreases s.len() - p, 3nat,
{
    let c = tclass(s, p);
    if c == TokenClass::RBrace {
        Some(adv(s, p))
    } else if c == TokenClass::Eof {
        None
    } else {
        match g_stmt(s, p) {
            None => None,
            Some(q) => if p < q <= s.len() {
                g_stmts(s, q)
            } else {
                None
            },
        }
    }
}

/// `block = { {stmt} }`.
pub open spec fn g_block(s: Seq<char>, p: nat) -> Option<nat>
    decreases s.len() - p, 0nat,
{
    if tclass(s, p) == TokenClass::LBrace {
        proof {
            lemma_adv(s, p);
        }
        g_stmts(s, adv(s, p))
    } else {
        None
    }
}

/// `[param]` with `param = ident : type`.
pub open spec fn g_params(s: Seq<char>, p: nat) -> Option<nat> {
    if tclass(s, p) == TokenClass::RParen {
        Some(p)
    } else {
        match expect(s, p, TokenClass::Ident) {
            None => None,
            Some(q) => match expect(s, q, TokenClass::Colon) {
                None => None,
                Some(q1) => g_type(s, q1),
            },
        }
    }
}

pub open spec fn is_effect_word(w: Seq<char>) -> bool {
    w == "io"@ || w == "net"@ || w == "time"@ || w == "rand"@
}

/// `effect {, effect} )`.
pub open spec fn g_effect_list(s: Seq<char>, p: nat) -> Option<nat>
    decreases s.len() - p,
{
    if tclass(s, p) == TokenClass::Ident && is_effect_word(text_of(s, p)) {
        let q = adv(s, p);
        if tclass(s, q) == TokenClass::Comma {
            proof {
                lemma_adv(s, p);
                lemma_adv(s, q);
            }
            g_effect_list(s, adv(s, q))
        } else {
            expect(s, q, TokenClass::RParen)
        }
    } else {
        None
    }
}

/// `effects = "effects" ( effect {, effect} )`; an empty list is accepted.
pub open spec fn g_effects(s: Seq<char>, p: nat) -> Option<nat> {
    match expect(s, adv(s, p), TokenClass::LParen) {
        None => None,
        Some(q1) => if tclass(s, q1) == TokenClass::RParen {
            Some(adv(s, q1))
        } else {
            g_effect_list(s, q1)
        },
    }
}

/// `ident ( [param] ) -> type`, a function's signature after `fn`.
pub open spec fn g_sig(s: Seq<char>, p: nat) -> Option<nat> {
    match expect(s, p, TokenClass::Ident) {
        None => None,
        Some(q1) => match expect(s, q1, TokenClass::LParen) {
            None => None,
            Some(q2) => match g_params(s, q2) {
                None => None,
                Some(q3) => match expect(s, q3, TokenClass::RParen) {
                    None => None,
                    Some(q4) => match expect(s, q4, TokenClass::Arrow) {
                        None => None,
                        Some(q5) => g_type(s, q5),
                    },
                },
            },
        },
    }
}

/// `fn = "fn" ident ( [param] ) -> type [effects] block`.
pub open spec fn g_fn(s: Seq<char>, p: nat) -> Option<nat> {
    if tclass(s, p) != TokenClass::Fn {
        None
    } else {
        match g_sig(s, adv(s, p)) {
            None => None,
            Some(q6) => g_fn_tail(s, q6),
        }
    }
}

/// `[effects] block`, what follows a function's signature.
pub open spec fn g_fn_tail(s: Seq<char>, p: nat) -> Option<nat> {
    let q7 = if tclass(s, p) == TokenClass::Effects {
        g_effects(s, p)
    } else {
        Some(p)
    };
    match q7 {
        None => None,
        Some(q7) => g_block(s, q7),
    }
}

/// `state_decl = ["final"] "state" ident ;`.
pub open spec fn g_state(s: Seq<char>, p: nat) -> Option<nat> {
    let q = if tclass(s, p) == TokenClass::Final {
        adv(s, p)
    } else {
        p
    };
    match expect(s, q, TokenClass::State) {
        None => None,
        Some(q1) => match expect(s, q1, TokenClass::Ident) {
            None => None,
            Some(q2) => expect(s, q2, TokenClass::Semi),
        },
    }
}

/// `transition = "transition" ident -> ident ;`.
pub open spec fn g_transition(s: Seq<char>, p: nat) -> Option<nat> {
    match expect(s, adv(s, p), TokenClass::Ident) {
        None => None,
        Some(q1) => match expect(s, q1, TokenClass::Arrow) {
            None => None,
            Some(q2) => match expect(s, q2, TokenClass::Ident) {
                None => None,
                Some(q3) => expect(s, q3, TokenClass::Semi),
            },
        },
    }
}

/// `{ state_decl | transition } }`: a protocol's body after its `{`.
pub open spec fn g_protocol_body(s: Seq<char>, p: nat) -> Option<nat>
    decreases s.len() - p,
{
    let c = tclass(s, p);
    if c == TokenClass::RBrace {
        Some(adv(s, p))
    } else if c == TokenClass::State || c == TokenClass::Final || c == TokenClass::Transition {
        let r = if c == TokenClass::Transition {
            g_transition(s, p)
        } else {
            g_state(s, p)
        };
        match r {
            None => None,
            Some(q) => if p < q <= s.len() {
                g_protocol_body(s, q)
            } else {
                None
            },
        }
    } else {
        None
    }
}

/// `protocol = "protocol" ident { { state_decl | transition } }`.
pub open spec fn g_protocol(s: Seq<char>, p: nat) -> Option<nat> {
    match expect(s, adv(s, p), TokenClass::Ident) {
        None => None,
        Some(q1) => match expect(s, q1, TokenClass::LBrace) {
            None => None,
            Some(q2) => g_protocol_body(s, q2),
        },
    }
}

/// `program = { fn | protocol }`, read from `p` to the end of the text.
pub open spec fn g_program(s: Seq<char>, p: nat) -> bool
    decreases s.len() - p,
{
    let c = tclass(s, p);
    if c == TokenClass::Eof {
        true
    } else if c == TokenClass::Fn || c == TokenClass::Protocol {
        let r = if c == TokenClass::Fn {
            g_fn(s, p)
        } else {
            g_protocol(s, p)
        };
        match r {
            None => false,
            Some(q) => if q > p && q <= s.len() {
                g_program(s, q)
            } else {
                false
            },
        }
    } else {
        false
    }
}

/// Whether a text is a program of the language.
pub open spec fn well_formed(s: Seq<char>) -> bool {
    g_program(s, 0)
}

/// The end of a production that the text was shown to follow.
pub open spec fn end_of(g: Option<nat>) -> nat {
    match g {
        Some(q) => q,
        None => 0,
    }
}

pub open spec fn is_reserved_word(w: Seq<char>) -> bool {
    w == "true"@ || w == "false"@ || w == "move"@
}

/// Whether `t` is the type that the text holds at `p`.
pub open spec fn type_reads(t: Type, s: Seq<char>, p: nat) -> bool
    decreases t,
{
    match t {
        Type::Secret { inner, .. } => tclass(s, p) == TokenClass::Secret && type_reads(
            *inner,
            s,
            adv(s, p),
        ),
        Type::Int { .. } => tclass(s, p) == TokenClass::Ident && text_of(s, p) == "Int"@,
        Type::Bool { .. } => tclass(s, p) == TokenClass::Ident && text_of(s, p) == "Bool"@,
        Type::Unit { .. } => tclass(s, p) == TokenClass::Ident && text_of(s, p) == "Unit"@,
        Type::Named { name, .. } => tclass(s, p) == TokenClass::Ident && text_of(s, p) == name@
            && name@ != "Int"@ && name@ != "Bool"@ && name@ != "Unit"@,
    }
}

/// Whether `e` is the expression that the text holds at `p`.
pub open spec fn expr_reads(e: Expr, s: Seq<char>, p: nat) -> bool
    decreases e, 1nat,
{
    let q = adv(s, p);
    match e {
        Expr::IntLit { value, .. } => tclass(s, p) == TokenClass::IntLit && value as int == int_at(
            s,
            p,
        ),
        Expr::StrLit { value, .. } => tclass(s, p) == TokenClass::StrLit && value@ == str_at(s, p),
        Expr::BoolLit { value, .. } => tclass(s, p) == TokenClass::Ident && text_of(s, p) == if value {
            "true"@
        } else {
            "false"@
        },
        Expr::Move { name, .. } => tclass(s, p) == TokenClass::Ident && text_of(s, p) == "move"@
            && name.name@ == text_of(s, adv(s, q)),
        Expr::Var { name, .. } => tclass(s, p) == TokenClass::Ident && name.name@ == text_of(s, p)
            && !is_reserved_word(name.name@) && tclass(s, q) != TokenClass::LParen,
        Expr::Call { callee, args, .. } => tclass(s, p) == TokenClass::Ident && callee.name@
            == text_of(s, p) && !is_reserved_word(callee.name@) && tclass(s, q)
            == TokenClass::LParen && args_read(args@, s, adv(s, q)) is Some && tclass(
            s,
            end_of(args_read(args@, s, adv(s, q))),
        ) == TokenClass::RParen,
    }
}

/// Whether the arguments `args` are what the text holds from `p`, each but
/// the first after a comma: the position where the last one ends.
pub open spec fn args_read(args: Seq<Expr>, s: Seq<char>, p: nat) -> Option<nat>
    decreases args, 0nat,
{
    if args.len() == 0 {
        Some(p)
    } else {
        let init = args.subrange(0, args.len() - 1);
        match args_read(init, s, p) {
            None => None,
            Some(q) => {
                let st = if init.len() == 0 {
                    q
                } else {
                    adv(s, q)
                };
                if (init.len() == 0 || tclass(s, q) == TokenClass::Comma) && expr_reads(
                    args[args.len() - 1],
                    s,
                    st,
                ) {
                    g_expr(s, st)
                } else {
                    None
                }
            },
        }
    }
}

/// Whether `st` is the statement that the text holds at `p`.
pub open spec fn stmt_reads(st: Stmt, s: Seq<char>, p: nat) -> bool
    decreases st,
{
    let q = adv(s, p);
    match st {
        Stmt::Let { name, ty, expr, .. } => {
            let q1 = adv(s, q);
            tclass(s, p) == TokenClass::Let && name.name@ == text_of(s, q) && match ty {
                Some(t) => tclass(s, q1) == TokenClass::Colon && type_reads(t, s, adv(s, q1))
                    && expr_reads(expr, s, adv(s, end_of(g_type(s, adv(s, q1))))),
                None => tclass(s, q1) != TokenClass::Colon && expr_reads(expr, s, adv(s, q1)),
            }
        },
        Stmt::Return { expr, .. } => tclass(s, p) == TokenClass::Return && match expr {
            None => tclass(s, q) == TokenClass::Semi,
            Some(e) => tclass(s, q) != TokenClass::Semi && expr_reads(e, s, q),
        },
        Stmt::If { cond, then_blk, else_blk, .. } => {
            let q3 = adv(s, end_of(g_expr(s, adv(s, q))));
            let q4 = end_of(g_block(s, q3));
            tclass(s, p) == TokenClass::If && expr_reads(cond, s, adv(s, q)) && block_reads(
                then_blk,
                s,
                q3,
            ) && match else_blk {
                Some(b) => tclass(s, q4) == TokenClass::Else && block_reads(b, s, adv(s, q4)),
                None => tclass(s, q4) != TokenClass::Else,
            }
        },
        Stmt::Expr { expr, .. } => tclass(s, p) != TokenClass::Let && tclass(s, p)
            != TokenClass::Return && tclass(s, p) != TokenClass::If && expr_reads(expr, s, p),
    }
}

/// Whether `b` is the block that the text holds at `p`.
pub open spec fn block_reads(b: Block, s: Seq<char>, p: nat) -> bool
    decreases b,
{
    tclass(s, p) == TokenClass::LBrace && stmts_read(b.stmts@, s, adv(s, p)) is Some && tclass(
        s,
        end_of(stmts_read(b.stmts@, s, adv(s, p))),
    ) == TokenClass::RBrace
}

/// Whether the statements `ss` are what the text holds from `p`: the
/// position where the last one ends.
pub open spec fn stmts_read(ss: Seq<Stmt>, s: Seq<char>, p: nat) -> Option<nat>
    decreases ss,
{
    if ss.len() == 0 {
        Some(p)
    } else {
        match stmts_read(ss.subrange(0, ss.len() - 1), s, p) {
            None => None,
            Some(q) => if stmt_reads(ss[ss.len() - 1], s, q) {
                g_stmt(s, q)
            } else {
                None
            },
        }
    }
}

/// The effect that a name in an effect row stands for.
pub open spec fn effect_named(w: Seq<char>) -> Effect {
    if w == "net"@ {
        Effect::Net
    } else if w == "time"@ {
        Effect::Time
    } else if w == "rand"@ {
        Effect::Rand
    } else {
        Effect::Io
    }
}

pub proof fn lemma_effect_words()
    ensures
        effect_named("io"@) == Effect::Io,
        effect_named("net"@) == Effect::Net,
        effect_named("time"@) == Effect::Time,
        effect_named("rand"@) == Effect::Rand,
{
    reveal_strlit("io");
    reveal_strlit("net");
    reveal_strlit("time");
    reveal_strlit("rand");
    assert("io"@[0] != "net"@[0]);
    assert("io"@[0] != "time"@[0]);
    assert("io"@[0] != "rand"@[0]);
    assert("net"@[0] != "time"@[0]);
    assert("net"@[0] != "rand"@[0]);
    assert("time"@[0] != "rand"@[0]);
}

/// Whether the effects `es` are what an effect list holds from `p`, each
/// but the first after a comma: the position after the last one.
pub open spec fn effect_list_read(es: Seq<crate::ast::EffectSpec>, s: Seq<char>, p: nat) -> Option<nat>
    decreases es.len(),
{
    if es.len() == 0 {
        Some(p)
    } else {
        let init = es.subrange(0, es.len() - 1);
        match effect_list_read(init, s, p) {
            None => None,
            Some(q) => {
                let st = if init.len() == 0 {
                    q
                } else {
                    adv(s, q)
                };
                if (init.len() == 0 || tclass(s, q) == TokenClass::Comma) && tclass(s, st)
                    == TokenClass::Ident && is_effect_word(text_of(s, st)) && es[es.len()
                    - 1].effect == effect_named(text_of(s, st)) {
                    Some(adv(s, st))
                } else {
                    None
                }
            },
        }
    }
}

/// Whether `es` is the effect row that the text holds at `p`, on `effects`.
pub open spec fn effects_reads(es: Seq<crate::ast::EffectSpec>, s: Seq<char>, p: nat) -> bool {
    let q1 = adv(s, adv(s, p));
    if tclass(s, q1) == TokenClass::RParen {
        es.len() == 0
    } else {
        effect_list_read(es, s, q1) is Some && tclass(s, end_of(effect_list_read(es, s, q1)))
            == TokenClass::RParen
    }
}

/// Whether `ps` are the parameters that the text holds at `p`.
pub open spec fn params_reads(ps: Seq<Param>, s: Seq<char>, p: nat) -> bool {
    if tclass(s, p) == TokenClass::RParen {
        ps.len() == 0
    } else {
        ps.len() == 1 && ps[0].name.name@ == text_of(s, p) && type_reads(
            ps[0].ty,
            s,
            adv(s, adv(s, p)),
        )
    }
}

/// Whether `f` is the function that the text holds at `p`.
pub open spec fn fn_reads(f: FnDecl, s: Seq<char>, p: nat) -> bool {
    let q = adv(s, p);
    let q2 = adv(s, adv(s, q));
    let q5 = adv(s, adv(s, end_of(g_params(s, q2))));
    let q6 = end_of(g_type(s, q5));
    let has_row = tclass(s, q6) == TokenClass::Effects;
    let q7 = if has_row {
        end_of(g_effects(s, q6))
    } else {
        q6
    };
    &&& tclass(s, p) == TokenClass::Fn
    &&& f.name.name@ == text_of(s, q)
    &&& params_reads(f.params@, s, q2)
    &&& type_reads(f.ret, s, q5)
    &&& if has_row {
        effects_reads(f.effects@, s, q6)
    } else {
        f.effects@.len() == 0
    }
    &&& block_reads(f.body, s, q7)
}

/// Whether `st` is the state declaration that the text holds at `p`.
pub open spec fn state_reads(st: StateDecl, s: Seq<char>, p: nat) -> bool {
    let q = if tclass(s, p) == TokenClass::Final {
        adv(s, p)
    } else {
        p
    };
    st.is_final == (tclass(s, p) == TokenClass::Final) && st.name.name@ == text_of(s, adv(s, q))
}

/// Whether `t` is the transition that the text holds at `p`.
pub open spec fn transition_reads(t: TransitionDecl, s: Seq<char>, p: nat) -> bool {
    let q = adv(s, p);
    t.from.name@ == text_of(s, q) && t.to.name@ == text_of(s, adv(s, adv(s, q)))
}

/// Whether the text from `p` to `q` holds exactly the state declarations
/// `sts` and the transitions `trs`, each list in text order.
pub open spec fn body_read(
    sts: Seq<StateDecl>,
    trs: Seq<TransitionDecl>,
    s: Seq<char>,
    p: nat,
    q: nat,
) -> bool
    decreases s.len() - p,
{
    if p >= q {
        p == q && sts.len() == 0 && trs.len() == 0
    } else {
        let c = tclass(s, p);
        if c == TokenClass::Transition {
            trs.len() > 0 && transition_reads(trs[0], s, p) && match g_transition(s, p) {
                Some(r) => p < r <= s.len() && body_read(sts, trs.drop_first(), s, r, q),
                None => false,
            }
        } else if c == TokenClass::State || c == TokenClass::Final {
            sts.len() > 0 && state_reads(sts[0], s, p) && match g_state(s, p) {
                Some(r) => p < r <= s.len() && body_read(sts.drop_first(), trs, s, r, q),
                None => false,
            }
        } else {
            false
        }
    }
}

/// Whether `pr` is the protocol that the text holds at `p`.
pub open spec fn protocol_reads(pr: ProtocolDecl, s: Seq<char>, p: nat) -> bool {
    let q = adv(s, p);
    let q2 = adv(s, adv(s, q));
    &&& tclass(s, p) == TokenClass::Protocol
    &&& pr.name.name@ == text_of(s, q)
    &&& exists|e: nat|
        body_read(pr.states@, pr.transitions@, s, q2, e) && tclass(s, e) == TokenClass::RBrace
}

/// Whether the text from `p` to `q` holds exactly the functions `fs` and
/// the protocols `ps`, each list in text order.
pub open spec fn items_read(
    fs: Seq<FnDecl>,
    ps: Seq<ProtocolDecl>,
    s: Seq<char>,
    p: nat,
    q: nat,
) -> bool
    decreases s.len() - p,
{
    if p >= q {
        p == q && fs.len() == 0 && ps.len() == 0
    } else {
        let c = tclass(s, p);
        if c == TokenClass::Fn {
            fs.len() > 0 && fn_reads(fs[0], s, p) && match g_fn(s, p) {
                Some(r) => p < r <= s.len() && items_read(fs.drop_first(), ps, s, r, q),
                None => false,
            }
        } else if c == TokenClass::Protocol {
            ps.len() > 0 && protocol_reads(ps[0], s, p) && match g_protocol(s, p) {
                Some(r) => p < r <= s.len() && items_read(fs, ps.drop_first(), s, r, q),
                None => false,
            }
        } else {
            false
        }
    }
}

/// Whether the program's functions and protocols are what the text holds.
pub open spec fn program_reads(prog: crate::ast::Program, s: Seq<char>) -> bool {
    exists|e: nat| items_read(prog.funcs@, prog.protocols@, s, 0, e) && tclass(s, e) == TokenClass::Eof
}

pub proof fn lemma_body_push_state(
    sts: Seq<StateDecl>,
    trs: Seq<TransitionDecl>,
    s: Seq<char>,
    p: nat,
    q: nat,
    x: StateDecl,
    r: nat,
)
    requires
        body_read(sts, trs, s, p, q),
        tclass(s, q) == TokenClass::State || tclass(s, q) == TokenClass::Final,
        state_reads(x, s, q),
        g_state(s, q) == Some(r),
        q < r <= s.len(),
    ensures
        body_read(sts.push(x), trs, s, p, r),
    decreases s.len() - p,
{
    if p >= q {
        assert(sts.push(x).drop_first() =~= sts);
        assert(body_read(sts, trs, s, r, r));
        assert(sts.push(x)[0] == x);
    } else {
        let c = tclass(s, p);
        if c == TokenClass::Transition {
            let r1 = end_of(g_transition(s, p));
            lemma_body_push_state(sts, trs.drop_first(), s, r1, q, x, r);
        } else {
            let r1 = end_of(g_state(s, p));
            lemma_body_push_state(sts.drop_first(), trs, s, r1, q, x, r);
            assert(sts.push(x).drop_first() =~= sts.drop_first().push(x));
        }
    }
}

pub proof fn lemma_body_push_transition(
    sts: Seq<StateDecl>,
    trs: Seq<TransitionDecl>,
    s: Seq<char>,
    p: nat,
    q: nat,
    x: TransitionDecl,
    r: nat,
)
    requires
        body_read(sts, trs, s, p, q),
        tclass(s, q) == TokenClass::Transition,
        transition_reads(x, s, q),
        g_transition(s, q) == Some(r),
        q < r <= s.len(),
    ensures
        body_read(sts, trs.push(x), s, p, r),
    decreases s.len() - p,
{
    if p >= q {
        assert(trs.push(x).drop_first() =~= trs);
        assert(body_read(sts, trs, s, r, r));
        assert(trs.push(x)[0] == x);
    } else {
        let c = tclass(s, p);
        if c == TokenClass::Transition {
            let r1 = end_of(g_transition(s, p));
            lemma_body_push_transition(sts, trs.drop_first(), s, r1, q, x, r);
            assert(trs.push(x).drop_first() =~= trs.drop_first().push(x));
        } else {
            let r1 = end_of(g_state(s, p));
            lemma_body_push_transition(sts.drop_first(), trs, s, r1, q, x, r);
        }
    }
}

pub proof fn lemma_items_push_fn(
    fs: Seq<FnDecl>,
    ps: Seq<ProtocolDecl>,
    s: Seq<char>,
    p: nat,
    q: nat,
    x: FnDecl,
    r: nat,
)
    requires
        items_read(fs, ps, s, p, q),
        tclass(s, q) == TokenClass::Fn,
        fn_reads(x, s, q),
        g_fn(s, q) == Some(r),
        q < r <= s.len(),
    ensures
        items_read(fs.push(x), ps, s, p, r),
    decreases s.len() - p,
{
    if p >= q {
        assert(fs.push(x).drop_first() =~= fs);
        assert(items_read(fs, ps, s, r, r));
        assert(fs.push(x)[0] == x);
    } else {
        let c = tclass(s, p);
        if c == TokenClass::Fn {
            let r1 = end_of(g_fn(s, p));
            lemma_items_push_fn(fs.drop_first(), ps, s, r1, q, x, r);
            assert(fs.push(x).drop_first() =~= fs.drop_first().push(x));
        } else {
            let r1 = end_of(g_protocol(s, p));
            lemma_items_push_fn(fs, ps.drop_first(), s, r1, q, x, r);
        }
    }
}

pub proof fn lemma_items_push_protocol(
    fs: Seq<FnDecl>,
    ps: Seq<ProtocolDecl>,
    s: Seq<char>,
    p: nat,
    q: nat,
    x: ProtocolDecl,
    r: nat,
)
    requires
        items_read(fs, ps, s, p, q),
        tclass(s, q) == TokenClass::Protocol,
        protocol_reads(x, s, q),
        g_protocol(s, q) == Some(r),
        q < r <= s.len(),
    ensures
        items_read(fs, ps.push(x), s, p, r),
    decreases s.len() - p,
{
    if p >= q {
        assert(ps.push(x).drop_first() =~= ps);
        assert(items_read(fs, ps, s, r, r));
        assert(ps.push(x)[0] == x);
    } else {
        let c = tclass(s, p);
        if c == TokenClass::Fn {
            let r1 = end_of(g_fn(s, p));
            lemma_items_push_protocol(fs.drop_first(), ps, s, r1, q, x, r);
        } else {
            let r1 = end_of(g_protocol(s, p));
            lemma_items_push_protocol(fs, ps.drop_first(), s, r1, q, x, r);
            assert(ps.push(x).drop_first() =~= ps.drop_first().push(x));
        }
    }
}

} // verus!
