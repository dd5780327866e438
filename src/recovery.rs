//! What the parser does on any text, well formed or not: for each
//! production, where reading it from a position stops and which diagnostics
//! it reports on the way, each with its code, message and the span of the
//! token it concerns. On an unexpected token the parser reports it and moves
//! on by one token, or, where a token is merely missing, reports it and
//! stays.
use vstd::prelude::*;

use crate::diagnostics::{error_v, DiagV, SpanV};
use crate::grammar::{adv, is_effect_word, lemma_adv, tclass, text_of, TokenClass};
use crate::lexer::{skip_ws, span_between};

verus! {

/// The span of the next token read from `p`.
pub open spec fn tok_span(f: Seq<char>, s: Seq<char>, p: nat) -> SpanV {
    span_between(f, s, skip_ws(s, p), adv(s, p))
}

/// An error about the next token read from `p`.
pub open spec fn err_at(code: Seq<char>, msg: Seq<char>, f: Seq<char>, s: Seq<char>, p: nat) -> DiagV {
    error_v(code, msg, tok_span(f, s, p))
}

/// Where reading stopped, and what it reported.
pub struct Step {
    pub end: nat,
    pub diags: Seq<DiagV>,
}

pub open spec fn clean(end: nat) -> Step {
    Step { end, diags: Seq::empty() }
}

/// A token of class `c`, reported missing where it is not there.
pub open spec fn r_expect(
    f: Seq<char>,
    s: Seq<char>,
    p: nat,
    c: TokenClass,
    code: Seq<char>,
    msg: Seq<char>,
) -> Step {
    if tclass(s, p) == c {
        clean(adv(s, p))
    } else {
        Step { end: p, diags: seq![err_at(code, msg, f, s, p)] }
    }
}

/// An identifier; any other token is reported and skipped.
pub open spec fn r_ident(f: Seq<char>, s: Seq<char>, p: nat, code: Seq<char>, msg: Seq<char>) -> Step {
    if tclass(s, p) == TokenClass::Ident {
        clean(adv(s, p))
    } else {
        Step { end: adv(s, p), diags: seq![err_at(code, msg, f, s, p)] }
    }
}

pub open spec fn r_type(f: Seq<char>, s: Seq<char>, p: nat) -> Step
    decreases s.len() - p,
{
    if tclass(s, p) == TokenClass::Secret {
        proof {
            lemma_adv(s, p);
        }
        r_type(f, s, adv(s, p))
    } else if tclass(s, p) == TokenClass::Ident {
        clean(adv(s, p))
    } else {
        Step {
            end: adv(s, p),
            diags: seq![
                err_at(
                    "parse-expected-type"@,
                    "Expected type name (Int|Bool|Unit|...)."@,
                    f,
                    s,
                    p,
                ),
            ],
        }
    }
}

pub open spec fn r_expr(f: Seq<char>, s: Seq<char>, p: nat) -> Step
    decreases s.len() - p, 0nat,
{
    let c = tclass(s, p);
    let q = adv(s, p);
    if c == TokenClass::IntLit || c == TokenClass::StrLit {
        clean(q)
    } else if c == TokenClass::Ident {
        let w = text_of(s, p);
        if w == "true"@ || w == "false"@ {
            clean(q)
        } else if w == "move"@ {
            let a = r_expect(f, s, q, TokenClass::LParen, "parse-expected-lparen"@, "Expected `(` after move."@);
            let b = r_ident(f, s, a.end, "parse-expected-ident"@, "Expected identifier inside move(...)."@);
            let z = r_expect(f, s, b.end, TokenClass::RParen, "parse-expected-rparen"@, "Expected `)` after move argument."@);
            Step { end: z.end, diags: a.diags + b.diags + z.diags }
        } else if tclass(s, q) == TokenClass::LParen {
            let q1 = adv(s, q);
            proof {
                lemma_adv(s, p);
                lemma_adv(s, q);
            }
            let inner = if tclass(s, q1) == TokenClass::RParen {
                clean(q1)
            } else {
                r_args(f, s, q1)
            };
            let z = r_expect(f, s, inner.end, TokenClass::RParen, "parse-expected-rparen"@, "Expected `)` after call arguments."@);
            Step { end: z.end, diags: inner.diags + z.diags }
        } else {
            clean(q)
        }
    } else {
        Step {
            end: q,
            diags: seq![err_at("parse-unexpected-token"@, "Unexpected token in expression."@, f, s, p)],
        }
    }
}

/// Call arguments, comma separated, before the closing `)`.
pub open spec fn r_args(f: Seq<char>, s: Seq<char>, p: nat) -> Step
    decreases s.len() - p, 1nat,
{
    let a = r_expr(f, s, p);
    if tclass(s, a.end) == TokenClass::Comma && a.end >= p {
        proof {
            lemma_adv(s, a.end);
        }
        let b = r_args(f, s, adv(s, a.end));
        Step { end: b.end, diags: a.diags + b.diags }
    } else {
        a
    }
}

/// `= expr ;`, the value of a `let`.
pub open spec fn r_let_value(f: Seq<char>, s: Seq<char>, p: nat) -> Step {
    let b = r_expect(f, s, p, TokenClass::Eq, "parse-expected-eq"@, "Expected `=` in let binding."@);
    let e = r_expr(f, s, b.end);
    let z = r_expect(f, s, e.end, TokenClass::Semi, "parse-expected-semi"@, "Expected `;` after let binding."@);
    Step { end: z.end, diags: b.diags + e.diags + z.diags }
}

pub open spec fn r_let(f: Seq<char>, s: Seq<char>, p: nat) -> Step {
    let a = r_ident(f, s, adv(s, p), "parse-expected-ident"@, "Expected identifier after `let`."@);
    let t = if tclass(s, a.end) == TokenClass::Colon {
        r_type(f, s, adv(s, a.end))
    } else {
        clean(a.end)
    };
    let v = r_let_value(f, s, t.end);
    Step { end: v.end, diags: a.diags + t.diags + v.diags }
}

pub open spec fn r_return(f: Seq<char>, s: Seq<char>, p: nat) -> Step {
    let q = adv(s, p);
    let e = if tclass(s, q) == TokenClass::Semi {
        clean(q)
    } else {
        r_expr(f, s, q)
    };
    let z = r_expect(f, s, e.end, TokenClass::Semi, "parse-expected-semi"@, "Expected `;` after return."@);
    Step { end: z.end, diags: e.diags + z.diags }
}

/// `( expr )`, the condition of an `if`.
pub open spec fn r_cond(f: Seq<char>, s: Seq<char>, p: nat) -> Step {
    let a = r_expect(f, s, p, TokenClass::LParen, "parse-expected-lparen"@, "Expected `(` after if."@);
    let c = r_expr(f, s, a.end);
    let b = r_expect(f, s, c.end, TokenClass::RParen, "parse-expected-rparen"@, "Expected `)` after if condition."@);
    Step { end: b.end, diags: a.diags + c.diags + b.diags }
}

pub open spec fn r_if(f: Seq<char>, s: Seq<char>, p: nat) -> Step
    decreases s.len() - p, 1nat,
{
    let h = r_cond(f, s, adv(s, p));
    if p < h.end <= s.len() {
        let t = r_block(f, s, h.end);
        if tclass(s, t.end) == TokenClass::Else && t.end >= p {
            proof {
                lemma_adv(s, t.end);
            }
            let e = r_block(f, s, adv(s, t.end));
            Step { end: e.end, diags: h.diags + t.diags + e.diags }
        } else {
            Step { end: t.end, diags: h.diags + t.diags }
        }
    } else {
        h
    }
}

pub open spec fn r_stmt(f: Seq<char>, s: Seq<char>, p: nat) -> Step
    decreases s.len() - p, 2nat,
{
    let c = tclass(s, p);
    if c == TokenClass::Let {
        r_let(f, s, p)
    } else if c == TokenClass::Return {
        r_return(f, s, p)
    } else if c == TokenClass::If {
        r_if(f, s, p)
    } else {
        let e = r_expr(f, s, p);
        let z = r_expect(f, s, e.end, TokenClass::Semi, "parse-expected-semi"@, "Expected `;` after expression."@);
        Step { end: z.end, diags: e.diags + z.diags }
    }
}

/// Statements up to a `}` or the end of the text.
pub open spec fn r_stmts(f: Seq<char>, s: Seq<char>, p: nat) -> Step
    decreases s.len() - p, 3nat,
{
    let c = tclass(s, p);
    if c == TokenClass::RBrace || c == TokenClass::Eof {
        clean(p)
    } else {
        let a = r_stmt(f, s, p);
        if p < a.end <= s.len() {
            let b = r_stmts(f, s, a.end);
            Step { end: b.end, diags: a.diags + b.diags }
        } else {
            a
        }
    }
}

pub open spec fn r_block(f: Seq<char>, s: Seq<char>, p: nat) -> Step
    decreases s.len() - p, 4nat,
{
    let e = r_expect(f, s, p, TokenClass::LBrace, "parse-expected-lbrace"@, "Expected `{` to start block."@);
    proof {
        lemma_adv(s, p);
    }
    if p <= e.end {
        let l = r_stmts(f, s, e.end);
        let z = r_expect(f, s, l.end, TokenClass::RBrace, "parse-expected-rbrace"@, "Expected `}` to end block."@);
        Step { end: z.end, diags: e.diags + l.diags + z.diags }
    } else {
        e
    }
}

pub open spec fn r_params(f: Seq<char>, s: Seq<char>, p: nat) -> Step {
    if tclass(s, p) == TokenClass::RParen {
        clean(p)
    } else {
        let a = r_ident(f, s, p, "parse-expected-ident"@, "Expected parameter name."@);
        let b = r_expect(f, s, a.end, TokenClass::Colon, "parse-expected-colon"@, "Expected `:` after parameter name."@);
        let t = r_type(f, s, b.end);
        Step { end: t.end, diags: a.diags + b.diags + t.diags }
    }
}

pub open spec fn r_effect_item(f: Seq<char>, s: Seq<char>, p: nat) -> Step {
    Step {
        end: adv(s, p),
        diags: if tclass(s, p) == TokenClass::Ident {
            if is_effect_word(text_of(s, p)) {
                Seq::empty()
            } else {
                seq![err_at("parse-unknown-effect"@, "Unknown effect (expected io|net|time|rand)."@, f, s, p)]
            }
        } else {
            seq![err_at("parse-expected-effect"@, "Expected effect name (io|net|time|rand)."@, f, s, p)]
        },
    }
}

pub open spec fn r_effect_list(f: Seq<char>, s: Seq<char>, p: nat) -> Step
    decreases s.len() - p,
{
    let a = r_effect_item(f, s, p);
    proof {
        lemma_adv(s, p);
        lemma_adv(s, a.end);
    }
    if tclass(s, a.end) == TokenClass::Comma && p <= a.end {
        let b = r_effect_list(f, s, adv(s, a.end));
        Step { end: b.end, diags: a.diags + b.diags }
    } else {
        a
    }
}

pub open spec fn r_effects(f: Seq<char>, s: Seq<char>, p: nat) -> Step {
    let a = r_expect(f, s, adv(s, p), TokenClass::LParen, "parse-expected-lparen"@, "Expected `(` after effects."@);
    let l = if tclass(s, a.end) == TokenClass::RParen {
        clean(a.end)
    } else {
        r_effect_list(f, s, a.end)
    };
    let z = r_expect(f, s, l.end, TokenClass::RParen, "parse-expected-rparen"@, "Expected `)` after effects list."@);
    Step { end: z.end, diags: a.diags + l.diags + z.diags }
}

/// `name ( [param] ) -> type`, a function's signature after `fn`.
pub open spec fn r_sig(f: Seq<char>, s: Seq<char>, p: nat) -> Step {
    let a = r_ident(f, s, p, "parse-expected-ident"@, "Expected function name identifier."@);
    let b = r_expect(f, s, a.end, TokenClass::LParen, "parse-expected-lparen"@, "Expected `(` after function name."@);
    let c = r_params(f, s, b.end);
    let d = r_expect(f, s, c.end, TokenClass::RParen, "parse-expected-rparen"@, "Expected `)` after parameters."@);
    let e = r_expect(f, s, d.end, TokenClass::Arrow, "parse-expected-arrow"@, "Expected `->` return type."@);
    let t = r_type(f, s, e.end);
    Step { end: t.end, diags: a.diags + b.diags + c.diags + d.diags + e.diags + t.diags }
}

pub open spec fn r_fn(f: Seq<char>, s: Seq<char>, p: nat) -> Step {
    let d0: Seq<DiagV> = if tclass(s, p) == TokenClass::Fn {
        Seq::empty()
    } else {
        seq![err_at("parse-expected-fn"@, "Expected `fn`."@, f, s, p)]
    };
    let t = r_sig(f, s, adv(s, p));
    let b = r_fn_tail(f, s, t.end);
    Step { end: b.end, diags: d0 + t.diags + b.diags }
}

/// `[effects] block`, what follows a function's signature.
pub open spec fn r_fn_tail(f: Seq<char>, s: Seq<char>, p: nat) -> Step {
    let g = if tclass(s, p) == TokenClass::Effects {
        r_effects(f, s, p)
    } else {
        clean(p)
    };
    let bl = r_block(f, s, g.end);
    Step { end: bl.end, diags: g.diags + bl.diags }
}

pub open spec fn r_state(f: Seq<char>, s: Seq<char>, p: nat) -> Step {
    let q = if tclass(s, p) == TokenClass::Final {
        adv(s, p)
    } else {
        p
    };
    let a = r_expect(f, s, q, TokenClass::State, "parse-expected-state"@, "Expected `state` in protocol body (or `final state`)."@);
    let b = r_ident(f, s, a.end, "parse-expected-ident"@, "Expected state name identifier."@);
    let z = r_expect(f, s, b.end, TokenClass::Semi, "parse-expected-semi"@, "Expected `;` after state declaration."@);
    Step { end: z.end, diags: a.diags + b.diags + z.diags }
}

pub open spec fn r_transition(f: Seq<char>, s: Seq<char>, p: nat) -> Step {
    let a = r_ident(f, s, adv(s, p), "parse-expected-ident"@, "Expected source state identifier after `transition`."@);
    let b = r_expect(f, s, a.end, TokenClass::Arrow, "parse-expected-arrow"@, "Expected `->` in transition declaration."@);
    let c = r_ident(f, s, b.end, "parse-expected-ident"@, "Expected destination state identifier after `->`."@);
    let z = r_expect(f, s, c.end, TokenClass::Semi, "parse-expected-semi"@, "Expected `;` after transition declaration."@);
    Step { end: z.end, diags: a.diags + b.diags + c.diags + z.diags }
}

/// A protocol's body up to its `}` or the end of the text.
pub open spec fn r_body(f: Seq<char>, s: Seq<char>, p: nat) -> Step
    decreases s.len() - p,
{
    let c = tclass(s, p);
    if c == TokenClass::RBrace || c == TokenClass::Eof {
        clean(p)
    } else {
        let a = if c == TokenClass::State || c == TokenClass::Final {
            r_state(f, s, p)
        } else if c == TokenClass::Transition {
            r_transition(f, s, p)
        } else {
            Step {
                end: adv(s, p),
                diags: seq![
                    err_at(
                        "parse-unexpected-token"@,
                        "Unexpected token in protocol body (expected `state` or `transition`)."@,
                        f,
                        s,
                        p,
                    ),
                ],
            }
        };
        if p < a.end <= s.len() {
            let b = r_body(f, s, a.end);
            Step { end: b.end, diags: a.diags + b.diags }
        } else {
            a
        }
    }
}

pub open spec fn r_protocol(f: Seq<char>, s: Seq<char>, p: nat) -> Step {
    let a = r_ident(f, s, adv(s, p), "parse-expected-ident"@, "Expected protocol name identifier."@);
    let b = r_expect(f, s, a.end, TokenClass::LBrace, "parse-expected-lbrace"@, "Expected `{` after protocol name."@);
    let l = r_body(f, s, b.end);
    let z = r_expect(f, s, l.end, TokenClass::RBrace, "parse-expected-rbrace"@, "Expected `}` to end protocol body."@);
    Step { end: z.end, diags: a.diags + b.diags + l.diags + z.diags }
}

/// Top-level items up to the end of the text.
pub open spec fn r_program(f: Seq<char>, s: Seq<char>, p: nat) -> Step
    decreases s.len() - p,
{
    let c = tclass(s, p);
    if c == TokenClass::Eof {
        clean(p)
    } else {
        let a = if c == TokenClass::Fn || c == TokenClass::Ident {
            r_fn(f, s, p)
        } else if c == TokenClass::Protocol {
            r_protocol(f, s, p)
        } else {
            Step {
                end: adv(s, p),
                diags: seq![
                    err_at(
                        "parse-expected-top-level"@,
                        "Expected top-level item: `fn` or `protocol`."@,
                        f,
                        s,
                        p,
                    ),
                ],
            }
        };
        if p < a.end <= s.len() {
            let b = r_program(f, s, a.end);
            Step { end: b.end, diags: a.diags + b.diags }
        } else {
            a
        }
    }
}

/// Everything the parser reports of the text `s` of file `f`, in order.
pub open spec fn parse_diags(f: Seq<char>, s: Seq<char>) -> Seq<DiagV> {
    r_program(f, s, 0).diags
}

} // verus!
