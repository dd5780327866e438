//! The parser: tokens to a syntax tree, by recursive descent with one token
//! of lookahead. It never fails: on an unexpected token it records a
//! diagnostic, skips the token, and puts a placeholder in the tree, so that
//! it always returns a complete program.
use vstd::prelude::*;

use crate::ast::{
    Block, Effect, EffectSpec, Expr, FnDecl, Ident, Param, Program, ProtocolDecl, StateDecl, Stmt,
    TransitionDecl, Type,
};
use crate::diagnostics::{has_error, Diagnostic, DiagnosticReport, Severity, Span};
use crate::grammar::{
    adv, expect, g_args, g_block, g_effect_list, g_effects, g_expr, g_fn, g_if, g_let, g_params,
    g_program, g_protocol, g_protocol_body, g_return, g_state, g_stmt, g_stmts, g_transition,
    g_type, is_effect_word, kind_class, lemma_adv, lemma_next_token, tclass, type_reads, expr_reads,
    args_read, int_at, str_at, stmt_reads, block_reads, stmts_read, effect_named, effect_list_read,
    effects_reads, params_reads, fn_reads, state_reads, transition_reads, body_read,
    protocol_reads, items_read, program_reads, lemma_body_push_state, lemma_body_push_transition,
    lemma_items_push_fn, lemma_items_push_protocol, lemma_effect_words, text_of, well_formed,
    TokenClass, g_let_value, g_cond, g_sig, end_of, g_fn_tail,
};
use crate::lexer::{line_count, str_is, Lexer, Token, TokenKind};
use crate::recovery::{
    parse_diags, r_args, r_block, r_effect_item, r_effect_list, r_effects, r_expect, r_expr, r_fn,
    r_ident, r_if, r_let, r_params, r_body, r_program, r_protocol, r_return, r_state, r_stmt,
    r_stmts, r_transition, r_type, tok_span, Step, r_let_value, r_cond, r_sig, r_fn_tail,
};

verus! {

/// Whether a span lies on lines `0..=n` (zero only for an unknown span).
pub open spec fn span_within(sp: Span, n: nat) -> bool {
    sp.start_line <= n && sp.end_line <= n
}

pub open spec fn type_within(t: Type, n: nat) -> bool
    decreases t,
{
    span_within(t.spec_span(), n) && match t {
        Type::Secret { inner, .. } => type_within(*inner, n),
        _ => true,
    }
}

pub open spec fn expr_within(e: Expr, n: nat) -> bool
    decreases e,
{
    span_within(e.spec_span(), n) && match e {
        Expr::Var { name, .. } => span_within(name.span, n),
        Expr::Move { name, .. } => span_within(name.span, n),
        Expr::Call { callee, args, .. } => span_within(callee.span, n) && forall|i: int|
            0 <= i < args@.len() ==> #[trigger] expr_within(args@[i], n),
        _ => true,
    }
}

pub open spec fn block_within(b: Block, n: nat) -> bool
    decreases b,
{
    span_within(b.span, n) && forall|i: int|
        0 <= i < b.stmts@.len() ==> #[trigger] stmt_within(b.stmts@[i], n)
}

pub open spec fn stmt_within(s: Stmt, n: nat) -> bool
    decreases s,
{
    match s {
        Stmt::Let { name, ty, expr, span } => span_within(span, n) && span_within(name.span, n)
            && expr_within(expr, n) && match ty {
            Some(t) => type_within(t, n),
            None => true,
        },
        Stmt::Return { expr, span } => span_within(span, n) && match expr {
            Some(e) => expr_within(e, n),
            None => true,
        },
        Stmt::If { cond, then_blk, else_blk, span } => span_within(span, n) && expr_within(cond, n)
            && block_within(then_blk, n) && match else_blk {
            Some(b) => block_within(b, n),
            None => true,
        },
        Stmt::Expr { expr, span } => span_within(span, n) && expr_within(expr, n),
    }
}

pub open spec fn fn_within(f: FnDecl, n: nat) -> bool {
    &&& span_within(f.span, n)
    &&& span_within(f.name.span, n)
    &&& type_within(f.ret, n)
    &&& block_within(f.body, n)
    &&& forall|i: int|
        0 <= i < f.params@.len() ==> span_within(#[trigger] f.params@[i].span, n) && span_within(
            f.params@[i].name.span,
            n,
        ) && type_within(f.params@[i].ty, n)
    &&& forall|i: int| 0 <= i < f.effects@.len() ==> span_within(#[trigger] f.effects@[i].span, n)
}

pub open spec fn protocol_within(p: ProtocolDecl, n: nat) -> bool {
    &&& span_within(p.span, n)
    &&& span_within(p.name.span, n)
    &&& forall|i: int|
        0 <= i < p.states@.len() ==> span_within(#[trigger] p.states@[i].span, n) && span_within(
            p.states@[i].name.span,
            n,
        )
    &&& forall|i: int|
        0 <= i < p.transitions@.len() ==> span_within(#[trigger] p.transitions@[i].span, n)
            && span_within(p.transitions@[i].from.span, n) && span_within(
            p.transitions@[i].to.span,
            n,
        )
}

/// Whether every span of the program lies on lines `0..=n`.
pub open spec fn program_within(p: Program, n: nat) -> bool {
    &&& span_within(p.span, n)
    &&& forall|i: int| 0 <= i < p.funcs@.len() ==> fn_within(#[trigger] p.funcs@[i], n)
    &&& forall|i: int| 0 <= i < p.protocols@.len() ==> protocol_within(#[trigger] p.protocols@[i], n)
}

/// Parses a source text held in memory.
pub fn parse_program(src: &str) -> (r: Result<Program, DiagnosticReport>)
    requires
        src@.len() + 2 <= u32::MAX,
    ensures
        r is Ok <==> well_formed(src@),
        match r {
            Ok(p) => program_within(p, line_count(src@)) && program_reads(p, src@),
            Err(rep) => rep@ == parse_diags("<memory>"@, src@) && has_error(rep@),
        },
{
    parse_file("<memory>", src)
}

/// Parses a file. It succeeds iff the text is a program of the language's
/// grammar; the tree it returns is then the one the text holds, with its
/// spans within the lines of the text. Otherwise the report holds the
/// errors.
pub fn parse_file(file: &str, src: &str) -> (r: Result<Program, DiagnosticReport>)
    requires
        src@.len() + 2 <= u32::MAX,
    ensures
        r is Ok <==> well_formed(src@),
        match r {
            Ok(p) => program_within(p, line_count(src@)) && program_reads(p, src@),
            Err(rep) => rep@ == parse_diags(file@, src@) && has_error(rep@),
        },
{
    let (prog, report) = parse_with_recovery(file, src);
    if report.is_ok() {
        Ok(prog)
    } else {
        Err(report)
    }
}

/// Parses a file and returns the tree whatever the errors, with the
/// diagnostics of the parse: errors only, and none exactly when the text is
/// a program of the grammar. Every span of the tree lies within the lines
/// of the text.
pub fn parse_with_recovery(file: &str, src: &str) -> (r: (Program, DiagnosticReport))
    requires
        src@.len() + 2 <= u32::MAX,
    ensures
        program_within(r.0, line_count(src@)),
        (r.1@.len() == 0) == well_formed(src@),
        r.1@.len() == 0 ==> program_reads(r.0, src@),
        has_error(r.1@) == !well_formed(src@),
        forall|i: int| 0 <= i < r.1@.len() ==> (#[trigger] r.1@[i]).severity == Severity::Error,
        r.1@ == parse_diags(file@, src@),
{
    let mut p = Parser::new(file, src);
    let prog = p.parse_program();
    proof {
        if p.nerr() > 0 {
            assert(p.report@[0].severity == Severity::Error);
        }
    }
    (prog, p.report)
}

struct Parser {
    file: String,
    lx: Lexer,
    cur: Token,
    report: DiagnosticReport,
    /// Where the lexer stood before it read `cur`.
    cur_from: Ghost<nat>,
}

/// Whether the token kinds are equal, for a kind without a payload.
fn kind_is(k: &TokenKind, expected: &TokenKind) -> (r: bool)
    requires
        !(expected is Ident || expected is IntLit || expected is StrLit),
    ensures
        r == (*k == *expected),
{
    match (k, expected) {
        (TokenKind::ProtocolKw, TokenKind::ProtocolKw) => true,
        (TokenKind::StateKw, TokenKind::StateKw) => true,
        (TokenKind::TransitionKw, TokenKind::TransitionKw) => true,
        (TokenKind::FinalKw, TokenKind::FinalKw) => true,
        (TokenKind::KwFn, TokenKind::KwFn) => true,
        (TokenKind::KwLet, TokenKind::KwLet) => true,
        (TokenKind::KwReturn, TokenKind::KwReturn) => true,
        (TokenKind::KwSecret, TokenKind::KwSecret) => true,
        (TokenKind::KwIf, TokenKind::KwIf) => true,
        (TokenKind::KwElse, TokenKind::KwElse) => true,
        (TokenKind::KwEffects, TokenKind::KwEffects) => true,
        (TokenKind::LParen, TokenKind::LParen) => true,
        (TokenKind::RParen, TokenKind::RParen) => true,
        (TokenKind::LBrace, TokenKind::LBrace) => true,
        (TokenKind::RBrace, TokenKind::RBrace) => true,
        (TokenKind::Colon, TokenKind::Colon) => true,
        (TokenKind::Semi, TokenKind::Semi) => true,
        (TokenKind::Comma, TokenKind::Comma) => true,
        (TokenKind::Eq, TokenKind::Eq) => true,
        (TokenKind::Arrow, TokenKind::Arrow) => true,
        (TokenKind::Eof, TokenKind::Eof) => true,
        _ => false,
    }
}

impl Parser {
    /// The lines of the text: every span read lies on lines `0..=limit`.
    spec fn limit(&self) -> nat {
        line_count(self.lx.text())
    }

    spec fn at_eof(&self) -> bool {
        self.cur.kind is Eof
    }

    /// Decreases with every token consumed.
    spec fn measure(&self) -> nat {
        2 * (self.lx.text().len() - self.lx.pos()) as nat + if self.at_eof() {
            0nat
        } else {
            1nat
        }
    }

    spec fn src(&self) -> Seq<char> {
        self.lx.text()
    }

    spec fn from(&self) -> nat {
        self.cur_from@
    }

    spec fn nerr(&self) -> nat {
        self.report@.len()
    }

    spec fn fname(&self) -> Seq<char> {
        self.lx.file_name()
    }

    /// The parser did what `r` says: it stopped where `r` ends and appended
    /// the diagnostics of `r` to those it had.
    spec fn runs(old: Parser, new: Parser, r: Step) -> bool {
        &&& new.from() == r.end
        &&& new.report@ =~= old.report@ + r.diags
    }

    spec fn wf(&self) -> bool {
        &&& self.lx.wf()
        &&& self.lx.pos() <= self.lx.text().len()
        &&& self.at_eof() ==> self.lx.pos() == self.lx.text().len()
        &&& span_within(self.cur.span, self.limit())
        &&& self.from() <= self.src().len()
        &&& self.file@ == self.fname()
        &&& self.cur.span@ == tok_span(self.fname(), self.src(), self.from())
        &&& self.lx.pos() == adv(self.src(), self.from())
        &&& kind_class(self.cur.kind) == tclass(self.src(), self.from())
        &&& self.cur.kind is Ident ==> self.cur.kind->Ident_0@ == text_of(self.src(), self.from())
        &&& self.cur.kind is IntLit ==> self.cur.kind->IntLit_0 as int == int_at(self.src(), self.from())
        &&& self.cur.kind is StrLit ==> self.cur.kind->StrLit_0@ == str_at(self.src(), self.from())
        &&& forall|i: int| 0 <= i < self.nerr() ==> (#[trigger] self.report@[i]).severity == Severity::Error
    }

    /// The parser moved on, or stayed at the end; it consumed a token
    /// where it was not at the end and `strict` holds.
    spec fn advanced(old: Parser, new: Parser, strict: bool) -> bool {
        &&& new.wf()
        &&& new.limit() == old.limit()
        &&& new.src() == old.src()
        &&& new.fname() == old.fname()
        &&& new.measure() <= old.measure()
        &&& (strict && !old.at_eof()) ==> new.measure() < old.measure()
        &&& new.from() >= old.from()
        &&& (strict && !old.at_eof()) ==> new.from() > old.from()
        &&& new.nerr() >= old.nerr()
    }

    /// The parser read a production whose recognizer gives `g` from where it
    /// started: it raised no diagnostic iff the text follows the production
    /// there, and then it stopped where the production ends.
    spec fn follows(old: Parser, new: Parser, g: Option<nat>) -> bool {
        &&& (new.nerr() == old.nerr()) == (g is Some)
        &&& g is Some ==> g->0 == new.from()
    }

    fn new(file: &str, src: &str) -> (p: Parser)
        requires
            src@.len() + 2 <= u32::MAX,
        ensures
            p.wf(),
            p.limit() == line_count(src@),
            p.src() == src@,
            p.from() == 0,
            p.nerr() == 0,
            p.fname() == file@,
    {
        let mut lx = Lexer::new(file, src);
        let cur = lx.next_token();
        proof {
            lemma_next_token(cur.kind, src@, 0);
        }
        Parser {
            file: file.to_owned(),
            lx,
            cur,
            report: DiagnosticReport::new(),
            cur_from: Ghost(0),
        }
    }

    fn bump(&mut self)
        requires
            old(self).wf(),
        ensures
            Self::advanced(*old(self), *final(self), true),
            final(self).from() == adv(old(self).src(), old(self).from()),
            final(self).nerr() == old(self).nerr(),
            final(self).report == old(self).report,
    {
        let ghost q = self.lx.pos();
        proof {
            lemma_adv(self.src(), self.from());
        }
        self.cur = self.lx.next_token();
        self.cur_from = Ghost(q);
        proof {
            lemma_next_token(self.cur.kind, self.src(), q);
            lemma_adv(self.src(), q);
        }
    }

    fn err(&mut self, code: &str, msg: &str, span: Span)
        requires
            old(self).wf(),
        ensures
            final(self).wf(),
            final(self).lx == old(self).lx,
            final(self).cur == old(self).cur,
            final(self).from() == old(self).from(),
            final(self).nerr() == old(self).nerr() + 1,
            final(self).report@ == old(self).report@.push(crate::diagnostics::error_v(code@, msg@, span@)),
    {
        self.report.push(Diagnostic::error(code, msg, span));
    }

    /// Consumes a token of the expected kind, or reports it missing and
    /// consumes nothing.
    fn expect_kind(&mut self, expected: TokenKind, code: &str, msg: &str) -> (r: Option<Span>)
        requires
            old(self).wf(),
            !(expected is Ident || expected is IntLit || expected is StrLit),
        ensures
            Self::advanced(*old(self), *final(self), r is Some),
            r matches Some(sp) ==> span_within(sp, old(self).limit()),
            r is Some <==> old(self).cur.kind == expected,
            r is Some <==> kind_class(old(self).cur.kind) == kind_class(expected),
            r is None ==> final(self).cur == old(self).cur && final(self).lx == old(self).lx
                && final(self).from() == old(self).from(),
            Self::follows(*old(self), *final(self), expect(old(self).src(), old(self).from(), kind_class(expected))),
            Self::runs(*old(self), *final(self), r_expect(old(self).fname(), old(self).src(), old(self).from(), kind_class(expected), code@, msg@)),
            r matches Some(sp) ==> sp@ == tok_span(old(self).fname(), old(self).src(), old(self).from()),
    {
        if kind_is(&self.cur.kind, &expected) {
            let sp = self.cur.span.copied();
            self.bump();
            Some(sp)
        } else {
            let sp = self.cur.span.copied();
            self.err(code, msg, sp);
            None
        }
    }

    fn parse_program(&mut self) -> (p: Program)
        requires
            old(self).wf(),
        ensures
            final(self).wf(),
            program_within(p, old(self).limit()),
            final(self).src() == old(self).src(),
            final(self).nerr() >= old(self).nerr(),
            (final(self).nerr() == old(self).nerr()) == g_program(old(self).src(), old(self).from()),
            Self::runs(*old(self), *final(self), r_program(old(self).fname(), old(self).src(), old(self).from())),
            final(self).cur.kind is Eof,
            final(self).nerr() == old(self).nerr() ==> exists|e: nat|
                items_read(p.funcs@, p.protocols@, old(self).src(), old(self).from(), e) && tclass(
                    old(self).src(),
                    e,
                ) == TokenClass::Eof,
    {
        let ghost n = self.limit();
        let ghost s = self.src();
        let ghost at0 = self.from();
        let ghost n0 = self.nerr();
        let ghost f = self.fname();
        let ghost r1 = self.report@;
        let mut funcs: Vec<FnDecl> = Vec::new();
        let mut protocols: Vec<ProtocolDecl> = Vec::new();
        let start = Span::unknown(self.file.as_str());
        while !matches!(self.cur.kind, TokenKind::Eof)
            invariant
                self.wf(),
                self.limit() == n,
                self.src() == s,
                self.fname() == old(self).fname(),
                self.nerr() >= n0,
                (self.nerr() == n0) ==> g_program(s, at0) == g_program(s, self.from()),
                (self.nerr() != n0) ==> !g_program(s, at0),
                (self.nerr() == n0) ==> items_read(funcs@, protocols@, s, at0, self.from()),
                f == self.fname(),
                at0 <= self.from(),
                self.report@ + r_program(f, s, self.from()).diags =~= r1 + r_program(f, s, at0).diags,
                r_program(f, s, self.from()).end == r_program(f, s, at0).end,
                forall|i: int| 0 <= i < funcs@.len() ==> fn_within(#[trigger] funcs@[i], n),
                forall|i: int|
                    0 <= i < protocols@.len() ==> protocol_within(#[trigger] protocols@[i], n),
            decreases self.measure(),
        {
            let ghost pi = self.from();
            proof {
                lemma_adv(s, pi);
            }
            let ghost fs0 = funcs@;
            let ghost ps0 = protocols@;
            let ghost ri = self.report@;
            match self.cur.kind {
                TokenKind::KwFn | TokenKind::Ident(_) => {
                    let f = self.parse_fn();
                    proof {
                        if self.nerr() == n0 {
                            lemma_items_push_fn(fs0, ps0, s, at0, pi, f, self.from());
                        }
                    }
                    funcs.push(f);
                },
                TokenKind::ProtocolKw => {
                    let pr = self.parse_protocol();
                    proof {
                        if self.nerr() == n0 {
                            lemma_items_push_protocol(fs0, ps0, s, at0, pi, pr, self.from());
                        }
                    }
                    protocols.push(pr);
                },
                _ => {
                    let sp = self.cur.span.copied();
                    self.err(
                        "parse-expected-top-level",
                        "Expected top-level item: `fn` or `protocol`.",
                        sp,
                    );
                    self.bump();
                },
            }
            assert(self.report@ + r_program(f, s, self.from()).diags =~= ri + r_program(f, s, pi).diags);
        }
        assert(self.report@ =~= r1 + r_program(f, s, at0).diags);
        let prog = Program { funcs, protocols, span: start };
        assert(self.nerr() == old(self).nerr() ==> items_read(
            prog.funcs@,
            prog.protocols@,
            s,
            at0,
            self.from(),
        ) && tclass(s, self.from()) == TokenClass::Eof);
        prog
    }

    /// A function; where the `fn` keyword is missing, it is reported and
    /// the token in its place is skipped.
    #[verifier::rlimit(100)]
    #[verifier::spinoff_prover]
    fn parse_fn(&mut self) -> (f: FnDecl)
        requires
            old(self).wf(),
        ensures
            Self::advanced(*old(self), *final(self), true),
            fn_within(f, old(self).limit()),
            Self::follows(*old(self), *final(self), g_fn(old(self).src(), old(self).from())),
            final(self).nerr() == old(self).nerr() ==> fn_reads(f, old(self).src(), old(self).from()),
            Self::runs(*old(self), *final(self), r_fn(old(self).fname(), old(self).src(), old(self).from())),
            !(old(self).cur.kind is KwFn) ==> final(self).report@[old(self).nerr() as int] == crate::diagnostics::error_v(
                "parse-expected-fn"@,
                "Expected `fn`."@,
                tok_span(old(self).fname(), old(self).src(), old(self).from()),
            ),
    {
        let ghost s = self.src();
        let ghost at0 = self.from();
        let ghost n = self.limit();
        proof {
            lemma_adv(s, at0);
        }
        let fn_span = self.cur.span.copied();
        if !matches!(self.cur.kind, TokenKind::KwFn) {
            self.err("parse-expected-fn", "Expected `fn`.", fn_span.copied());
        }
        self.bump();
        let (name, params, ret) = self.parse_sig();
        let (effects, body) = self.parse_fn_tail();
        let f = FnDecl { name, params, ret, effects, body, span: fn_span };
        assert(forall|i: int|
            0 <= i < f.effects@.len() ==> span_within(#[trigger] f.effects@[i].span, n));
        assert(span_within(f.span, n));
        assert(span_within(f.name.span, n));
        assert(type_within(f.ret, n));
        assert(block_within(f.body, n));
        assert(forall|i: int|
            0 <= i < f.params@.len() ==> span_within(#[trigger] f.params@[i].span, n) && span_within(
                f.params@[i].name.span,
                n,
            ) && type_within(f.params@[i].ty, n));
        assert(n == old(self).limit());
        assert(fn_within(f, n));
        f
    }

    /// `effects(e, ...)`, the cursor on `effects`.
    fn parse_effects_clause(&mut self) -> (out: Vec<EffectSpec>)
        requires
            old(self).wf(),
            old(self).cur.kind is KwEffects,
        ensures
            Self::advanced(*old(self), *final(self), true),
            forall|i: int|
                0 <= i < out@.len() ==> span_within(#[trigger] out@[i].span, old(self).limit()),
            Self::follows(*old(self), *final(self), g_effects(old(self).src(), old(self).from())),
            final(self).nerr() == old(self).nerr() ==> effects_reads(out@, old(self).src(), old(self).from()),
            Self::runs(*old(self), *final(self), r_effects(old(self).fname(), old(self).src(), old(self).from())),
    {
        let ghost n = self.limit();
        let ghost s = self.src();
        let ghost at0 = self.from();
        let ghost n0 = self.nerr();
        let ghost m0 = self.measure();
        proof {
            lemma_adv(s, at0);
        }
        self.bump();
        self.expect_kind(TokenKind::LParen, "parse-expected-lparen", "Expected `(` after effects.");
        let ghost q1 = self.from();
        let ghost mut le: nat = q1;
        let ghost f = self.fname();
        let ghost r1 = self.report@;
        let mut out: Vec<EffectSpec> = Vec::new();
        if !matches!(self.cur.kind, TokenKind::RParen) {
            loop
                invariant_except_break
                    (self.nerr() == n0) ==> g_effects(s, at0) == g_effect_list(s, self.from()),
                    (self.nerr() == n0) ==> (out@.len() == 0 ==> self.from() == q1),
                    self.report@ + r_effect_list(f, s, self.from()).diags =~= r1 + r_effect_list(f, s, q1).diags,
                    r_effect_list(f, s, self.from()).end == r_effect_list(f, s, q1).end,
                    (self.nerr() == n0) ==> (out@.len() > 0 ==> effect_list_read(out@, s, q1)
                        == Some(le) && tclass(s, le) == TokenClass::Comma && self.from() == adv(s, le)),
                invariant
                    f == self.fname(),
                    q1 <= self.from(),
                    self.wf(),
                    self.limit() == n,
                    self.src() == s,
                    self.fname() == old(self).fname(),
                    self.measure() < m0,
                    self.from() > at0,
                    self.nerr() >= n0,
                    (self.nerr() != n0) ==> g_effects(s, at0) is None,
                    forall|i: int| 0 <= i < out@.len() ==> span_within(#[trigger] out@[i].span, n),
                ensures
                    self.wf(),
                    self.limit() == n,
                    self.src() == s,
                    self.fname() == old(self).fname(),
                    self.measure() < m0,
                    self.from() > at0,
                    self.nerr() >= n0,
                    (self.nerr() == n0) ==> g_effects(s, at0) == expect(s, self.from(), TokenClass::RParen),
                    (self.nerr() == n0) ==> effect_list_read(out@, s, q1) == Some(self.from()),
                    self.report@ =~= r1 + r_effect_list(f, s, q1).diags,
                    self.from() == r_effect_list(f, s, q1).end,
                    f == self.fname(),
                    (self.nerr() != n0) ==> g_effects(s, at0) is None,
                    forall|i: int| 0 <= i < out@.len() ==> span_within(#[trigger] out@[i].span, n),
                decreases self.measure(),
            {
                let ghost pi = self.from();
                let ghost ni = self.nerr();
                proof {
                    lemma_adv(s, pi);
                }
                let ghost before = out@;
                let ghost ri = self.report@;
                let (eff, sp) = self.parse_effect_item();
                out.push(EffectSpec { effect: eff, span: sp });
                let ghost qi = self.from();
                proof {
                    assert(out@.subrange(0, out@.len() - 1) =~= before);
                    lemma_adv(s, qi);
                }
                if matches!(self.cur.kind, TokenKind::Comma) {
                    self.bump();
                    proof {
                        le = qi;
                        assert(self.report@ + r_effect_list(f, s, self.from()).diags =~= ri
                            + r_effect_list(f, s, pi).diags);
                    }
                } else {
                    assert(self.report@ =~= ri + r_effect_list(f, s, pi).diags);
                    break;
                }
            }
        }
        self.expect_kind(TokenKind::RParen, "parse-expected-rparen", "Expected `)` after effects list.");
        out
    }

    fn parse_effect_item(&mut self) -> (r: (Effect, Span))
        requires
            old(self).wf(),
        ensures
            Self::advanced(*old(self), *final(self), true),
            span_within(r.1, old(self).limit()),
            Self::follows(
                *old(self),
                *final(self),
                if tclass(old(self).src(), old(self).from()) == TokenClass::Ident && is_effect_word(
                    text_of(old(self).src(), old(self).from()),
                ) {
                    Some(adv(old(self).src(), old(self).from()))
                } else {
                    None
                },
            ),
            final(self).nerr() == old(self).nerr() ==> r.0 == effect_named(
                text_of(old(self).src(), old(self).from()),
            ),
            Self::runs(*old(self), *final(self), r_effect_item(old(self).fname(), old(self).src(), old(self).from())),
            r.1@ == tok_span(old(self).fname(), old(self).src(), old(self).from()),
    {
        proof {
            lemma_effect_words();
        }
        let sp = self.cur.span.copied();
        let eff = match &self.cur.kind {
            TokenKind::Ident(s) => {
                if str_is(s, "io") {
                    Some(Effect::Io)
                } else if str_is(s, "net") {
                    Some(Effect::Net)
                } else if str_is(s, "time") {
                    Some(Effect::Time)
                } else if str_is(s, "rand") {
                    Some(Effect::Rand)
                } else {
                    self.err(
                        "parse-unknown-effect",
                        "Unknown effect (expected io|net|time|rand).",
                        sp.copied(),
                    );
                    None
                }
            },
            _ => {
                self.err(
                    "parse-expected-effect",
                    "Expected effect name (io|net|time|rand).",
                    sp.copied(),
                );
                None
            },
        };
        self.bump();
        match eff {
            Some(e) => (e, sp),
            None => (Effect::Io, sp),
        }
    }

    /// No parameter or one: `name: Type`.
    fn parse_params(&mut self) -> (ps: Vec<Param>)
        requires
            old(self).wf(),
        ensures
            Self::advanced(*old(self), *final(self), false),
            forall|i: int|
                0 <= i < ps@.len() ==> span_within(#[trigger] ps@[i].span, old(self).limit())
                    && span_within(ps@[i].name.span, old(self).limit()) && type_within(
                    ps@[i].ty,
                    old(self).limit(),
                ),
            Self::follows(*old(self), *final(self), g_params(old(self).src(), old(self).from())),
            final(self).nerr() == old(self).nerr() ==> params_reads(ps@, old(self).src(), old(self).from()),
            Self::runs(*old(self), *final(self), r_params(old(self).fname(), old(self).src(), old(self).from())),
    {
        if matches!(self.cur.kind, TokenKind::RParen) {
            return Vec::new();
        }
        let name = self.parse_ident("parse-expected-ident", "Expected parameter name.");
        self.expect_kind(TokenKind::Colon, "parse-expected-colon", "Expected `:` after parameter name.");
        let ty = self.parse_type();
        let sp = name.span.copied();
        let mut v: Vec<Param> = Vec::new();
        v.push(Param { name, ty, span: sp });
        v
    }

    fn parse_block(&mut self) -> (b: Block)
        requires
            old(self).wf(),
        ensures
            Self::advanced(*old(self), *final(self), true),
            block_within(b, old(self).limit()),
            Self::follows(*old(self), *final(self), g_block(old(self).src(), old(self).from())),
            final(self).nerr() == old(self).nerr() ==> block_reads(b, old(self).src(), old(self).from()),
            Self::runs(*old(self), *final(self), r_block(old(self).fname(), old(self).src(), old(self).from())),
        decreases old(self).measure(), 2nat,
    {
        let ghost n = self.limit();
        let ghost s = self.src();
        let ghost at0 = self.from();
        let ghost n0 = self.nerr();
        let ghost m0 = self.measure();
        let ghost e0 = self.at_eof();
        proof {
            lemma_adv(s, at0);
        }
        let opened = self.expect_kind(
            TokenKind::LBrace,
            "parse-expected-lbrace",
            "Expected `{` to start block.",
        );
        let ghost mut consumed = opened is Some;
        let ghost f = self.fname();
        let ghost e1 = self.from();
        let ghost r1 = self.report@;
        let lbrace = match opened {
            Some(sp) => sp,
            None => Span::unknown(self.file.as_str()),
        };
        let mut stmts: Vec<Stmt> = Vec::new();
        while !matches!(self.cur.kind, TokenKind::RBrace) && !matches!(self.cur.kind, TokenKind::Eof)
            invariant
                self.wf(),
                self.limit() == n,
                self.src() == s,
                self.fname() == old(self).fname(),
                self.measure() <= m0,
                m0 == old(self).measure(),
                self.from() >= at0,
                self.nerr() >= n0,
                consumed ==> self.measure() < m0 && self.from() > at0,
                !consumed ==> self.measure() == m0 && self.from() == at0 && self.cur == old(self).cur,
                (self.nerr() == n0) ==> g_block(s, at0) == g_stmts(s, self.from()),
                (self.nerr() == n0) ==> stmts_read(stmts@, s, adv(s, at0)) == Some(self.from()),
                f == self.fname(),
                e1 <= self.from(),
                self.report@ + r_stmts(f, s, self.from()).diags =~= r1 + r_stmts(f, s, e1).diags,
                r_stmts(f, s, self.from()).end == r_stmts(f, s, e1).end,
                (self.nerr() != n0) ==> g_block(s, at0) is None,
                forall|i: int| 0 <= i < stmts@.len() ==> stmt_within(#[trigger] stmts@[i], n),
            decreases self.measure(),
        {
            let ghost pi = self.from();
            proof {
                lemma_adv(s, pi);
            }
            let ghost before = stmts@;
            let ghost ri = self.report@;
            let st = self.parse_stmt();
            stmts.push(st);
            proof {
                assert(stmts@.subrange(0, stmts@.len() - 1) =~= before);
                assert(self.report@ + r_stmts(f, s, self.from()).diags =~= ri + r_stmts(f, s, pi).diags);
            }
            proof {
                consumed = true;
            }
        }
        proof {
            assert(self.at_eof() ==> self.measure() == 0);
            lemma_adv(s, self.from());
        }
        assert(self.report@ =~= r1 + r_stmts(f, s, e1).diags);
        self.expect_kind(TokenKind::RBrace, "parse-expected-rbrace", "Expected `}` to end block.");
        assert(self.report@ =~= old(self).report@ + r_block(f, s, at0).diags);
        Block { stmts, span: lbrace }
    }

    #[verifier::rlimit(100)]
    fn parse_stmt(&mut self) -> (s: Stmt)
        requires
            old(self).wf(),
        ensures
            Self::advanced(*old(self), *final(self), true),
            stmt_within(s, old(self).limit()),
            Self::follows(*old(self), *final(self), g_stmt(old(self).src(), old(self).from())),
            Self::runs(*old(self), *final(self), r_stmt(old(self).fname(), old(self).src(), old(self).from())),
            final(self).nerr() == old(self).nerr() ==> stmt_reads(s, old(self).src(), old(self).from()),
        decreases old(self).measure(), 1nat,
    {
        match self.cur.kind {
            TokenKind::KwLet => self.parse_let(),
            TokenKind::KwReturn => self.parse_return(),
            TokenKind::KwIf => self.parse_if(),
            _ => {
                let expr = self.parse_expr();
                let semi = match self.expect_kind(
                    TokenKind::Semi,
                    "parse-expected-semi",
                    "Expected `;` after expression.",
                ) {
                    Some(sp) => sp,
                    None => expr.span().copied(),
                };
                Stmt::Expr { expr, span: semi }
            },
        }
    }

    #[verifier::rlimit(100)]
    #[verifier::spinoff_prover]
    fn parse_let(&mut self) -> (s: Stmt)
        requires
            old(self).wf(),
            old(self).cur.kind is KwLet,
        ensures
            Self::advanced(*old(self), *final(self), true),
            stmt_within(s, old(self).limit()),
            Self::follows(*old(self), *final(self), g_let(old(self).src(), old(self).from())),
            Self::runs(*old(self), *final(self), r_let(old(self).fname(), old(self).src(), old(self).from())),
            final(self).nerr() == old(self).nerr() ==> stmt_reads(s, old(self).src(), old(self).from()),
    {
        let ghost s0 = self.src();
        let ghost at0 = self.from();
        proof {
            lemma_adv(s0, at0);
        }
        let let_span = self.cur.span.copied();
        self.bump();
        let name = self.parse_ident("parse-expected-ident", "Expected identifier after `let`.");
        let mut ty: Option<Type> = None;
        if matches!(self.cur.kind, TokenKind::Colon) {
            self.bump();
            ty = Some(self.parse_type());
        }
        let expr = self.parse_let_value();
        Stmt::Let { name, ty, expr, span: let_span }
    }

    fn parse_return(&mut self) -> (s: Stmt)
        requires
            old(self).wf(),
            old(self).cur.kind is KwReturn,
        ensures
            Self::advanced(*old(self), *final(self), true),
            stmt_within(s, old(self).limit()),
            Self::follows(*old(self), *final(self), g_return(old(self).src(), old(self).from())),
            Self::runs(*old(self), *final(self), r_return(old(self).fname(), old(self).src(), old(self).from())),
            final(self).nerr() == old(self).nerr() ==> stmt_reads(s, old(self).src(), old(self).from()),
    {
        let ghost s0 = self.src();
        let ghost at0 = self.from();
        proof {
            lemma_adv(s0, at0);
        }
        let ret_span = self.cur.span.copied();
        self.bump();
        let expr = if matches!(self.cur.kind, TokenKind::Semi) {
            None
        } else {
            Some(self.parse_expr())
        };
        self.expect_kind(TokenKind::Semi, "parse-expected-semi", "Expected `;` after return.");
        Stmt::Return { expr, span: ret_span }
    }

    #[verifier::rlimit(100)]
    #[verifier::spinoff_prover]
    fn parse_if(&mut self) -> (s: Stmt)
        requires
            old(self).wf(),
            old(self).cur.kind is KwIf,
        ensures
            Self::advanced(*old(self), *final(self), true),
            stmt_within(s, old(self).limit()),
            Self::follows(*old(self), *final(self), g_if(old(self).src(), old(self).from())),
            Self::runs(*old(self), *final(self), r_if(old(self).fname(), old(self).src(), old(self).from())),
            final(self).nerr() == old(self).nerr() ==> stmt_reads(s, old(self).src(), old(self).from()),
        decreases old(self).measure(), 0nat,
    {
        let ghost s0 = self.src();
        let ghost at0 = self.from();
        proof {
            lemma_adv(s0, at0);
        }
        let if_span = self.cur.span.copied();
        self.bump();
        let cond = self.parse_cond();
        let then_blk = self.parse_block();
        let ghost q4 = self.from();
        proof {
            lemma_adv(s0, q4);
        }
        let else_blk = if matches!(self.cur.kind, TokenKind::KwElse) {
            self.bump();
            Some(self.parse_block())
        } else {
            None
        };
        Stmt::If { cond, then_blk, else_blk, span: if_span }
    }

    #[verifier::rlimit(100)]
    fn parse_expr(&mut self) -> (e: Expr)
        requires
            old(self).wf(),
        ensures
            Self::advanced(*old(self), *final(self), true),
            expr_within(e, old(self).limit()),
            Self::follows(*old(self), *final(self), g_expr(old(self).src(), old(self).from())),
            final(self).nerr() == old(self).nerr() ==> expr_reads(e, old(self).src(), old(self).from()),
            Self::runs(*old(self), *final(self), r_expr(old(self).fname(), old(self).src(), old(self).from())),
            !(old(self).cur.kind is IntLit || old(self).cur.kind is StrLit || old(self).cur.kind is Ident)
                ==> (e matches Expr::Var { name, span } && name.name@ == "_error_"@ && name.span@
                == tok_span(old(self).fname(), old(self).src(), old(self).from()) && span@ == tok_span(
                old(self).fname(),
                old(self).src(),
                old(self).from(),
            )),
        decreases old(self).measure(), 0nat,
    {
        let ghost n = self.limit();
        let ghost s0 = self.src();
        let ghost at0 = self.from();
        proof {
            lemma_adv(s0, at0);
        }
        let sp = self.cur.span.copied();
        match &self.cur.kind {
            TokenKind::IntLit(v) => {
                let vv = *v;
                self.bump();
                Expr::IntLit { value: vv, span: sp }
            },
            TokenKind::StrLit(s) => {
                let ss = s.clone();
                self.bump();
                Expr::StrLit { value: ss, span: sp }
            },
            TokenKind::Ident(s) => {
                if str_is(s, "true") || str_is(s, "false") {
                    let b = str_is(s, "true");
                    self.bump();
                    Expr::BoolLit { value: b, span: sp }
                } else if str_is(s, "move") {
                    self.bump();
                    self.expect_kind(TokenKind::LParen, "parse-expected-lparen", "Expected `(` after move.");
                    let name = self.parse_ident(
                        "parse-expected-ident",
                        "Expected identifier inside move(...).",
                    );
                    self.expect_kind(
                        TokenKind::RParen,
                        "parse-expected-rparen",
                        "Expected `)` after move argument.",
                    );
                    Expr::Move { name, span: sp }
                } else {
                    let id = self.parse_ident("parse-expected-ident", "Expected identifier.");
                    let start_sp = id.span.copied();
                    let ghost q = self.from();
                    proof {
                        lemma_adv(s0, q);
                    }
                    if matches!(self.cur.kind, TokenKind::LParen) {
                        let ghost m1 = self.measure();
                        self.bump();
                        let ghost q1 = self.from();
                        let ghost n1 = self.nerr();
                        let ghost f = self.fname();
                        let ghost r1 = self.report@;
                        proof {
                            lemma_adv(s0, q1);
                        }
                        let args = if !matches!(self.cur.kind, TokenKind::RParen) {
                            self.parse_args()
                        } else {
                            Vec::new()
                        };
                        self.expect_kind(
                            TokenKind::RParen,
                            "parse-expected-rparen",
                            "Expected `)` after call arguments.",
                        );
                        Expr::Call { callee: id, args, span: start_sp }
                    } else {
                        Expr::Var { name: id, span: start_sp }
                    }
                }
            },
            _ => {
                self.err("parse-unexpected-token", "Unexpected token in expression.", sp.copied());
                self.bump();
                let name = Ident { name: "_error_".to_owned(), span: sp.copied() };
                Expr::Var { name, span: sp }
            },
        }
    }

    /// Call arguments, comma separated, up to the closing `)`.
    fn parse_args(&mut self) -> (args: Vec<Expr>)
        requires
            old(self).wf(),
        ensures
            Self::advanced(*old(self), *final(self), false),
            forall|i: int| 0 <= i < args@.len() ==> expr_within(#[trigger] args@[i], old(self).limit()),
            (final(self).nerr() == old(self).nerr()) ==> g_args(old(self).src(), old(self).from())
                == expect(old(self).src(), final(self).from(), TokenClass::RParen),
            (final(self).nerr() != old(self).nerr()) ==> g_args(old(self).src(), old(self).from()) is None,
            (final(self).nerr() == old(self).nerr()) ==> args_read(args@, old(self).src(), old(self).from())
                == Some(final(self).from()),
            Self::runs(*old(self), *final(self), r_args(old(self).fname(), old(self).src(), old(self).from())),
        decreases old(self).measure(), 1nat,
    {
        let ghost n = self.limit();
        let ghost s0 = self.src();
        let ghost q1 = self.from();
        let ghost n1 = self.nerr();
        let ghost f = self.fname();
        let ghost r1 = self.report@;
        let ghost m1 = self.measure();
        let mut args: Vec<Expr> = Vec::new();
        let ghost mut le: nat = q1;
        loop
            invariant_except_break
                (self.nerr() == n1) ==> g_args(s0, q1) == g_args(s0, self.from()),
                (self.nerr() == n1) ==> (args@.len() == 0 ==> self.from() == q1),
                self.report@ + r_args(f, s0, self.from()).diags =~= r1 + r_args(f, s0, q1).diags,
                r_args(f, s0, self.from()).end == r_args(f, s0, q1).end,
                (self.nerr() == n1) ==> (args@.len() > 0 ==> args_read(args@, s0, q1) == Some(le)
                    && tclass(s0, le) == TokenClass::Comma && self.from() == adv(s0, le)),
            invariant
                self.wf(),
                self.limit() == n,
                self.src() == s0,
                self.fname() == f,
                f == old(self).fname(),
                self.measure() <= m1,
                m1 == old(self).measure(),
                self.from() >= q1,
                q1 == old(self).from(),
                self.nerr() >= n1,
                n1 == old(self).nerr(),
                r1 == old(self).report@,
                (self.nerr() != n1) ==> g_args(s0, q1) is None,
                forall|i: int| 0 <= i < args@.len() ==> expr_within(#[trigger] args@[i], n),
            ensures
                self.wf(),
                self.limit() == n,
                self.src() == s0,
                self.fname() == f,
                self.measure() <= m1,
                self.from() >= q1,
                self.nerr() >= n1,
                (self.nerr() == n1) ==> g_args(s0, q1) == expect(s0, self.from(), TokenClass::RParen),
                (self.nerr() != n1) ==> g_args(s0, q1) is None,
                (self.nerr() == n1) ==> args_read(args@, s0, q1) == Some(self.from()),
                self.report@ =~= r1 + r_args(f, s0, q1).diags,
                self.from() == r_args(f, s0, q1).end,
                forall|i: int| 0 <= i < args@.len() ==> expr_within(#[trigger] args@[i], n),
            decreases self.measure(),
        {
            let ghost pi = self.from();
            let ghost before = args@;
            let ghost ri = self.report@;
            let a = self.parse_expr();
            args.push(a);
            let ghost qi = self.from();
            proof {
                lemma_adv(s0, qi);
                assert(args@.subrange(0, args@.len() - 1) =~= before);
            }
            if matches!(self.cur.kind, TokenKind::Comma) {
                self.bump();
                proof {
                    le = qi;
                    assert(self.report@ + r_args(f, s0, self.from()).diags =~= ri + r_args(f, s0, pi).diags);
                }
            } else {
                assert(self.report@ =~= ri + r_args(f, s0, pi).diags);
                break;
            }
        }
        args
    }

    /// `[effects] block`, what follows a function's signature.
    #[verifier::rlimit(100)]
    fn parse_fn_tail(&mut self) -> (r: (Vec<EffectSpec>, Block))
        requires
            old(self).wf(),
        ensures
            Self::advanced(*old(self), *final(self), true),
            forall|i: int|
                0 <= i < r.0@.len() ==> span_within(#[trigger] r.0@[i].span, old(self).limit()),
            block_within(r.1, old(self).limit()),
            Self::follows(*old(self), *final(self), g_fn_tail(old(self).src(), old(self).from())),
            Self::runs(*old(self), *final(self), r_fn_tail(old(self).fname(), old(self).src(), old(self).from())),
            final(self).nerr() == old(self).nerr() ==> {
                let s = old(self).src();
                let q = old(self).from();
                let has_row = tclass(s, q) == TokenClass::Effects;
                &&& if has_row {
                    effects_reads(r.0@, s, q)
                } else {
                    r.0@.len() == 0
                }
                &&& block_reads(r.1, s, if has_row { end_of(g_effects(s, q)) } else { q })
            },
    {
        let ghost s0 = self.src();
        let ghost at0 = self.from();
        proof {
            lemma_adv(s0, at0);
        }
        let effects = if matches!(self.cur.kind, TokenKind::KwEffects) {
            self.parse_effects_clause()
        } else {
            Vec::new()
        };
        let body = self.parse_block();
        (effects, body)
    }

    /// `= expr ;`, the value of a `let`.
    fn parse_let_value(&mut self) -> (e: Expr)
        requires
            old(self).wf(),
        ensures
            Self::advanced(*old(self), *final(self), false),
            expr_within(e, old(self).limit()),
            Self::follows(*old(self), *final(self), g_let_value(old(self).src(), old(self).from())),
            Self::runs(*old(self), *final(self), r_let_value(old(self).fname(), old(self).src(), old(self).from())),
            final(self).nerr() == old(self).nerr() ==> expr_reads(e, old(self).src(), adv(old(self).src(), old(self).from())),
    {
        let ghost s0 = self.src();
        let ghost at0 = self.from();
        proof {
            lemma_adv(s0, at0);
        }
        self.expect_kind(TokenKind::Eq, "parse-expected-eq", "Expected `=` in let binding.");
        let expr = self.parse_expr();
        self.expect_kind(TokenKind::Semi, "parse-expected-semi", "Expected `;` after let binding.");
        expr
    }

    /// `( expr )`, the condition of an `if`.
    fn parse_cond(&mut self) -> (c: Expr)
        requires
            old(self).wf(),
        ensures
            Self::advanced(*old(self), *final(self), false),
            expr_within(c, old(self).limit()),
            Self::follows(*old(self), *final(self), g_cond(old(self).src(), old(self).from())),
            Self::runs(*old(self), *final(self), r_cond(old(self).fname(), old(self).src(), old(self).from())),
            final(self).nerr() == old(self).nerr() ==> expr_reads(c, old(self).src(), adv(old(self).src(), old(self).from())),
    {
        let ghost s0 = self.src();
        let ghost at0 = self.from();
        proof {
            lemma_adv(s0, at0);
        }
        self.expect_kind(TokenKind::LParen, "parse-expected-lparen", "Expected `(` after if.");
        let cond = self.parse_expr();
        self.expect_kind(TokenKind::RParen, "parse-expected-rparen", "Expected `)` after if condition.");
        cond
    }

    /// `name ( [param] ) -> type`, a function's signature after `fn`.
    #[verifier::rlimit(100)]
    fn parse_sig(&mut self) -> (r: (Ident, Vec<Param>, Type))
        requires
            old(self).wf(),
        ensures
            Self::advanced(*old(self), *final(self), true),
            span_within(r.0.span, old(self).limit()),
            forall|i: int|
                0 <= i < r.1@.len() ==> span_within(#[trigger] r.1@[i].span, old(self).limit())
                    && span_within(r.1@[i].name.span, old(self).limit()) && type_within(
                    r.1@[i].ty,
                    old(self).limit(),
                ),
            type_within(r.2, old(self).limit()),
            Self::follows(*old(self), *final(self), g_sig(old(self).src(), old(self).from())),
            Self::runs(*old(self), *final(self), r_sig(old(self).fname(), old(self).src(), old(self).from())),
            final(self).nerr() == old(self).nerr() ==> {
                let s = old(self).src();
                let q = old(self).from();
                let q2 = adv(s, adv(s, q));
                &&& r.0.name@ == text_of(s, q)
                &&& params_reads(r.1@, s, q2)
                &&& type_reads(r.2, s, adv(s, adv(s, end_of(g_params(s, q2)))))
            },
    {
        let ghost s0 = self.src();
        let ghost at0 = self.from();
        proof {
            lemma_adv(s0, at0);
        }
        let name = self.parse_ident("parse-expected-ident", "Expected function name identifier.");
        self.expect_kind(TokenKind::LParen, "parse-expected-lparen", "Expected `(` after function name.");
        let params = self.parse_params();
        self.expect_kind(TokenKind::RParen, "parse-expected-rparen", "Expected `)` after parameters.");
        self.expect_kind(TokenKind::Arrow, "parse-expected-arrow", "Expected `->` return type.");
        let ret = self.parse_type();
        (name, params, ret)
    }

    fn parse_type(&mut self) -> (t: Type)
        requires
            old(self).wf(),
        ensures
            Self::advanced(*old(self), *final(self), true),
            type_within(t, old(self).limit()),
            Self::follows(*old(self), *final(self), g_type(old(self).src(), old(self).from())),
            final(self).nerr() == old(self).nerr() ==> type_reads(t, old(self).src(), old(self).from()),
            Self::runs(*old(self), *final(self), r_type(old(self).fname(), old(self).src(), old(self).from())),
            !(old(self).cur.kind is KwSecret) && !(old(self).cur.kind is Ident) ==> (t matches Type::Named { name, span }
                && name@ == "_error_"@ && span@ == tok_span(old(self).fname(), old(self).src(), old(self).from())),
        decreases old(self).measure(),
    {
        let sp = self.cur.span.copied();
        match &self.cur.kind {
            TokenKind::KwSecret => {
                self.bump();
                let inner = self.parse_type();
                Type::Secret { inner: Box::new(inner), span: sp }
            },
            TokenKind::Ident(s) => {
                let name = s.clone();
                self.bump();
                if str_is(&name, "Int") {
                    Type::Int { span: sp }
                } else if str_is(&name, "Bool") {
                    Type::Bool { span: sp }
                } else if str_is(&name, "Unit") {
                    Type::Unit { span: sp }
                } else {
                    Type::Named { name, span: sp }
                }
            },
            _ => {
                self.err("parse-expected-type", "Expected type name (Int|Bool|Unit|...).", sp.copied());
                self.bump();
                Type::Named { name: "_error_".to_owned(), span: sp }
            },
        }
    }

    fn parse_ident(&mut self, code: &str, msg: &str) -> (id: Ident)
        requires
            old(self).wf(),
        ensures
            Self::advanced(*old(self), *final(self), true),
            span_within(id.span, old(self).limit()),
            Self::follows(*old(self), *final(self), expect(old(self).src(), old(self).from(), TokenClass::Ident)),
            final(self).nerr() == old(self).nerr() ==> id.name@ == text_of(old(self).src(), old(self).from()),
            Self::runs(*old(self), *final(self), r_ident(old(self).fname(), old(self).src(), old(self).from(), code@, msg@)),
            id.span@ == tok_span(old(self).fname(), old(self).src(), old(self).from()),
            old(self).cur.kind is Ident ==> id.name@ == text_of(old(self).src(), old(self).from()),
            !(old(self).cur.kind is Ident) ==> id.name@ == "_error_"@,
    {
        let sp = self.cur.span.copied();
        match &self.cur.kind {
            TokenKind::Ident(s) => {
                let name = s.clone();
                self.bump();
                Ident { name, span: sp }
            },
            _ => {
                self.err(code, msg, sp.copied());
                self.bump();
                Ident { name: "_error_".to_owned(), span: sp }
            },
        }
    }

    /// `protocol Name { ... }` of `state`, `final state` and `transition`
    /// lines, the cursor on `protocol`.
    #[verifier::rlimit(100)]
    #[verifier::spinoff_prover]
    fn parse_protocol(&mut self) -> (p: ProtocolDecl)
        requires
            old(self).wf(),
            old(self).cur.kind is ProtocolKw,
        ensures
            Self::advanced(*old(self), *final(self), true),
            protocol_within(p, old(self).limit()),
            Self::follows(*old(self), *final(self), g_protocol(old(self).src(), old(self).from())),
            final(self).nerr() == old(self).nerr() ==> protocol_reads(p, old(self).src(), old(self).from()),
            Self::runs(*old(self), *final(self), r_protocol(old(self).fname(), old(self).src(), old(self).from())),
    {
        let ghost n = self.limit();
        let ghost s0 = self.src();
        let ghost at0 = self.from();
        let ghost m0 = self.measure();
        let ghost e0 = self.at_eof();
        proof {
            lemma_adv(s0, at0);
        }
        let proto_span = self.cur.span.copied();
        self.bump();
        let name = self.parse_ident("parse-expected-ident", "Expected protocol name identifier.");
        self.expect_kind(TokenKind::LBrace, "parse-expected-lbrace", "Expected `{` after protocol name.");
        let ghost n0 = old(self).nerr();
        let ghost q2 = self.from();
        let ghost f = self.fname();
        let ghost r1 = self.report@;
        let mut states: Vec<StateDecl> = Vec::new();
        let mut transitions: Vec<TransitionDecl> = Vec::new();
        while !matches!(self.cur.kind, TokenKind::RBrace) && !matches!(self.cur.kind, TokenKind::Eof)
            invariant
                self.wf(),
                self.limit() == n,
                self.src() == s0,
                self.fname() == old(self).fname(),
                self.measure() <= m0,
                !e0 ==> self.measure() < m0,
                !e0 ==> self.from() > at0,
                self.from() >= at0,
                self.nerr() >= n0,
                (self.nerr() == n0) ==> g_protocol(s0, at0) == g_protocol_body(s0, self.from()),
                (self.nerr() != n0) ==> g_protocol(s0, at0) is None,
                (self.nerr() == n0) ==> body_read(states@, transitions@, s0, q2, self.from()),
                (self.nerr() == n0) ==> q2 == adv(s0, adv(s0, adv(s0, at0))),
                f == self.fname(),
                self.report@ + r_body(f, s0, self.from()).diags =~= r1 + r_body(f, s0, q2).diags,
                r_body(f, s0, self.from()).end == r_body(f, s0, q2).end,
                forall|i: int|
                    0 <= i < states@.len() ==> span_within(#[trigger] states@[i].span, n)
                        && span_within(states@[i].name.span, n),
                forall|i: int|
                    0 <= i < transitions@.len() ==> span_within(#[trigger] transitions@[i].span, n)
                        && span_within(transitions@[i].from.span, n) && span_within(
                        transitions@[i].to.span,
                        n,
                    ),
            decreases self.measure(),
        {
            let ghost pi = self.from();
            proof {
                lemma_adv(s0, pi);
            }
            let ghost sts0 = states@;
            let ghost trs0 = transitions@;
            let ghost ri = self.report@;
            match self.cur.kind {
                TokenKind::StateKw | TokenKind::FinalKw => {
                    let st = self.parse_protocol_state();
                    proof {
                        if self.nerr() == n0 {
                            lemma_body_push_state(sts0, trs0, s0, q2, pi, st, self.from());
                        }
                    }
                    states.push(st);
                },
                TokenKind::TransitionKw => {
                    let ghost tb = transitions@;
                    let tr = self.parse_protocol_transition();
                    proof {
                        if self.nerr() == n0 {
                            lemma_body_push_transition(sts0, trs0, s0, q2, pi, tr, self.from());
                        }
                    }
                    transitions.push(tr);
                    assert(forall|i: int|
                        0 <= i < transitions@.len() ==> span_within(#[trigger] transitions@[i].span, n)
                            && span_within(transitions@[i].from.span, n) && span_within(
                            transitions@[i].to.span,
                            n,
                        )) by {
                        assert(forall|i: int| 0 <= i < tb.len() ==> transitions@[i] == tb[i]);
                    }
                },
                _ => {
                    let sp = self.cur.span.copied();
                    self.err(
                        "parse-unexpected-token",
                        "Unexpected token in protocol body (expected `state` or `transition`).",
                        sp,
                    );
                    self.bump();
                },
            }
            assert(self.report@ + r_body(f, s0, self.from()).diags =~= ri + r_body(f, s0, pi).diags);
        }
        let ghost e = self.from();
        proof {
            lemma_adv(s0, e);
        }
        assert(self.report@ =~= r1 + r_body(f, s0, q2).diags);
        self.expect_kind(TokenKind::RBrace, "parse-expected-rbrace", "Expected `}` to end protocol body.");
        let p = ProtocolDecl { name, states, transitions, span: proto_span };
        assert(self.report@ =~= old(self).report@ + r_protocol(f, s0, at0).diags);
        proof {
            if self.nerr() == n0 {
                assert(body_read(p.states@, p.transitions@, s0, q2, e));
                assert(tclass(s0, e) == TokenClass::RBrace);
                assert(q2 == adv(s0, adv(s0, adv(s0, at0))));
                assert(p.name.name@ == text_of(s0, adv(s0, at0)));
                assert(protocol_reads(p, s0, at0));
            }
        }
        assert(protocol_within(p, n));
        p
    }

    /// `state Name;` or `final state Name;`.
    fn parse_protocol_state(&mut self) -> (st: StateDecl)
        requires
            old(self).wf(),
            old(self).cur.kind is StateKw || old(self).cur.kind is FinalKw,
        ensures
            Self::advanced(*old(self), *final(self), true),
            span_within(st.span, old(self).limit()),
            span_within(st.name.span, old(self).limit()),
            Self::follows(*old(self), *final(self), g_state(old(self).src(), old(self).from())),
            Self::runs(*old(self), *final(self), r_state(old(self).fname(), old(self).src(), old(self).from())),
            final(self).nerr() == old(self).nerr() ==> state_reads(st, old(self).src(), old(self).from()),
    {
        let ghost s0 = self.src();
        let ghost at0 = self.from();
        proof {
            lemma_adv(s0, at0);
        }
        let start_span = self.cur.span.copied();
        let mut is_final = false;
        if matches!(self.cur.kind, TokenKind::FinalKw) {
            is_final = true;
            self.bump();
        }
        self.expect_kind(
            TokenKind::StateKw,
            "parse-expected-state",
            "Expected `state` in protocol body (or `final state`).",
        );
        let name = self.parse_ident("parse-expected-ident", "Expected state name identifier.");
        self.expect_kind(TokenKind::Semi, "parse-expected-semi", "Expected `;` after state declaration.");
        StateDecl { name, is_final, span: start_span }
    }

    /// `transition From -> To;`, the cursor on `transition`.
    fn parse_protocol_transition(&mut self) -> (tr: TransitionDecl)
        requires
            old(self).wf(),
            old(self).cur.kind is TransitionKw,
        ensures
            Self::advanced(*old(self), *final(self), true),
            span_within(tr.span, old(self).limit()),
            span_within(tr.from.span, old(self).limit()),
            span_within(tr.to.span, old(self).limit()),
            Self::follows(*old(self), *final(self), g_transition(old(self).src(), old(self).from())),
            Self::runs(*old(self), *final(self), r_transition(old(self).fname(), old(self).src(), old(self).from())),
            final(self).nerr() == old(self).nerr() ==> transition_reads(tr, old(self).src(), old(self).from()),
    {
        let ghost s0 = self.src();
        let ghost at0 = self.from();
        proof {
            lemma_adv(s0, at0);
        }
        let tr_span = self.cur.span.copied();
        self.bump();
        let from = self.parse_ident(
            "parse-expected-ident",
            "Expected source state identifier after `transition`.",
        );
        self.expect_kind(TokenKind::Arrow, "parse-expected-arrow", "Expected `->` in transition declaration.");
        let to = self.parse_ident(
            "parse-expected-ident",
            "Expected destination state identifier after `->`.",
        );
        self.expect_kind(TokenKind::Semi, "parse-expected-semi", "Expected `;` after transition declaration.");
        TransitionDecl { from, to, span: tr_span }
    }
}

} // verus!
