//! The scanner: text to tokens with line/column spans. It never fails; what
//! it cannot read becomes a one-character identifier token.
use vstd::prelude::*;

use vstd::std_specs::iter::IteratorSpec;

use crate::diagnostics::{Span, SpanV};

verus! {

#[derive(Debug, Clone, PartialEq, Eq)]
pub enum TokenKind {
    ProtocolKw,
    StateKw,
    TransitionKw,
    FinalKw,
    Ident(String),
    IntLit(i64),
    StrLit(String),
    KwFn,
    KwLet,
    KwReturn,
    KwSecret,
    KwIf,
    KwElse,
    KwEffects,
    LParen,
    RParen,
    LBrace,
    RBrace,
    Colon,
    Semi,
    Comma,
    Eq,
    Arrow,
    Eof,
}

#[derive(Debug, Clone, PartialEq, Eq)]
pub struct Token {
    pub kind: TokenKind,
    pub span: Span,
}

/// Unicode `White_Space`, the set that `char::is_whitespace` tests.
pub open spec fn is_ws(c: char) -> bool {
    ('\u{9}' <= c && c <= '\u{d}') || c == ' ' || c == '\u{85}' || c == '\u{a0}'
        || c == '\u{1680}' || ('\u{2000}' <= c && c <= '\u{200a}') || c == '\u{2028}'
        || c == '\u{2029}' || c == '\u{202f}' || c == '\u{205f}' || c == '\u{3000}'
}

pub open spec fn is_digit(c: char) -> bool {
    '0' <= c && c <= '9'
}

pub open spec fn is_alpha(c: char) -> bool {
    ('a' <= c && c <= 'z') || ('A' <= c && c <= 'Z')
}

pub open spec fn is_ident_start(c: char) -> bool {
    is_alpha(c) || c == '_'
}

pub open spec fn is_ident_char(c: char) -> bool {
    is_alpha(c) || is_digit(c) || c == '_'
}

/// The first position at or after `i` that holds no whitespace.
pub open spec fn skip_ws(s: Seq<char>, i: nat) -> nat
    decreases s.len() - i,
{
    if i < s.len() && is_ws(s[i as int]) {
        skip_ws(s, i + 1)
    } else {
        i
    }
}

/// The end of the run of digits that starts at `i`.
pub open spec fn digits_end(s: Seq<char>, i: nat) -> nat
    decreases s.len() - i,
{
    if i < s.len() && is_digit(s[i as int]) {
        digits_end(s, i + 1)
    } else {
        i
    }
}

/// The end of the run of identifier characters that starts at `i`.
pub open spec fn ident_end(s: Seq<char>, i: nat) -> nat
    decreases s.len() - i,
{
    if i < s.len() && is_ident_char(s[i as int]) {
        ident_end(s, i + 1)
    } else {
        i
    }
}

/// The first quote or newline at or after `i`, or the end of the text.
pub open spec fn string_stop(s: Seq<char>, i: nat) -> nat
    decreases s.len() - i,
{
    if i < s.len() && s[i as int] != '"' && s[i as int] != '\n' {
        string_stop(s, i + 1)
    } else {
        i
    }
}

/// Whether the string literal opened at `i` is closed on its own line.
pub open spec fn string_closed(s: Seq<char>, i: nat) -> bool {
    string_stop(s, i + 1) < s.len() && s[string_stop(s, i + 1) as int] == '"'
}

/// Where the token that starts at `i` (past any whitespace) ends.
pub open spec fn token_end(s: Seq<char>, i: nat) -> nat {
    if i >= s.len() {
        i
    } else if s[i as int] == '-' {
        if i + 1 < s.len() && s[i + 1int] == '>' {
            i + 2
        } else {
            i + 1
        }
    } else if s[i as int] == '"' {
        if string_closed(s, i) {
            string_stop(s, i + 1) + 1
        } else {
            string_stop(s, i + 1)
        }
    } else if is_digit(s[i as int]) {
        digits_end(s, i)
    } else if is_ident_start(s[i as int]) {
        ident_end(s, i)
    } else {
        i + 1
    }
}

/// The decimal value of a run of digits.
pub open spec fn digits_value(w: Seq<char>) -> nat
    decreases w.len(),
{
    if w.len() == 0 {
        0
    } else {
        10 * digits_value(w.drop_last()) + ((w.last() as nat) - ('0' as nat)) as nat
    }
}

/// The value of an integer literal: its decimal value where it fits in
/// `i64`, zero where it does not.
pub open spec fn int_value(w: Seq<char>) -> int {
    if digits_value(w) <= i64::MAX {
        digits_value(w) as int
    } else {
        0
    }
}

/// The token that a word of identifier characters reads as.
pub open spec fn word_kind_ok(k: TokenKind, w: Seq<char>) -> bool {
    if w == "fn"@ {
        k == TokenKind::KwFn
    } else if w == "let"@ {
        k == TokenKind::KwLet
    } else if w == "return"@ {
        k == TokenKind::KwReturn
    } else if w == "secret"@ {
        k == TokenKind::KwSecret
    } else if w == "if"@ {
        k == TokenKind::KwIf
    } else if w == "else"@ {
        k == TokenKind::KwElse
    } else if w == "effects"@ {
        k == TokenKind::KwEffects
    } else if w == "protocol"@ {
        k == TokenKind::ProtocolKw
    } else if w == "state"@ {
        k == TokenKind::StateKw
    } else if w == "transition"@ {
        k == TokenKind::TransitionKw
    } else if w == "final"@ {
        k == TokenKind::FinalKw
    } else {
        k is Ident && k->Ident_0@ == w
    }
}

/// Whether `k` is the kind of the token that starts at `i` (past any
/// whitespace).
pub open spec fn token_kind_ok(k: TokenKind, s: Seq<char>, i: nat) -> bool {
    if i >= s.len() {
        k == TokenKind::Eof
    } else {
        let c = s[i as int];
        if c == '(' {
            k == TokenKind::LParen
        } else if c == ')' {
            k == TokenKind::RParen
        } else if c == '{' {
            k == TokenKind::LBrace
        } else if c == '}' {
            k == TokenKind::RBrace
        } else if c == ':' {
            k == TokenKind::Colon
        } else if c == ';' {
            k == TokenKind::Semi
        } else if c == ',' {
            k == TokenKind::Comma
        } else if c == '=' {
            k == TokenKind::Eq
        } else if c == '-' {
            if i + 1 < s.len() && s[i + 1int] == '>' {
                k == TokenKind::Arrow
            } else {
                k is Ident && k->Ident_0@ == seq!['-']
            }
        } else if c == '"' {
            if string_closed(s, i) {
                k is StrLit && k->StrLit_0@ == s.subrange(i + 1int, string_stop(s, i + 1) as int)
            } else {
                k is Ident && k->Ident_0@ == seq!['"']
            }
        } else if is_digit(c) {
            k == TokenKind::IntLit(int_value(s.subrange(i as int, digits_end(s, i) as int)) as i64)
        } else if is_ident_start(c) {
            word_kind_ok(k, s.subrange(i as int, ident_end(s, i) as int))
        } else {
            k is Ident && k->Ident_0@ == seq![c]
        }
    }
}

/// Line and column after reading the first `i` characters: a newline
/// starts the next line at column 1, any other character moves one column.
pub open spec fn line_col(s: Seq<char>, i: nat) -> (nat, nat)
    decreases i,
{
    if i == 0 {
        (1, 1)
    } else {
        let p = line_col(s, (i - 1) as nat);
        if s[i - 1] == '\n' {
            (p.0 + 1, 1)
        } else {
            (p.0, p.1 + 1)
        }
    }
}

/// The number of newlines among the first `i` characters.
pub open spec fn newlines(s: Seq<char>, i: nat) -> nat
    decreases i,
{
    if i == 0 {
        0
    } else if s[i - 1] == '\n' {
        newlines(s, (i - 1) as nat) + 1
    } else {
        newlines(s, (i - 1) as nat)
    }
}

/// The number of lines of a text: one more than its newlines.
pub open spec fn line_count(s: Seq<char>) -> nat {
    newlines(s, s.len()) + 1
}

/// The span from position `i` to position `j` of the text.
pub open spec fn span_between(file: Seq<char>, s: Seq<char>, i: nat, j: nat) -> SpanV {
    SpanV {
        file,
        start_line: line_col(s, i).0,
        start_col: line_col(s, i).1,
        end_line: line_col(s, j).0,
        end_col: line_col(s, j).1,
    }
}

/// Where the reading of the `k`-th token from `start` starts: `start` for
/// the first, the end of the one before for the others.
pub open spec fn token_pos(s: Seq<char>, start: nat, k: nat) -> nat
    decreases k,
{
    if k == 0 {
        start
    } else {
        let p = token_pos(s, start, (k - 1) as nat);
        token_end(s, skip_ws(s, p))
    }
}

/// A span that starts no later than it ends.
pub open spec fn span_ordered(sp: SpanV) -> bool {
    sp.start_line < sp.end_line || (sp.start_line == sp.end_line && sp.start_col <= sp.end_col)
}

pub proof fn lemma_line_col_small(s: Seq<char>, i: nat)
    ensures
        line_col(s, i).0 + line_col(s, i).1 <= i + 2,
        line_col(s, i).0 >= 1,
        line_col(s, i).1 >= 1,
        line_col(s, i).0 == newlines(s, i) + 1,
    decreases i,
{
    if i > 0 {
        lemma_line_col_small(s, (i - 1) as nat);
    }
}

/// Reading further never moves the position backwards.
pub proof fn lemma_line_col_monotonic(s: Seq<char>, i: nat, j: nat)
    requires
        i <= j,
    ensures
        span_ordered(span_between(Seq::empty(), s, i, j)),
    decreases j - i,
{
    if i < j {
        lemma_line_col_monotonic(s, i, (j - 1) as nat);
    }
}

pub proof fn lemma_newlines_monotonic(s: Seq<char>, i: nat, j: nat)
    requires
        i <= j,
    ensures
        newlines(s, i) <= newlines(s, j),
    decreases j - i,
{
    if i < j {
        lemma_newlines_monotonic(s, i, (j - 1) as nat);
    }
}

/// Every position of a text lies on one of its lines.
pub proof fn lemma_line_in_text(s: Seq<char>, i: nat)
    requires
        i <= s.len(),
    ensures
        1 <= line_col(s, i).0 <= line_count(s),
{
    lemma_line_col_small(s, i);
    lemma_newlines_monotonic(s, i, s.len());
}

proof fn lemma_skip_ws_idem(s: Seq<char>, i: nat)
    ensures
        skip_ws(s, skip_ws(s, i)) == skip_ws(s, i),
    decreases s.len() - i,
{
    if i < s.len() && is_ws(s[i as int]) {
        lemma_skip_ws_idem(s, i + 1);
    }
}

pub proof fn lemma_skip_ws_bounds(s: Seq<char>, i: nat)
    requires
        i <= s.len(),
    ensures
        i <= skip_ws(s, i) <= s.len(),
    decreases s.len() - i,
{
    if i < s.len() && is_ws(s[i as int]) {
        lemma_skip_ws_bounds(s, i + 1);
    }
}

proof fn lemma_runs_bounds(s: Seq<char>, i: nat)
    requires
        i <= s.len(),
    ensures
        i <= digits_end(s, i) <= s.len(),
        i <= ident_end(s, i) <= s.len(),
        i <= string_stop(s, i) <= s.len(),
    decreases s.len() - i,
{
    if i < s.len() {
        lemma_runs_bounds(s, i + 1);
    }
}

/// Every token ends within the text, and all but the end marker take at
/// least one character.
pub proof fn lemma_token_end_bounds(s: Seq<char>, i: nat)
    requires
        i <= s.len(),
    ensures
        i <= token_end(s, i) <= s.len(),
        i < s.len() ==> i < token_end(s, i),
{
    lemma_runs_bounds(s, i);
    if i + 1 <= s.len() {
        lemma_runs_bounds(s, i + 1);
    }
}

/// Relies on `String::push`: appends one character.
#[verifier::external_body]
pub(crate) fn push_char(s: &mut String, c: char)
    ensures
        final(s)@ == old(s)@.push(c),
{
    s.push(c)
}

/// The characters of a string, in order.
pub(crate) fn chars_of(s: &str) -> (r: Vec<char>)
    ensures
        r@ == s@,
{
    broadcast use vstd::string::next_postcondition;

    let mut out: Vec<char> = Vec::new();
    let mut it = s.chars();
    loop
        invariant
            out@ + it.remaining() == s@,
            it.obeys_prophetic_iter_laws(),
            it.decrease() is Some,
        decreases it.decrease()->0,
    {
        match it.next() {
            Some(c) => {
                out.push(c);
            },
            None => {
                assert(it.remaining().len() == 0);
                assert(out@ =~= s@);
                return out;
            },
        }
    }
}

/// A scanner over one source text.
#[derive(Debug, Clone)]
pub struct Lexer {
    file: String,
    src: Vec<char>,
    i: usize,
    line: u32,
    col: u32,
}

impl Lexer {
    /// The text being read.
    pub closed spec fn text(&self) -> Seq<char> {
        self.src@
    }

    /// The file name that spans carry.
    pub closed spec fn file_name(&self) -> Seq<char> {
        self.file@
    }

    /// How many characters have been read.
    pub closed spec fn pos(&self) -> nat {
        self.i as nat
    }

    pub closed spec fn wf(&self) -> bool {
        &&& self.i <= self.src@.len()
        &&& self.src@.len() + 2 <= u32::MAX
        &&& self.line as nat == line_col(self.src@, self.i as nat).0
        &&& self.col as nat == line_col(self.src@, self.i as nat).1
    }

    pub fn new(file: &str, src: &str) -> (r: Lexer)
        requires
            src@.len() + 2 <= u32::MAX,
        ensures
            r.wf(),
            r.text() == src@,
            r.file_name() == file@,
            r.pos() == 0,
    {
        Lexer { file: file.to_owned(), src: chars_of(src), i: 0, line: 1, col: 1 }
    }

    /// All tokens from the cursor on, the end marker last and only there:
    /// the `k`-th is the token that the text holds at `token_pos(.., k)`.
    pub fn lex_all(self) -> (r: Vec<Token>)
        requires
            self.wf(),
        ensures
            r@.len() >= 1,
            r@.last().kind == TokenKind::Eof,
            forall|k: int| 0 <= k < r@.len() - 1 ==> !(#[trigger] r@[k].kind is Eof),
            forall|k: int| 0 <= k < r@.len() ==> span_ordered((#[trigger] r@[k]).span@),
            forall|k: int|
                0 <= k < r@.len() ==> 1 <= (#[trigger] r@[k]).span.start_line <= r@[k].span.end_line
                    <= line_count(self.text()),
            forall|k: int|
                0 <= k < r@.len() ==> {
                    let s = self.text();
                    let st = skip_ws(s, token_pos(s, self.pos(), k as nat));
                    &&& token_kind_ok((#[trigger] r@[k]).kind, s, st)
                    &&& r@[k].span@ == span_between(self.file_name(), s, st, token_end(s, st))
                },
    {
        let ghost s = self.text();
        let mut lx = self;
        let mut out: Vec<Token> = Vec::new();
        loop
            invariant
                lx.wf(),
                lx.text() == self.text(),
                lx.file_name() == self.file_name(),
                lx.pos() == token_pos(s, self.pos(), out@.len() as nat),
                s == self.text(),
                forall|k: int|
                    0 <= k < out@.len() ==> {
                        let st = skip_ws(s, token_pos(s, self.pos(), k as nat));
                        &&& token_kind_ok((#[trigger] out@[k]).kind, s, st)
                        &&& out@[k].span@ == span_between(self.file_name(), s, st, token_end(s, st))
                    },
                forall|k: int| 0 <= k < out@.len() ==> !(#[trigger] out@[k].kind is Eof),
                forall|k: int| 0 <= k < out@.len() ==> span_ordered((#[trigger] out@[k]).span@),
                forall|k: int|
                    0 <= k < out@.len() ==> 1 <= (#[trigger] out@[k]).span.start_line
                        <= out@[k].span.end_line <= line_count(self.text()),
            decreases lx.text().len() - lx.pos(),
        {
            let t = lx.next_token();
            let is_eof = matches!(t.kind, TokenKind::Eof);
            out.push(t);
            if is_eof {
                return out;
            }
        }
    }

    fn peek(&self) -> (r: Option<char>)
        requires
            self.wf(),
        ensures
            r == (if self.i < self.src@.len() {
                Some(self.src@[self.i as int])
            } else {
                None::<char>
            }),
    {
        if self.i < self.src.len() {
            Some(self.src[self.i])
        } else {
            None
        }
    }

    fn bump(&mut self)
        requires
            old(self).wf(),
            old(self).i < old(self).src@.len(),
        ensures
            final(self).wf(),
            final(self).i == old(self).i + 1,
            final(self).src@ == old(self).src@,
            final(self).file == old(self).file,
    {
        proof {
            lemma_line_col_small(self.src@, (self.i + 1) as nat);
        }
        let ch = self.src[self.i];
        self.i = self.i + 1;
        if ch == '\n' {
            self.line = self.line + 1;
            self.col = 1;
        } else {
            self.col = self.col + 1;
        }
    }

    fn mk_span(&self, sl: u32, sc: u32, el: u32, ec: u32) -> (r: Span)
        ensures
            r@ == (SpanV {
                file: self.file@,
                start_line: sl as nat,
                start_col: sc as nat,
                end_line: el as nat,
                end_col: ec as nat,
            }),
    {
        Span { file: self.file.clone(), start_line: sl, start_col: sc, end_line: el, end_col: ec }
    }

    fn skip_ws(&mut self)
        requires
            old(self).wf(),
        ensures
            final(self).wf(),
            final(self).i == skip_ws(old(self).src@, old(self).i as nat),
            final(self).src@ == old(self).src@,
            final(self).file == old(self).file,
    {
        loop
            invariant
                self.wf(),
                self.src@ == old(self).src@,
                self.file == old(self).file,
                skip_ws(self.src@, self.i as nat) == skip_ws(old(self).src@, old(self).i as nat),
            decreases self.src@.len() - self.i,
        {
            match self.peek() {
                Some(ch) => {
                    if is_whitespace(ch) {
                        self.bump();
                    } else {
                        return;
                    }
                },
                None => {
                    return;
                },
            }
        }
    }

    /// Reads a string literal whose opening quote is at the cursor.
    fn lex_string(&mut self, sl: u32, sc: u32) -> (t: Token)
        requires
            old(self).wf(),
            old(self).i < old(self).src@.len(),
            old(self).src@[old(self).i as int] == '"',
        ensures
            final(self).wf(),
            final(self).src@ == old(self).src@,
            final(self).file == old(self).file,
            final(self).i == token_end(old(self).src@, old(self).i as nat),
            token_kind_ok(t.kind, old(self).src@, old(self).i as nat),
            t.span@ == (SpanV {
                file: old(self).file@,
                start_line: sl as nat,
                start_col: sc as nat,
                end_line: final(self).line as nat,
                end_col: final(self).col as nat,
            }),
    {
        let ghost s = self.src@;
        let ghost i0 = self.i as nat;
        self.bump();
        let mut text = String::new();
        while self.i < self.src.len() && self.src[self.i] != '"' && self.src[self.i] != '\n'
            invariant
                self.wf(),
                self.src@ == s,
                self.file == old(self).file,
                i0 + 1 <= self.i <= s.len(),
                string_stop(s, self.i as nat) == string_stop(s, i0 + 1),
                text@ == s.subrange(i0 + 1int, self.i as int),
            decreases s.len() - self.i,
        {
            push_char(&mut text, self.src[self.i]);
            self.bump();
            assert(text@ =~= s.subrange(i0 + 1int, self.i as int));
        }
        if self.i < self.src.len() && self.src[self.i] == '"' {
            self.bump();
            let sp = self.mk_span(sl, sc, self.line, self.col);
            Token { kind: TokenKind::StrLit(text), span: sp }
        } else {
            let mut q = String::new();
            push_char(&mut q, '"');
            let sp = self.mk_span(sl, sc, self.line, self.col);
            Token { kind: TokenKind::Ident(q), span: sp }
        }
    }

    /// Reads one token, after any whitespace.
    pub fn next_token(&mut self) -> (t: Token)
        requires
            old(self).wf(),
        ensures
            final(self).wf(),
            final(self).text() == old(self).text(),
            final(self).file_name() == old(self).file_name(),
            ({
                let s = old(self).text();
                let st = skip_ws(s, old(self).pos());
                &&& final(self).pos() == token_end(s, st)
                &&& token_kind_ok(t.kind, s, st)
                &&& t.span@ == span_between(old(self).file_name(), s, st, token_end(s, st))
                &&& (t.kind is Eof) == (st == s.len())
            }),
            old(self).pos() <= final(self).pos() <= final(self).text().len(),
            !(t.kind is Eof) ==> old(self).pos() < final(self).pos(),
            span_ordered(t.span@),
            1 <= t.span.start_line <= t.span.end_line <= line_count(final(self).text()),
            t.span@.file == old(self).file_name(),
    {
        self.skip_ws();
        let ghost s = self.src@;
        let ghost st = self.i as nat;
        proof {
            lemma_skip_ws_bounds(s, old(self).i as nat);
            lemma_skip_ws_idem(s, old(self).i as nat);
            lemma_token_end_bounds(s, st);
            lemma_runs_bounds(s, st);
            lemma_line_in_text(s, st);
            lemma_line_in_text(s, token_end(s, st));
            lemma_line_col_monotonic(s, st, token_end(s, st));
        }
        let sl = self.line;
        let sc = self.col;
        let t = self.scan_token(sl, sc);
        t
    }

    /// Reads the token that starts at the cursor, which is past any
    /// whitespace; `sl` and `sc` are the cursor's line and column.
    fn scan_token(&mut self, sl: u32, sc: u32) -> (t: Token)
        requires
            old(self).wf(),
            skip_ws(old(self).src@, old(self).i as nat) == old(self).i,
            sl as nat == line_col(old(self).src@, old(self).i as nat).0,
            sc as nat == line_col(old(self).src@, old(self).i as nat).1,
        ensures
            final(self).wf(),
            final(self).src@ == old(self).src@,
            final(self).file == old(self).file,
            final(self).i == token_end(old(self).src@, old(self).i as nat),
            token_kind_ok(t.kind, old(self).src@, old(self).i as nat),
            t.span@ == span_between(
                old(self).file@,
                old(self).src@,
                old(self).i as nat,
                final(self).i as nat,
            ),
    {
        let ghost s = self.src@;
        let ghost st = self.i as nat;
        let ch = match self.peek() {
            Some(c) => c,
            None => {
                let sp = self.mk_span(sl, sc, sl, sc);
                return Token { kind: TokenKind::Eof, span: sp };
            },
        };
        let simple = if ch == '(' {
            Some(TokenKind::LParen)
        } else if ch == ')' {
            Some(TokenKind::RParen)
        } else if ch == '{' {
            Some(TokenKind::LBrace)
        } else if ch == '}' {
            Some(TokenKind::RBrace)
        } else if ch == ':' {
            Some(TokenKind::Colon)
        } else if ch == ';' {
            Some(TokenKind::Semi)
        } else if ch == ',' {
            Some(TokenKind::Comma)
        } else if ch == '=' {
            Some(TokenKind::Eq)
        } else {
            None
        };
        if let Some(kind) = simple {
            self.bump();
            let sp = self.mk_span(sl, sc, self.line, self.col);
            return Token { kind, span: sp };
        }
        if ch == '"' {
            return self.lex_string(sl, sc);
        }
        if ch == '-' {
            self.bump();
            if self.peek() == Some('>') {
                self.bump();
                let sp = self.mk_span(sl, sc, self.line, self.col);
                return Token { kind: TokenKind::Arrow, span: sp };
            }
            let mut m = String::new();
            push_char(&mut m, '-');
            let sp = self.mk_span(sl, sc, self.line, self.col);
            return Token { kind: TokenKind::Ident(m), span: sp };
        }
        if '0' <= ch && ch <= '9' {
            let v = self.lex_int();
            let sp = self.mk_span(sl, sc, self.line, self.col);
            return Token { kind: TokenKind::IntLit(v), span: sp };
        }
        if ('a' <= ch && ch <= 'z') || ('A' <= ch && ch <= 'Z') || ch == '_' {
            let kind = self.lex_word();
            let sp = self.mk_span(sl, sc, self.line, self.col);
            return Token { kind, span: sp };
        }
        self.bump();
        let mut m = String::new();
        push_char(&mut m, ch);
        assert(m@ =~= seq![ch]);
        let sp = self.mk_span(sl, sc, self.line, self.col);
        Token { kind: TokenKind::Ident(m), span: sp }
    }

    /// Reads a run of digits as a signed 64-bit value, zero where it does
    /// not fit.
    fn lex_int(&mut self) -> (v: i64)
        requires
            old(self).wf(),
            old(self).i < old(self).src@.len(),
            is_digit(old(self).src@[old(self).i as int]),
        ensures
            final(self).wf(),
            final(self).src@ == old(self).src@,
            final(self).file == old(self).file,
            final(self).i == digits_end(old(self).src@, old(self).i as nat),
            v as int == int_value(
                old(self).src@.subrange(old(self).i as int, final(self).i as int),
            ),
    {
        let ghost s = self.src@;
        let ghost i0 = self.i as int;
        let mut acc: u64 = 0;
        let mut overflow = false;
        while self.i < self.src.len() && '0' <= self.src[self.i] && self.src[self.i] <= '9'
            invariant
                self.wf(),
                self.src@ == s,
                self.file == old(self).file,
                0 <= i0 <= self.i <= s.len(),
                digits_end(s, self.i as nat) == digits_end(s, i0 as nat),
                !overflow ==> acc as nat == digits_value(s.subrange(i0, self.i as int)),
                !overflow ==> acc <= i64::MAX,
                overflow ==> digits_value(s.subrange(i0, self.i as int)) > i64::MAX,
            decreases s.len() - self.i,
        {
            let c = self.src[self.i];
            let d = (c as u32 - '0' as u32) as u64;
            let ghost prev = s.subrange(i0, self.i as int);
            let ghost next = s.subrange(i0, self.i + 1);
            assert(self.i < s.len());
            assert(next.drop_last() =~= prev);
            assert(next.last() == c);
            assert(digits_value(next) == 10 * digits_value(prev) + d);
            if !overflow {
                if acc <= (9223372036854775807u64 - d) / 10 {
                    assert(acc * 10 + d <= 9223372036854775807u64) by (nonlinear_arith)
                        requires
                            acc <= (9223372036854775807u64 - d) / 10,
                            d <= 9,
                    ;
                    acc = acc * 10 + d;
                } else {
                    assert(acc * 10 + d > 9223372036854775807u64) by (nonlinear_arith)
                        requires
                            acc > (9223372036854775807u64 - d) / 10,
                            d <= 9,
                    ;
                    overflow = true;
                }
            }
            self.bump();
        }
        if overflow {
            0
        } else {
            acc as i64
        }
    }

    /// Reads a word of identifier characters: a keyword or an identifier.
    fn lex_word(&mut self) -> (k: TokenKind)
        requires
            old(self).wf(),
            old(self).i < old(self).src@.len(),
            is_ident_start(old(self).src@[old(self).i as int]),
        ensures
            final(self).wf(),
            final(self).src@ == old(self).src@,
            final(self).file == old(self).file,
            final(self).i == ident_end(old(self).src@, old(self).i as nat),
            word_kind_ok(k, old(self).src@.subrange(old(self).i as int, final(self).i as int)),
    {
        let ghost s = self.src@;
        let ghost i0 = self.i as int;
        let mut w = String::new();
        while self.i < self.src.len() && ident_char(self.src[self.i])
            invariant
                self.wf(),
                self.src@ == s,
                self.file == old(self).file,
                0 <= i0 <= self.i <= s.len(),
                ident_end(s, self.i as nat) == ident_end(s, i0 as nat),
                w@ == s.subrange(i0, self.i as int),
            decreases s.len() - self.i,
        {
            push_char(&mut w, self.src[self.i]);
            self.bump();
            assert(w@ =~= s.subrange(i0, self.i as int));
        }
        keyword_or_ident(w)
    }
}

fn is_whitespace(c: char) -> (r: bool)
    ensures
        r == is_ws(c),
{
    ('\u{9}' <= c && c <= '\u{d}') || c == ' ' || c == '\u{85}' || c == '\u{a0}' || c == '\u{1680}'
        || ('\u{2000}' <= c && c <= '\u{200a}') || c == '\u{2028}' || c == '\u{2029}' || c
        == '\u{202f}' || c == '\u{205f}' || c == '\u{3000}'
}

fn ident_char(c: char) -> (r: bool)
    ensures
        r == is_ident_char(c),
{
    ('a' <= c && c <= 'z') || ('A' <= c && c <= 'Z') || ('0' <= c && c <= '9') || c == '_'
}

/// Whether a string holds exactly the characters of a literal.
pub(crate) fn str_is(w: &String, lit: &str) -> (r: bool)
    ensures
        r == (w@ == lit@),
{
    let n = lit.unicode_len();
    let m = w.as_str().unicode_len();
    if n != m {
        return false;
    }
    let mut k: usize = 0;
    while k < n
        invariant
            n == lit@.len(),
            m == w@.len(),
            n == m,
            k <= n,
            forall|j: int| 0 <= j < k ==> w@[j] == lit@[j],
        decreases n - k,
    {
        if w.as_str().get_char(k) != lit.get_char(k) {
            return false;
        }
        k += 1;
    }
    assert(w@ =~= lit@);
    true
}

fn keyword_or_ident(w: String) -> (k: TokenKind)
    ensures
        word_kind_ok(k, w@),
{
    if str_is(&w, "fn") {
        TokenKind::KwFn
    } else if str_is(&w, "let") {
        TokenKind::KwLet
    } else if str_is(&w, "return") {
        TokenKind::KwReturn
    } else if str_is(&w, "secret") {
        TokenKind::KwSecret
    } else if str_is(&w, "if") {
        TokenKind::KwIf
    } else if str_is(&w, "else") {
        TokenKind::KwElse
    } else if str_is(&w, "effects") {
        TokenKind::KwEffects
    } else if str_is(&w, "protocol") {
        TokenKind::ProtocolKw
    } else if str_is(&w, "state") {
        TokenKind::StateKw
    } else if str_is(&w, "transition") {
        TokenKind::TransitionKw
    } else if str_is(&w, "final") {
        TokenKind::FinalKw
    } else {
        TokenKind::Ident(w)
    }
}

} // verus!
