//! The checker: main signature, protocol well-formedness, and per-function
//! typing with secret linearity and effect discipline.
//!
//! What the checker reports is stated by the spec functions of this module;
//! each executable pass is proved to emit exactly that.
use vstd::prelude::*;

use crate::ast::{Effect, Expr, FnDecl, Program, ProtocolDecl, Stmt, Type};
use crate::diagnostics::{
    error_fix_v, error_v, has_error, DiagV, Diagnostic, DiagnosticReport, Severity, SpanV,
};
use crate::lexer::str_is;

verus! {

/// A type as the checker sees it; secrecy is tracked beside it.
#[derive(Debug, Clone, Copy, PartialEq, Eq, Structural)]
pub enum Ty {
    Int,
    Bool,
    Unit,
    Unknown,
}

/// What the checker knows of a bound variable.
#[derive(Debug, Clone, Copy, PartialEq, Eq, Structural)]
pub struct VarInfo {
    pub ty: Ty,
    pub is_secret: bool,
    pub moved: bool,
}

/// A variable binding of a function's environment.
#[derive(Debug)]
pub struct Binding {
    pub name: String,
    pub info: VarInfo,
}

/// The environment as the spec sees it: names with what is known of them,
/// the latest binding of a name last.
pub type EnvV = Seq<(Seq<char>, VarInfo)>;

pub open spec fn env_view(env: Seq<Binding>) -> EnvV {
    env.map_values(|b: Binding| (b.name@, b.info))
}

/// The index of the latest binding of `x` among the first `n`.
pub open spec fn lookup_in(env: EnvV, x: Seq<char>, n: nat) -> Option<int>
    decreases n,
{
    if n == 0 {
        None
    } else if env[n - 1].0 == x {
        Some(n - 1)
    } else {
        lookup_in(env, x, (n - 1) as nat)
    }
}

pub open spec fn lookup(env: EnvV, x: Seq<char>) -> Option<int> {
    lookup_in(env, x, env.len())
}

/// The latest binding found is one of the first `n`, with that name.
pub proof fn lemma_lookup_in_range(env: EnvV, x: Seq<char>, n: nat)
    ensures
        lookup_in(env, x, n) matches Some(i) ==> 0 <= i < n && env[i].0 == x,
    decreases n,
{
    if n > 0 {
        lemma_lookup_in_range(env, x, (n - 1) as nat);
    }
}

/// The type of an expression, with its secrecy, and whether it reads a
/// secret variable by bare name (a copy).
#[derive(Debug, Clone, Copy, PartialEq, Eq, Structural)]
pub struct ExprTy {
    pub ty: Ty,
    pub is_secret: bool,
    pub copied_secret: bool,
}

/// A set of effects.
#[derive(Debug, Clone, Copy, PartialEq, Eq, Structural)]
pub struct EffectSet {
    pub io: bool,
    pub net: bool,
    pub time: bool,
    pub rand: bool,
}

pub open spec fn has_effect(s: EffectSet, e: Effect) -> bool {
    match e {
        Effect::Io => s.io,
        Effect::Net => s.net,
        Effect::Time => s.time,
        Effect::Rand => s.rand,
    }
}

pub open spec fn with_effect(s: EffectSet, e: Effect) -> EffectSet {
    match e {
        Effect::Io => EffectSet { io: true, ..s },
        Effect::Net => EffectSet { net: true, ..s },
        Effect::Time => EffectSet { time: true, ..s },
        Effect::Rand => EffectSet { rand: true, ..s },
    }
}

pub open spec fn union_effects(a: EffectSet, b: EffectSet) -> EffectSet {
    EffectSet { io: a.io || b.io, net: a.net || b.net, time: a.time || b.time, rand: a.rand || b.rand }
}

pub open spec fn subset_effects(a: EffectSet, b: EffectSet) -> bool {
    (a.io ==> b.io) && (a.net ==> b.net) && (a.time ==> b.time) && (a.rand ==> b.rand)
}

pub open spec fn no_effects() -> EffectSet {
    EffectSet { io: false, net: false, time: false, rand: false }
}

/// The effects named by the first `n` entries of an effect row.
pub open spec fn row_effects(row: Seq<crate::ast::EffectSpec>, n: nat) -> EffectSet
    decreases n,
{
    if n == 0 {
        no_effects()
    } else {
        with_effect(row_effects(row, (n - 1) as nat), row[n - 1].effect)
    }
}

/// The effects that a function declares.
pub open spec fn declared(f: FnDecl) -> EffectSet {
    row_effects(f.effects@, f.effects@.len())
}

pub open spec fn effect_text(e: Effect) -> Seq<char> {
    match e {
        Effect::Io => "io"@,
        Effect::Net => "net"@,
        Effect::Time => "time"@,
        Effect::Rand => "rand"@,
    }
}

/// Appends a name to a comma-separated list.
pub open spec fn add_name(b: bool, name: Seq<char>, acc: Seq<char>) -> Seq<char> {
    if !b {
        acc
    } else if acc.len() == 0 {
        name
    } else {
        acc + ", "@ + name
    }
}

/// The names of a set of effects in alphabetical order, comma separated.
pub open spec fn effects_text(s: EffectSet) -> Seq<char> {
    add_name(
        s.time,
        "time"@,
        add_name(s.rand, "rand"@, add_name(s.net, "net"@, add_name(s.io, "io"@, Seq::empty()))),
    )
}

pub open spec fn lower(t: Type) -> Ty
    decreases t,
{
    match t {
        Type::Int { .. } => Ty::Int,
        Type::Bool { .. } => Ty::Bool,
        Type::Unit { .. } => Ty::Unit,
        Type::Secret { inner, .. } => lower(*inner),
        Type::Named { .. } => Ty::Unknown,
    }
}

pub open spec fn ty_text(t: Ty) -> Seq<char> {
    match t {
        Ty::Int => "Int"@,
        Ty::Bool => "Bool"@,
        Ty::Unit => "Unit"@,
        Ty::Unknown => "Unknown"@,
    }
}

/// The coarse rendering of a return type in a fix hint.
pub open spec fn ret_text(t: Type) -> Seq<char> {
    match t {
        Type::Int { .. } => "Int"@,
        Type::Bool { .. } => "Bool"@,
        Type::Unit { .. } => "Unit"@,
        Type::Secret { .. } => "secret ..."@,
        Type::Named { .. } => "..."@,
    }
}

pub open spec fn fix_replace(f: FnDecl) -> Seq<char> {
    "fn "@ + f.name.name@ + "(...) -> "@ + ret_text(f.ret) + " {"@
}

pub open spec fn fix_with(f: FnDecl, s: EffectSet) -> Seq<char> {
    "fn "@ + f.name.name@ + "(...) -> "@ + ret_text(f.ret) + " effects("@ + effects_text(s)
        + ") {"@
}

/// The index of the last function of the program with the given name.
pub open spec fn find_fn(funcs: Seq<FnDecl>, x: Seq<char>, n: nat) -> Option<int>
    decreases n,
{
    if n == 0 {
        None
    } else if funcs[n - 1].name.name@ == x {
        Some(n - 1)
    } else {
        find_fn(funcs, x, (n - 1) as nat)
    }
}

proof fn lemma_find_fn_range(funcs: Seq<FnDecl>, x: Seq<char>, n: nat)
    ensures
        find_fn(funcs, x, n) matches Some(i) ==> 0 <= i < n && funcs[i].name.name@ == x,
    decreases n,
{
    if n > 0 {
        lemma_find_fn_range(funcs, x, (n - 1) as nat);
    }
}

/// What the effect rule says of a call site that needs `e`, in `f`.
pub open spec fn require_effect_diags(e: Effect, site: SpanV, f: FnDecl) -> Seq<DiagV> {
    if has_effect(declared(f), e) {
        Seq::empty()
    } else {
        seq![
            error_fix_v(
                "undeclared-effect"@,
                "Operation requires effect `"@ + effect_text(e) + "`; add it to function `"@
                    + f.name.name@ + "`."@,
                site,
                fix_replace(f),
                fix_with(f, with_effect(declared(f), e)),
            ),
        ]
    }
}

/// What the effect rule says of a call in `f` of a function that declares
/// `needed`.
pub open spec fn leak_diags(callee: Seq<char>, needed: EffectSet, site: SpanV, f: FnDecl) -> Seq<
    DiagV,
> {
    if subset_effects(needed, declared(f)) {
        Seq::empty()
    } else {
        seq![
            error_fix_v(
                "effect-leak"@,
                "Calling `"@ + callee + "` requires effects ("@ + effects_text(needed) + ") in `"@
                    + f.name.name@ + "`."@,
                site,
                fix_replace(f),
                fix_with(f, union_effects(declared(f), needed)),
            ),
        ]
    }
}

/// The outcome of checking a piece of code: the type of an expression (or
/// nothing of meaning, for a statement), the environment after it, and the
/// diagnostics it raised, in order.
pub struct Checked {
    pub ty: ExprTy,
    pub env: EnvV,
    pub diags: Seq<DiagV>,
}

pub open spec fn plain(ty: Ty) -> ExprTy {
    ExprTy { ty, is_secret: false, copied_secret: false }
}

pub open spec fn name_unknown_v(x: Seq<char>, sp: SpanV) -> DiagV {
    error_v("name-unknown"@, "Unknown name `"@ + x + "`."@, sp)
}

pub open spec fn use_after_move_v(x: Seq<char>, sp: SpanV) -> DiagV {
    error_v("use-after-move"@, "Use of `"@ + x + "` after it was moved."@, sp)
}

/// What the arity rule of an intrinsic says.
pub open spec fn arity_diags(ok: bool, msg: Seq<char>, sp: SpanV) -> Seq<DiagV> {
    if ok {
        Seq::empty()
    } else {
        seq![error_v("call-arity"@, msg, sp)]
    }
}

/// Checks an expression in `f`, whose program declares `funcs`.
pub open spec fn check_expr(e: Expr, env: EnvV, f: FnDecl, funcs: Seq<FnDecl>) -> Checked
    decreases e, 1nat, 0nat,
{
    match e {
        Expr::IntLit { .. } => Checked { ty: plain(Ty::Int), env, diags: Seq::empty() },
        Expr::BoolLit { .. } => Checked { ty: plain(Ty::Bool), env, diags: Seq::empty() },
        Expr::StrLit { .. } => Checked { ty: plain(Ty::Unknown), env, diags: Seq::empty() },
        Expr::Var { name, .. } => match lookup(env, name.name@) {
            None => Checked {
                ty: plain(Ty::Unknown),
                env,
                diags: seq![name_unknown_v(name.name@, name.span@)],
            },
            Some(k) => {
                let v = env[k].1;
                if v.moved {
                    Checked {
                        ty: ExprTy { ty: Ty::Unknown, is_secret: v.is_secret, copied_secret: false },
                        env,
                        diags: seq![use_after_move_v(name.name@, name.span@)],
                    }
                } else {
                    Checked {
                        ty: ExprTy { ty: v.ty, is_secret: v.is_secret, copied_secret: v.is_secret },
                        env,
                        diags: Seq::empty(),
                    }
                }
            },
        },
        Expr::Move { name, .. } => match lookup(env, name.name@) {
            None => Checked {
                ty: plain(Ty::Unknown),
                env,
                diags: seq![name_unknown_v(name.name@, name.span@)],
            },
            Some(k) => {
                let v = env[k].1;
                if v.moved {
                    Checked {
                        ty: ExprTy { ty: Ty::Unknown, is_secret: v.is_secret, copied_secret: false },
                        env,
                        diags: seq![use_after_move_v(name.name@, name.span@)],
                    }
                } else {
                    Checked {
                        ty: ExprTy { ty: v.ty, is_secret: v.is_secret, copied_secret: false },
                        env: env.update(k, (env[k].0, VarInfo { moved: true, ..v })),
                        diags: Seq::empty(),
                    }
                }
            },
        },
        Expr::Call { callee, args, span } => {
            let a = check_args(e, args@.len(), env, f, funcs);
            let x = callee.name@;
            if x == "log"@ {
                Checked {
                    ty: plain(Ty::Unit),
                    env: a.env,
                    diags: require_effect_diags(Effect::Io, span@, f) + arity_diags(
                        args@.len() == 1,
                        "log expects exactly 1 argument."@,
                        callee.span@,
                    ) + a.diags,
                }
            } else if x == "now"@ {
                Checked {
                    ty: plain(Ty::Int),
                    env: a.env,
                    diags: require_effect_diags(Effect::Time, span@, f) + arity_diags(
                        args@.len() == 0,
                        "now expects 0 arguments."@,
                        callee.span@,
                    ) + a.diags,
                }
            } else if x == "rand"@ {
                Checked {
                    ty: plain(Ty::Int),
                    env: a.env,
                    diags: require_effect_diags(Effect::Rand, span@, f) + arity_diags(
                        args@.len() == 0,
                        "rand expects 0 arguments."@,
                        callee.span@,
                    ) + a.diags,
                }
            } else {
                let head = match find_fn(funcs, x, funcs.len()) {
                    None => seq![name_unknown_v(x, callee.span@)],
                    Some(j) => leak_diags(x, declared(funcs[j]), span@, f),
                };
                Checked { ty: plain(Ty::Unknown), env: a.env, diags: head + a.diags }
            }
        },
    }
}

/// Checks the first `n` arguments of the call `e`, left to right.
pub open spec fn check_args(e: Expr, n: nat, env: EnvV, f: FnDecl, funcs: Seq<FnDecl>) -> Checked
    decreases e, 0nat, n,
{
    if let Expr::Call { args, .. } = e {
        if n == 0 || n > args@.len() {
            Checked { ty: plain(Ty::Unit), env, diags: Seq::empty() }
        } else {
            let prev = check_args(e, (n - 1) as nat, env, f, funcs);
            let cur = check_expr(args@[n - 1], prev.env, f, funcs);
            Checked { ty: plain(Ty::Unit), env: cur.env, diags: prev.diags + cur.diags }
        }
    } else {
        Checked { ty: plain(Ty::Unit), env, diags: Seq::empty() }
    }
}

/// Joins three texts.
fn text3(a: &str, b: &str, c: &str) -> (r: String)
    ensures
        r@ == a@ + b@ + c@,
{
    let mut s = a.to_owned();
    s.append(b);
    s.append(c);
    s
}

/// Joins five texts.
fn text5(a: &str, b: &str, c: &str, d: &str, e: &str) -> (r: String)
    ensures
        r@ == a@ + b@ + c@ + d@ + e@,
{
    let mut s = text3(a, b, c);
    s.append(d);
    s.append(e);
    s
}

fn ty_name(t: Ty) -> (r: &'static str)
    ensures
        r@ == ty_text(t),
{
    match t {
        Ty::Int => "Int",
        Ty::Bool => "Bool",
        Ty::Unit => "Unit",
        Ty::Unknown => "Unknown",
    }
}

fn is_secret_type(t: &Type) -> (r: bool)
    ensures
        r == t is Secret,
{
    matches!(t, Type::Secret { .. })
}

fn lower_type(t: &Type) -> (r: Ty)
    ensures
        r == lower(*t),
    decreases t,
{
    match t {
        Type::Int { .. } => Ty::Int,
        Type::Bool { .. } => Ty::Bool,
        Type::Unit { .. } => Ty::Unit,
        Type::Secret { inner, .. } => lower_type(inner),
        Type::Named { .. } => Ty::Unknown,
    }
}

fn effect_name(e: Effect) -> (r: &'static str)
    ensures
        r@ == effect_text(e),
{
    match e {
        Effect::Io => "io",
        Effect::Net => "net",
        Effect::Time => "time",
        Effect::Rand => "rand",
    }
}

fn add_effect_name(b: bool, name: &str, acc: &mut String)
    ensures
        final(acc)@ == add_name(b, name@, old(acc)@),
{
    if b {
        if acc.as_str().unicode_len() == 0 {
            acc.append(name);
            assert(final(acc)@ =~= name@);
        } else {
            acc.append(", ");
            acc.append(name);
        }
    }
}

/// The names of a set of effects, in alphabetical order and comma separated.
fn fmt_effects_list(s: EffectSet) -> (r: String)
    ensures
        r@ == effects_text(s),
{
    let mut out = String::new();
    add_effect_name(s.io, "io", &mut out);
    add_effect_name(s.net, "net", &mut out);
    add_effect_name(s.rand, "rand", &mut out);
    add_effect_name(s.time, "time", &mut out);
    out
}

fn insert_effect(s: EffectSet, e: Effect) -> (r: EffectSet)
    ensures
        r == with_effect(s, e),
{
    match e {
        Effect::Io => EffectSet { io: true, ..s },
        Effect::Net => EffectSet { net: true, ..s },
        Effect::Time => EffectSet { time: true, ..s },
        Effect::Rand => EffectSet { rand: true, ..s },
    }
}

fn contains_effect(s: EffectSet, e: Effect) -> (r: bool)
    ensures
        r == has_effect(s, e),
{
    match e {
        Effect::Io => s.io,
        Effect::Net => s.net,
        Effect::Time => s.time,
        Effect::Rand => s.rand,
    }
}

/// The effects that a function declares.
fn effects_set_of_fn(f: &FnDecl) -> (r: EffectSet)
    ensures
        r == declared(*f),
{
    let mut set = EffectSet { io: false, net: false, time: false, rand: false };
    let mut i: usize = 0;
    while i < f.effects.len()
        invariant
            i <= f.effects@.len(),
            set == row_effects(f.effects@, i as nat),
        decreases f.effects@.len() - i,
    {
        set = insert_effect(set, f.effects[i].effect);
        i += 1;
    }
    set
}

fn pretty_ret(t: &Type) -> (r: &'static str)
    ensures
        r@ == ret_text(*t),
{
    match t {
        Type::Int { .. } => "Int",
        Type::Bool { .. } => "Bool",
        Type::Unit { .. } => "Unit",
        Type::Secret { .. } => "secret ...",
        Type::Named { .. } => "...",
    }
}

/// The fix hint that adds `proposed` as the effect row of `f`.
fn make_effects_fix(f: &FnDecl, proposed: EffectSet) -> (r: (String, String))
    ensures
        r.0@ == fix_replace(*f),
        r.1@ == fix_with(*f, proposed),
{
    let ret = pretty_ret(&f.ret);
    let replace = text5("fn ", f.name.name.as_str(), "(...) -> ", ret, " {");
    let mut with = text5("fn ", f.name.name.as_str(), "(...) -> ", ret, " effects(");
    let list = fmt_effects_list(proposed);
    with.append(list.as_str());
    with.append(") {");
    (replace, with)
}

fn require_effect(required: Effect, site: &crate::diagnostics::Span, f: &FnDecl, r: &mut DiagnosticReport)
    ensures
        final(r)@ == old(r)@ + require_effect_diags(required, site@, *f),
{
    let current = effects_set_of_fn(f);
    if contains_effect(current, required) {
        assert(final(r)@ =~= old(r)@ + require_effect_diags(required, site@, *f));
        return;
    }
    let proposed = insert_effect(current, required);
    let (replace, with) = make_effects_fix(f, proposed);
    let msg = text5(
        "Operation requires effect `",
        effect_name(required),
        "`; add it to function `",
        f.name.name.as_str(),
        "`.",
    );
    let d = Diagnostic::error("undeclared-effect", msg.as_str(), site.copied()).with_fix(
        replace,
        with,
    );
    r.push(d);
    assert(final(r)@ =~= old(r)@ + require_effect_diags(required, site@, *f));
}

fn require_effects_for_call(
    callee: &String,
    needed: EffectSet,
    site: &crate::diagnostics::Span,
    f: &FnDecl,
    r: &mut DiagnosticReport,
)
    ensures
        final(r)@ == old(r)@ + leak_diags(callee@, needed, site@, *f),
{
    let current = effects_set_of_fn(f);
    if (!needed.io || current.io) && (!needed.net || current.net) && (!needed.time
        || current.time) && (!needed.rand || current.rand) {
        assert(final(r)@ =~= old(r)@ + leak_diags(callee@, needed, site@, *f));
        return;
    }
    let proposed = EffectSet {
        io: current.io || needed.io,
        net: current.net || needed.net,
        time: current.time || needed.time,
        rand: current.rand || needed.rand,
    };
    let (replace, with) = make_effects_fix(f, proposed);
    let list = fmt_effects_list(needed);
    let mut msg = text5("Calling `", callee.as_str(), "` requires effects (", list.as_str(), ") in `");
    msg.append(f.name.name.as_str());
    msg.append("`.");
    let d = Diagnostic::error("effect-leak", msg.as_str(), site.copied()).with_fix(replace, with);
    r.push(d);
    assert(final(r)@ =~= old(r)@ + leak_diags(callee@, needed, site@, *f));
}

/// The latest binding of `x`.
fn lookup_var(env: &Vec<Binding>, x: &String) -> (k: Option<usize>)
    ensures
        match k {
            Some(i) => lookup(env_view(env@), x@) == Some(i as int) && i < env@.len(),
            None => lookup(env_view(env@), x@) is None,
        },
{
    let ghost ev = env_view(env@);
    proof {
        lemma_lookup_in_range(ev, x@, ev.len());
    }
    let mut n: usize = env.len();
    while n > 0
        invariant
            n <= env@.len(),
            ev == env_view(env@),
            lookup(ev, x@) == lookup_in(ev, x@, n as nat),
        decreases n,
    {
        if env[n - 1].name == *x {
            return Some(n - 1);
        }
        n -= 1;
    }
    None
}

/// The last function of the program with the given name.
fn find_fn_exec(funcs: &Vec<FnDecl>, x: &String) -> (k: Option<usize>)
    ensures
        match k {
            Some(i) => find_fn(funcs@, x@, funcs@.len()) == Some(i as int) && i < funcs@.len(),
            None => find_fn(funcs@, x@, funcs@.len()) is None,
        },
{
    proof {
        lemma_find_fn_range(funcs@, x@, funcs@.len());
    }
    let mut n: usize = funcs.len();
    while n > 0
        invariant
            n <= funcs@.len(),
            find_fn(funcs@, x@, funcs@.len()) == find_fn(funcs@, x@, n as nat),
        decreases n,
    {
        if funcs[n - 1].name.name == *x {
            return Some(n - 1);
        }
        n -= 1;
    }
    None
}

fn name_unknown(x: &String, sp: &crate::diagnostics::Span) -> (d: Diagnostic)
    ensures
        d@ == name_unknown_v(x@, sp@),
{
    let msg = text3("Unknown name `", x.as_str(), "`.");
    Diagnostic::error("name-unknown", msg.as_str(), sp.copied())
}

fn use_after_move(x: &String, sp: &crate::diagnostics::Span) -> (d: Diagnostic)
    ensures
        d@ == use_after_move_v(x@, sp@),
{
    let msg = text3("Use of `", x.as_str(), "` after it was moved.");
    Diagnostic::error("use-after-move", msg.as_str(), sp.copied())
}

/// Types an expression, reporting what breaks the rules and marking moved
/// variables.
fn type_of_expr(
    e: &Expr,
    env: &mut Vec<Binding>,
    f: &FnDecl,
    funcs: &Vec<FnDecl>,
    r: &mut DiagnosticReport,
) -> (t: ExprTy)
    ensures
        ({
            let c = check_expr(*e, env_view(old(env)@), *f, funcs@);
            &&& t == c.ty
            &&& env_view(final(env)@) == c.env
            &&& final(r)@ == old(r)@ + c.diags
        }),
    decreases e, 1nat, 0nat,
{
    let ghost env0 = env_view(env@);
    match e {
        Expr::IntLit { .. } => {
            assert(final(r)@ =~= old(r)@ + Seq::<DiagV>::empty());
            ExprTy { ty: Ty::Int, is_secret: false, copied_secret: false }
        },
        Expr::BoolLit { .. } => {
            assert(final(r)@ =~= old(r)@ + Seq::<DiagV>::empty());
            ExprTy { ty: Ty::Bool, is_secret: false, copied_secret: false }
        },
        Expr::StrLit { .. } => {
            assert(final(r)@ =~= old(r)@ + Seq::<DiagV>::empty());
            ExprTy { ty: Ty::Unknown, is_secret: false, copied_secret: false }
        },
        Expr::Var { name, .. } => match lookup_var(env, &name.name) {
            None => {
                r.push(name_unknown(&name.name, &name.span));
                ExprTy { ty: Ty::Unknown, is_secret: false, copied_secret: false }
            },
            Some(k) => {
                let v = env[k].info;
                assert(v == env0[k as int].1);
                if v.moved {
                    r.push(use_after_move(&name.name, &name.span));
                    ExprTy { ty: Ty::Unknown, is_secret: v.is_secret, copied_secret: false }
                } else {
                    assert(final(r)@ =~= old(r)@ + Seq::<DiagV>::empty());
                    ExprTy { ty: v.ty, is_secret: v.is_secret, copied_secret: v.is_secret }
                }
            },
        },
        Expr::Move { name, .. } => match lookup_var(env, &name.name) {
            None => {
                r.push(name_unknown(&name.name, &name.span));
                ExprTy { ty: Ty::Unknown, is_secret: false, copied_secret: false }
            },
            Some(k) => {
                let v = env[k].info;
                assert(v == env0[k as int].1);
                if v.moved {
                    r.push(use_after_move(&name.name, &name.span));
                    ExprTy { ty: Ty::Unknown, is_secret: v.is_secret, copied_secret: false }
                } else {
                    let nm = env[k].name.clone();
                    env.set(
                        k,
                        Binding {
                            name: nm,
                            info: VarInfo { ty: v.ty, is_secret: v.is_secret, moved: true },
                        },
                    );
                    assert(env_view(env@) =~= env0.update(
                        k as int,
                        (env0[k as int].0, VarInfo { moved: true, ..v }),
                    ));
                    assert(final(r)@ =~= old(r)@ + Seq::<DiagV>::empty());
                    ExprTy { ty: v.ty, is_secret: v.is_secret, copied_secret: false }
                }
            },
        },
        Expr::Call { callee, args, span } => {
            let ghost r0 = r@;
            let is_log = str_is(&callee.name, "log");
            let is_now = str_is(&callee.name, "now");
            let is_rand = str_is(&callee.name, "rand");
            let ty = if is_log {
                require_effect(Effect::Io, span, f, r);
                if args.len() != 1 {
                    r.push(
                        Diagnostic::error(
                            "call-arity",
                            "log expects exactly 1 argument.",
                            callee.span.copied(),
                        ),
                    );
                }
                Ty::Unit
            } else if is_now {
                require_effect(Effect::Time, span, f, r);
                if args.len() != 0 {
                    r.push(
                        Diagnostic::error(
                            "call-arity",
                            "now expects 0 arguments.",
                            callee.span.copied(),
                        ),
                    );
                }
                Ty::Int
            } else if is_rand {
                require_effect(Effect::Rand, span, f, r);
                if args.len() != 0 {
                    r.push(
                        Diagnostic::error(
                            "call-arity",
                            "rand expects 0 arguments.",
                            callee.span.copied(),
                        ),
                    );
                }
                Ty::Int
            } else {
                match find_fn_exec(funcs, &callee.name) {
                    None => {
                        r.push(name_unknown(&callee.name, &callee.span));
                    },
                    Some(j) => {
                        let needed = effects_set_of_fn(&funcs[j]);
                        require_effects_for_call(&callee.name, needed, span, f, r);
                    },
                }
                Ty::Unknown
            };
            let ghost r1 = r@;
            let mut i: usize = 0;
            while i < args.len()
                invariant
                    i <= args@.len(),
                    *e is Call,
                    (*e)->Call_args == *args,
                    env_view(env@) == check_args(*e, i as nat, env0, *f, funcs@).env,
                    r@ == r1 + check_args(*e, i as nat, env0, *f, funcs@).diags,
                decreases args@.len() - i,
            {
                proof {
                    let ghost ee = *e;
                    assert(decreases_to!(ee => ee->Call_args));
                    assert(decreases_to!(ee->Call_args => ee->Call_args[i as int]));
                }
                let _ = type_of_expr(&args[i], env, f, funcs, r);
                i += 1;
                assert(r@ =~= r1 + check_args(*e, i as nat, env0, *f, funcs@).diags);
            }
            let ghost a = check_args(*e, args@.len(), env0, *f, funcs@);
            assert(r@ =~= r0 + (r1.subrange(r0.len() as int, r1.len() as int) + a.diags));
            ExprTy { ty, is_secret: false, copied_secret: false }
        },
    }
}

/// What the annotation of a `let` says against the type of its value.
pub open spec fn ann_diags(ann: Option<Type>, rhs: Ty) -> Seq<DiagV> {
    match ann {
        None => Seq::empty(),
        Some(a) => if lower(a) == Ty::Unknown {
            seq![
                error_v(
                    "type-unknown"@,
                    "Unknown annotated type (Candy supports Int|Bool|Unit and secret wrappers)."@,
                    a.spec_span()@,
                ),
            ]
        } else if rhs != Ty::Unknown && rhs != lower(a) {
            seq![
                error_v(
                    "type-mismatch"@,
                    "Type mismatch: expected "@ + ty_text(lower(a)) + ", got "@ + ty_text(rhs)
                        + "."@,
                    a.spec_span()@,
                ),
            ]
        } else {
            Seq::empty()
        },
    }
}

/// The variable that an expression reads by bare name.
pub open spec fn var_hint(e: Expr) -> Seq<char> {
    match e {
        Expr::Var { name, .. } => name.name@,
        _ => "x"@,
    }
}

/// What the secret-copy rule says of `let b = e;`, where `e` types as `t`.
pub open spec fn copy_diags(b: Seq<char>, e: Expr, t: ExprTy) -> Seq<DiagV> {
    if t.is_secret && t.copied_secret {
        let x = var_hint(e);
        seq![
            error_fix_v(
                "secret-copy"@,
                "Secret value `"@ + x + "` cannot be copied. Use move("@ + x
                    + ") to transfer ownership."@,
                e.spec_span()@,
                "let "@ + b + " = "@ + x + ";"@,
                "let "@ + b + " = move("@ + x + ");"@,
            ),
        ]
    } else {
        Seq::empty()
    }
}

pub open spec fn return_mismatch_v(msg: Seq<char>, sp: SpanV) -> DiagV {
    error_v("return-mismatch"@, msg, sp)
}

/// Checks a statement of `f`.
pub open spec fn check_stmt(s: Stmt, env: EnvV, f: FnDecl, funcs: Seq<FnDecl>) -> Checked
    decreases s, 0nat,
{
    match s {
        Stmt::Let { name, ty, expr, .. } => {
            let r = check_expr(expr, env, f, funcs);
            let info = match ty {
                Some(a) => VarInfo { ty: lower(a), is_secret: a is Secret, moved: false },
                None => VarInfo { ty: r.ty.ty, is_secret: r.ty.is_secret, moved: false },
            };
            Checked {
                ty: plain(Ty::Unit),
                env: r.env.push((name.name@, info)),
                diags: r.diags + ann_diags(ty, r.ty.ty) + copy_diags(name.name@, expr, r.ty),
            }
        },
        Stmt::Return { expr, span } => {
            let rt = lower(f.ret);
            match expr {
                None => Checked {
                    ty: plain(Ty::Unit),
                    env,
                    diags: if rt == Ty::Unit {
                        Seq::empty()
                    } else {
                        seq![
                            return_mismatch_v(
                                "Missing return value; expected "@ + ty_text(rt) + "."@,
                                span@,
                            ),
                        ]
                    },
                },
                Some(e) => {
                    let r = check_expr(e, env, f, funcs);
                    let tail = if rt == Ty::Unit {
                        seq![
                            return_mismatch_v(
                                "Return value provided but function returns Unit."@,
                                span@,
                            ),
                        ]
                    } else if r.ty.ty != Ty::Unknown && r.ty.ty != rt {
                        seq![
                            return_mismatch_v(
                                "Return type mismatch: expected "@ + ty_text(rt) + ", got "@
                                    + ty_text(r.ty.ty) + "."@,
                                e.spec_span()@,
                            ),
                        ]
                    } else {
                        Seq::empty()
                    };
                    Checked { ty: plain(Ty::Unit), env: r.env, diags: r.diags + tail }
                },
            }
        },
        Stmt::If { cond, then_blk, else_blk, .. } => {
            let r = check_expr(cond, env, f, funcs);
            let d1 = if r.ty.ty != Ty::Bool && r.ty.ty != Ty::Unknown {
                seq![
                    error_v(
                        "if-cond-not-bool"@,
                        "If condition must be Bool, got "@ + ty_text(r.ty.ty) + "."@,
                        cond.spec_span()@,
                    ),
                ]
            } else {
                Seq::empty()
            };
            let d2 = if r.ty.is_secret {
                seq![
                    error_v(
                        "secret-branch"@,
                        "Branching on secret data is forbidden."@,
                        cond.spec_span()@,
                    ),
                ]
            } else {
                Seq::empty()
            };
            let t = check_stmts(then_blk.stmts@, then_blk.stmts@.len(), r.env, f, funcs);
            match else_blk {
                None => Checked { ty: plain(Ty::Unit), env: t.env, diags: r.diags + d1 + d2 + t.diags },
                Some(b) => {
                    let u = check_stmts(b.stmts@, b.stmts@.len(), t.env, f, funcs);
                    Checked {
                        ty: plain(Ty::Unit),
                        env: u.env,
                        diags: r.diags + d1 + d2 + t.diags + u.diags,
                    }
                },
            }
        },
        Stmt::Expr { expr, .. } => {
            let r = check_expr(expr, env, f, funcs);
            Checked { ty: plain(Ty::Unit), env: r.env, diags: r.diags }
        },
    }
}

/// Checks the first `n` statements of a block, in order, in one environment.
pub open spec fn check_stmts(ss: Seq<Stmt>, n: nat, env: EnvV, f: FnDecl, funcs: Seq<FnDecl>) -> Checked
    decreases ss, n,
{
    if n == 0 || n > ss.len() {
        Checked { ty: plain(Ty::Unit), env, diags: Seq::empty() }
    } else {
        let prev = check_stmts(ss, (n - 1) as nat, env, f, funcs);
        let cur = check_stmt(ss[n - 1], prev.env, f, funcs);
        Checked { ty: plain(Ty::Unit), env: cur.env, diags: prev.diags + cur.diags }
    }
}

/// The environment that the first `n` parameters seed.
pub open spec fn param_env(ps: Seq<crate::ast::Param>, n: nat) -> EnvV
    decreases n,
{
    if n == 0 {
        Seq::empty()
    } else {
        param_env(ps, (n - 1) as nat).push(
            (
                ps[n - 1].name.name@,
                VarInfo { ty: lower(ps[n - 1].ty), is_secret: ps[n - 1].ty is Secret, moved: false },
            ),
        )
    }
}

/// What is reported of the types of the first `n` parameters.
pub open spec fn param_diags(ps: Seq<crate::ast::Param>, n: nat) -> Seq<DiagV>
    decreases n,
{
    if n == 0 {
        Seq::empty()
    } else if lower(ps[n - 1].ty) == Ty::Unknown {
        param_diags(ps, (n - 1) as nat).push(
            error_v(
                "type-unknown"@,
                "Unknown parameter type (Candy supports Int|Bool|Unit and secret wrappers)."@,
                ps[n - 1].ty.spec_span()@,
            ),
        )
    } else {
        param_diags(ps, (n - 1) as nat)
    }
}

/// Everything reported of one function of the program.
pub open spec fn check_fn(f: FnDecl, funcs: Seq<FnDecl>) -> Seq<DiagV> {
    let ps = f.params@;
    param_diags(ps, ps.len()) + check_stmts(
        f.body.stmts@,
        f.body.stmts@.len(),
        param_env(ps, ps.len()),
        f,
        funcs,
    ).diags
}

fn copy_fix_texts(b: &String, x: &String) -> (r: (String, String))
    ensures
        r.0@ == "let "@ + b@ + " = "@ + x@ + ";"@,
        r.1@ == "let "@ + b@ + " = move("@ + x@ + ");"@,
{
    let replace = text5("let ", b.as_str(), " = ", x.as_str(), ";");
    let with = text5("let ", b.as_str(), " = move(", x.as_str(), ");");
    (replace, with)
}

/// Checks a `let`: types its value against the annotation and binds it.
fn typecheck_let(
    s: &Stmt,
    env: &mut Vec<Binding>,
    f: &FnDecl,
    funcs: &Vec<FnDecl>,
    r: &mut DiagnosticReport,
)
    requires
        *s is Let,
    ensures
        ({
            let c = check_stmt(*s, env_view(old(env)@), *f, funcs@);
            &&& env_view(final(env)@) == c.env
            &&& final(r)@ == old(r)@ + c.diags
        }),
{
    let ghost env0 = env_view(env@);
    let ghost r0 = r@;
    match s {
        Stmt::Let { name, ty, expr, .. } => {
            let rhs = type_of_expr(expr, env, f, funcs, r);
            let ghost r1 = r@;
            let info = match ty {
                Some(ann) => {
                    let at = lower_type(ann);
                    if at == Ty::Unknown {
                        r.push(
                            Diagnostic::error(
                                "type-unknown",
                                "Unknown annotated type (Candy supports Int|Bool|Unit and secret wrappers).",
                                ann.span().copied(),
                            ),
                        );
                    } else if rhs.ty != Ty::Unknown && rhs.ty != at {
                        let msg = text5(
                            "Type mismatch: expected ",
                            ty_name(at),
                            ", got ",
                            ty_name(rhs.ty),
                            ".",
                        );
                        r.push(Diagnostic::error("type-mismatch", msg.as_str(), ann.span().copied()));
                    }
                    VarInfo { ty: at, is_secret: is_secret_type(ann), moved: false }
                },
                None => VarInfo { ty: rhs.ty, is_secret: rhs.is_secret, moved: false },
            };
            let ghost r2 = r@;
            assert(r2 =~= r1 + ann_diags(*ty, rhs.ty));
            if rhs.is_secret && rhs.copied_secret {
                let hint = match expr {
                    Expr::Var { name: v, .. } => v.name.clone(),
                    _ => "x".to_owned(),
                };
                let msg = text5(
                    "Secret value `",
                    hint.as_str(),
                    "` cannot be copied. Use move(",
                    hint.as_str(),
                    ") to transfer ownership.",
                );
                let (replace, with) = copy_fix_texts(&name.name, &hint);
                r.push(
                    Diagnostic::error("secret-copy", msg.as_str(), expr.span().copied()).with_fix(
                        replace,
                        with,
                    ),
                );
            }
            assert(r@ =~= r2 + copy_diags(name.name@, *expr, rhs));
            let ghost env1 = env_view(env@);
            env.push(Binding { name: name.name.clone(), info });
            assert(env_view(env@) =~= env1.push((name.name@, info)));
            assert(r@ =~= r0 + (check_expr(*expr, env0, *f, funcs@).diags + ann_diags(*ty, rhs.ty)
                + copy_diags(name.name@, *expr, rhs)));
        },
        _ => {},
    }
}

/// Checks a `return` against the function's return type.
fn typecheck_return(
    s: &Stmt,
    env: &mut Vec<Binding>,
    f: &FnDecl,
    funcs: &Vec<FnDecl>,
    r: &mut DiagnosticReport,
)
    requires
        *s is Return,
    ensures
        ({
            let c = check_stmt(*s, env_view(old(env)@), *f, funcs@);
            &&& env_view(final(env)@) == c.env
            &&& final(r)@ == old(r)@ + c.diags
        }),
{
    let ghost env0 = env_view(env@);
    let ghost r0 = r@;
    match s {
        Stmt::Return { expr, span } => {
            let rt = lower_type(&f.ret);
            match expr {
                None => {
                    if rt != Ty::Unit {
                        let msg = text3("Missing return value; expected ", ty_name(rt), ".");
                        r.push(Diagnostic::error("return-mismatch", msg.as_str(), span.copied()));
                    }
                    assert(r@ =~= r0 + check_stmt(*s, env0, *f, funcs@).diags);
                },
                Some(e) => {
                    let et = type_of_expr(e, env, f, funcs, r);
                    let ghost r1 = r@;
                    if rt == Ty::Unit {
                        r.push(
                            Diagnostic::error(
                                "return-mismatch",
                                "Return value provided but function returns Unit.",
                                span.copied(),
                            ),
                        );
                    } else if et.ty != Ty::Unknown && et.ty != rt {
                        let msg = text5(
                            "Return type mismatch: expected ",
                            ty_name(rt),
                            ", got ",
                            ty_name(et.ty),
                            ".",
                        );
                        r.push(Diagnostic::error("return-mismatch", msg.as_str(), e.span().copied()));
                    }
                    assert(r@ =~= r0 + check_stmt(*s, env0, *f, funcs@).diags);
                },
            }
        },
        _ => {},
    }
}

/// Checks an `if`: its condition, then both branches in one environment.
fn typecheck_if(
    s: &Stmt,
    env: &mut Vec<Binding>,
    f: &FnDecl,
    funcs: &Vec<FnDecl>,
    r: &mut DiagnosticReport,
)
    requires
        *s is If,
    ensures
        ({
            let c = check_stmt(*s, env_view(old(env)@), *f, funcs@);
            &&& env_view(final(env)@) == c.env
            &&& final(r)@ == old(r)@ + c.diags
        }),
    decreases s, 0nat,
{
    let ghost env0 = env_view(env@);
    let ghost r0 = r@;
    match s {
        Stmt::If { cond, then_blk, else_blk, .. } => {
            let ct = type_of_expr(cond, env, f, funcs, r);
            let ghost r1 = r@;
            if ct.ty != Ty::Bool && ct.ty != Ty::Unknown {
                let msg = text3("If condition must be Bool, got ", ty_name(ct.ty), ".");
                r.push(Diagnostic::error("if-cond-not-bool", msg.as_str(), cond.span().copied()));
            }
            if ct.is_secret {
                r.push(
                    Diagnostic::error(
                        "secret-branch",
                        "Branching on secret data is forbidden.",
                        cond.span().copied(),
                    ),
                );
            }
            let ghost r2 = r@;
            proof {
                let ghost ss = *s;
                assert(decreases_to!(ss => ss->If_then_blk));
                assert(decreases_to!(ss->If_then_blk => ss->If_then_blk.stmts));
                assert(decreases_to!(ss->If_then_blk.stmts => ss->If_then_blk.stmts@));
            }
            typecheck_block(&then_blk.stmts, env, f, funcs, r);
            match else_blk {
                None => {},
                Some(b) => {
                    proof {
                        let ghost ss = *s;
                        assert(decreases_to!(ss => ss->If_else_blk));
                        assert(decreases_to!(ss->If_else_blk => ss->If_else_blk->0));
                        assert(decreases_to!(ss->If_else_blk->0 => ss->If_else_blk->0.stmts));
                        assert(decreases_to!(ss->If_else_blk->0.stmts => ss->If_else_blk->0.stmts@));
                    }
                    typecheck_block(&b.stmts, env, f, funcs, r);
                },
            }
            assert(r@ =~= r0 + check_stmt(*s, env0, *f, funcs@).diags);
        },
        _ => {},
    }
}

/// Checks one statement, in the environment of the function so far.
fn typecheck_stmt(
    s: &Stmt,
    env: &mut Vec<Binding>,
    f: &FnDecl,
    funcs: &Vec<FnDecl>,
    r: &mut DiagnosticReport,
)
    ensures
        ({
            let c = check_stmt(*s, env_view(old(env)@), *f, funcs@);
            &&& env_view(final(env)@) == c.env
            &&& final(r)@ == old(r)@ + c.diags
        }),
    decreases s, 1nat,
{
    match s {
        Stmt::Let { .. } => typecheck_let(s, env, f, funcs, r),
        Stmt::Return { .. } => typecheck_return(s, env, f, funcs, r),
        Stmt::If { .. } => typecheck_if(s, env, f, funcs, r),
        Stmt::Expr { expr, .. } => {
            let _ = type_of_expr(expr, env, f, funcs, r);
        },
    }
}

/// Checks the statements of a block in order.
fn typecheck_block(
    stmts: &Vec<Stmt>,
    env: &mut Vec<Binding>,
    f: &FnDecl,
    funcs: &Vec<FnDecl>,
    r: &mut DiagnosticReport,
)
    ensures
        ({
            let c = check_stmts(stmts@, stmts@.len(), env_view(old(env)@), *f, funcs@);
            &&& env_view(final(env)@) == c.env
            &&& final(r)@ == old(r)@ + c.diags
        }),
    decreases stmts@, stmts@.len() + 1,
{
    let ghost env0 = env_view(env@);
    let ghost r0 = r@;
    let mut i: usize = 0;
    while i < stmts.len()
        invariant
            i <= stmts@.len(),
            env_view(env@) == check_stmts(stmts@, i as nat, env0, *f, funcs@).env,
            r@ == r0 + check_stmts(stmts@, i as nat, env0, *f, funcs@).diags,
        decreases stmts@.len() - i,
    {
        proof {
            assert(decreases_to!(stmts@ => stmts@[i as int]));
        }
        typecheck_stmt(&stmts[i], env, f, funcs, r);
        i += 1;
        assert(r@ =~= r0 + check_stmts(stmts@, i as nat, env0, *f, funcs@).diags);
    }
}

/// Checks one function: its parameters' types, then its body.
fn typecheck_fn(f: &FnDecl, funcs: &Vec<FnDecl>, r: &mut DiagnosticReport)
    ensures
        final(r)@ == old(r)@ + check_fn(*f, funcs@),
{
    let ghost r0 = r@;
    let ghost ps = f.params@;
    let mut env: Vec<Binding> = Vec::new();
    let mut i: usize = 0;
    while i < f.params.len()
        invariant
            i <= ps.len(),
            ps == f.params@,
            env_view(env@) == param_env(ps, i as nat),
            r@ == r0 + param_diags(ps, i as nat),
        decreases ps.len() - i,
    {
        let p = &f.params[i];
        let pt = lower_type(&p.ty);
        if pt == Ty::Unknown {
            r.push(
                Diagnostic::error(
                    "type-unknown",
                    "Unknown parameter type (Candy supports Int|Bool|Unit and secret wrappers).",
                    p.ty.span().copied(),
                ),
            );
        }
        let ghost e0 = env_view(env@);
        env.push(
            Binding {
                name: p.name.name.clone(),
                info: VarInfo { ty: pt, is_secret: is_secret_type(&p.ty), moved: false },
            },
        );
        i += 1;
        assert(env_view(env@) =~= param_env(ps, i as nat));
        assert(r@ =~= r0 + param_diags(ps, i as nat));
    }
    typecheck_block(&f.body.stmts, &mut env, f, funcs, r);
    assert(r@ =~= r0 + check_fn(*f, funcs@));
}

/// The indices of the functions named `main` among the first `n`.
pub open spec fn mains(fs: Seq<FnDecl>, n: nat) -> Seq<int>
    decreases n,
{
    if n == 0 {
        Seq::empty()
    } else if fs[n - 1].name.name@ == "main"@ {
        mains(fs, (n - 1) as nat).push(n - 1)
    } else {
        mains(fs, (n - 1) as nat)
    }
}

/// What the rules on `main` report of a program.
pub open spec fn main_diags(p: Program) -> Seq<DiagV> {
    let fs = p.funcs@;
    let m = mains(fs, fs.len());
    if m.len() == 0 {
        seq![error_v("main-missing"@, "Missing `fn main() -> Unit { ... }`."@, p.span@)]
    } else {
        let first = fs[m[0]];
        (if m.len() > 1 {
            seq![
                DiagV {
                    code: "main-duplicate"@,
                    severity: Severity::Warning,
                    message: "Multiple `main` functions found."@,
                    span: fs[m[1]].span@,
                    fix: None,
                },
            ]
        } else {
            Seq::empty()
        }) + (if first.params@.len() > 0 {
            seq![
                error_v(
                    "main-invalid-signature"@,
                    "main must have zero parameters."@,
                    first.span@,
                ),
            ]
        } else {
            Seq::empty()
        }) + (if lower(first.ret) != Ty::Unit {
            seq![
                error_v(
                    "main-invalid-signature"@,
                    "main must return Unit."@,
                    first.ret.spec_span()@,
                ),
            ]
        } else {
            Seq::empty()
        })
    }
}

proof fn lemma_mains(fs: Seq<FnDecl>, n: nat)
    requires
        n <= fs.len(),
    ensures
        forall|k: int|
            0 <= k < mains(fs, n).len() ==> 0 <= #[trigger] mains(fs, n)[k] < n && fs[mains(
                fs,
                n,
            )[k]].name.name@ == "main"@,
    decreases n,
{
    if n > 0 {
        lemma_mains(fs, (n - 1) as nat);
    }
}

fn check_main(p: &Program, r: &mut DiagnosticReport)
    ensures
        final(r)@ == old(r)@ + main_diags(*p),
{
    let ghost fs = p.funcs@;
    let ghost r0 = r@;
    let mut idx: Vec<usize> = Vec::new();
    let mut i: usize = 0;
    while i < p.funcs.len()
        invariant
            i <= fs.len(),
            fs == p.funcs@,
            idx@.len() == mains(fs, i as nat).len(),
            forall|k: int| 0 <= k < idx@.len() ==> idx@[k] as int == mains(fs, i as nat)[k],
        decreases fs.len() - i,
    {
        if str_is(&p.funcs[i].name.name, "main") {
            idx.push(i);
        }
        i += 1;
    }
    proof {
        lemma_mains(fs, fs.len());
    }
    if idx.len() == 0 {
        r.push(
            Diagnostic::error(
                "main-missing",
                "Missing `fn main() -> Unit { ... }`.",
                p.span.copied(),
            ),
        );
        assert(r@ =~= r0 + main_diags(*p));
        return;
    }
    if idx.len() > 1 {
        r.push(
            Diagnostic::warning(
                "main-duplicate",
                "Multiple `main` functions found.",
                p.funcs[idx[1]].span.copied(),
            ),
        );
    }
    let m = &p.funcs[idx[0]];
    if m.params.len() > 0 {
        r.push(
            Diagnostic::error(
                "main-invalid-signature",
                "main must have zero parameters.",
                m.span.copied(),
            ),
        );
    }
    if lower_type(&m.ret) != Ty::Unit {
        r.push(
            Diagnostic::error(
                "main-invalid-signature",
                "main must return Unit.",
                m.ret.span().copied(),
            ),
        );
    }
    assert(r@ =~= r0 + main_diags(*p));
}

pub open spec fn state_name(pr: ProtocolDecl, i: int) -> Seq<char> {
    pr.states@[i].name.name@
}

pub open spec fn from_name(pr: ProtocolDecl, k: int) -> Seq<char> {
    pr.transitions@[k].from.name@
}

pub open spec fn to_name(pr: ProtocolDecl, k: int) -> Seq<char> {
    pr.transitions@[k].to.name@
}

/// Whether the protocol declares a state of that name.
pub open spec fn known(pr: ProtocolDecl, x: Seq<char>) -> bool {
    exists|i: int| 0 <= i < pr.states@.len() && state_name(pr, i) == x
}

/// Whether some declaration of that state is marked `final`.
pub open spec fn is_final_name(pr: ProtocolDecl, x: Seq<char>) -> bool {
    exists|i: int| 0 <= i < pr.states@.len() && state_name(pr, i) == x && pr.states@[i].is_final
}

/// Whether the `i`-th state declaration is the first of its name.
pub open spec fn first_decl(pr: ProtocolDecl, i: int) -> bool {
    forall|j: int| 0 <= j < i ==> state_name(pr, j) != state_name(pr, i)
}

/// Whether both ends of the `k`-th transition are declared states: only
/// such transitions make the protocol's graph.
pub open spec fn edge_ok(pr: ProtocolDecl, k: int) -> bool {
    known(pr, from_name(pr, k)) && known(pr, to_name(pr, k))
}

/// The number of edges out of `x` among the first `n` transitions.
pub open spec fn out_deg(pr: ProtocolDecl, x: Seq<char>, n: nat) -> nat
    decreases n,
{
    if n == 0 {
        0
    } else if edge_ok(pr, n - 1) && from_name(pr, n - 1) == x {
        out_deg(pr, x, (n - 1) as nat) + 1
    } else {
        out_deg(pr, x, (n - 1) as nat)
    }
}

/// The number of edges out of `x`.
pub open spec fn out_degree(pr: ProtocolDecl, x: Seq<char>) -> nat {
    out_deg(pr, x, pr.transitions@.len())
}

/// The states reached from `Init` by at most `k` edges.
pub open spec fn reach(pr: ProtocolDecl, k: nat) -> Set<Seq<char>>
    decreases k,
{
    if k == 0 {
        set!["Init"@]
    } else {
        let prev = reach(pr, (k - 1) as nat);
        prev.union(
            Set::new(
                |x: Seq<char>|
                    exists|t: int|
                        0 <= t < pr.transitions@.len() && edge_ok(pr, t) && to_name(pr, t) == x
                            && prev.contains(from_name(pr, t)),
            ),
        )
    }
}

/// Whether `x` is reachable from `Init`: a path without repeated edges is
/// no longer than the number of transitions.
pub open spec fn reachable(pr: ProtocolDecl, x: Seq<char>) -> bool {
    reach(pr, pr.transitions@.len()).contains(x)
}

pub open spec fn in_protocol(pr: ProtocolDecl) -> Seq<char> {
    " in protocol `"@ + pr.name.name@ + "`."@
}

pub open spec fn dup_state_diags(pr: ProtocolDecl, n: nat) -> Seq<DiagV>
    decreases n,
{
    if n == 0 {
        Seq::empty()
    } else if !first_decl(pr, n - 1) {
        dup_state_diags(pr, (n - 1) as nat).push(
            error_v(
                "protocol-duplicate-state"@,
                "Duplicate state `"@ + state_name(pr, n - 1) + "`"@ + in_protocol(pr),
                pr.states@[n - 1].name.span@,
            ),
        )
    } else {
        dup_state_diags(pr, (n - 1) as nat)
    }
}

pub open spec fn unknown_state_diags(pr: ProtocolDecl, x: Seq<char>, sp: SpanV) -> Seq<DiagV> {
    if known(pr, x) {
        Seq::empty()
    } else {
        seq![
            error_v(
                "protocol-unknown-state"@,
                "Transition references unknown state `"@ + x + "`"@ + in_protocol(pr),
                sp,
            ),
        ]
    }
}

/// Whether an earlier transition has the same two ends as the `k`-th.
pub open spec fn dup_edge(pr: ProtocolDecl, k: int) -> bool {
    exists|j: int| 0 <= j < k && from_name(pr, j) == from_name(pr, k) && to_name(pr, j) == to_name(pr, k)
}

/// What is reported of the first `n` transitions.
pub open spec fn trans_diags(pr: ProtocolDecl, n: nat) -> Seq<DiagV>
    decreases n,
{
    if n == 0 {
        Seq::empty()
    } else {
        let k = n - 1;
        let t = pr.transitions@[k];
        trans_diags(pr, (n - 1) as nat) + unknown_state_diags(pr, from_name(pr, k), t.from.span@)
            + unknown_state_diags(pr, to_name(pr, k), t.to.span@) + if dup_edge(pr, k) {
            seq![
                error_v(
                    "protocol-duplicate-transition"@,
                    "Duplicate transition `"@ + from_name(pr, k) + "` -> `"@ + to_name(pr, k)
                        + "`"@ + in_protocol(pr),
                    t.span@,
                ),
            ]
        } else {
            Seq::empty()
        }
    }
}

/// The rules that each state of a protocol must meet.
#[derive(Debug, Clone, Copy, PartialEq, Eq, Structural)]
pub enum StateRule {
    Nondeterministic,
    FinalOutgoing,
    Unreachable,
    DeadEnd,
}

/// Whether state `x` breaks the rule.
pub open spec fn rule_broken(pr: ProtocolDecl, rule: StateRule, x: Seq<char>) -> bool {
    match rule {
        StateRule::Nondeterministic => out_degree(pr, x) > 1,
        StateRule::FinalOutgoing => is_final_name(pr, x) && out_degree(pr, x) > 0,
        StateRule::Unreachable => x != "Init"@ && !reachable(pr, x),
        StateRule::DeadEnd => out_degree(pr, x) == 0 && !is_final_name(pr, x),
    }
}

pub open spec fn rule_code(rule: StateRule) -> Seq<char> {
    match rule {
        StateRule::Nondeterministic => "protocol-nondeterministic"@,
        StateRule::FinalOutgoing => "protocol-final-has-outgoing"@,
        StateRule::Unreachable => "protocol-unreachable-state"@,
        StateRule::DeadEnd => "protocol-dead-end-state"@,
    }
}

pub open spec fn rule_phrase(rule: StateRule) -> Seq<char> {
    match rule {
        StateRule::Nondeterministic => "` has more than one outgoing transition"@,
        StateRule::FinalOutgoing => "` is final but has an outgoing transition"@,
        StateRule::Unreachable => "` is unreachable from `Init`"@,
        StateRule::DeadEnd => "` has no outgoing transitions"@,
    }
}

/// What one rule reports of the first `n` state declarations: one
/// diagnostic for each state that breaks it, in declaration order.
pub open spec fn rule_diags(pr: ProtocolDecl, rule: StateRule, n: nat) -> Seq<DiagV>
    decreases n,
{
    if n == 0 {
        Seq::empty()
    } else if first_decl(pr, n - 1) && rule_broken(pr, rule, state_name(pr, n - 1)) {
        rule_diags(pr, rule, (n - 1) as nat).push(
            error_v(
                rule_code(rule),
                "State `"@ + state_name(pr, n - 1) + rule_phrase(rule) + in_protocol(pr),
                pr.span@,
            ),
        )
    } else {
        rule_diags(pr, rule, (n - 1) as nat)
    }
}

pub open spec fn has_init(pr: ProtocolDecl) -> bool {
    known(pr, "Init"@)
}

/// Whether some `final` state is reachable from `Init`.
pub open spec fn final_reachable(pr: ProtocolDecl) -> bool {
    exists|i: int|
        0 <= i < pr.states@.len() && pr.states@[i].is_final && reachable(pr, state_name(pr, i))
}

/// Everything reported of one protocol.
pub open spec fn protocol_diags(pr: ProtocolDecl) -> Seq<DiagV> {
    let ns = pr.states@.len();
    dup_state_diags(pr, ns) + if ns == 0 {
        seq![
            error_v(
                "protocol-empty"@,
                "Protocol `"@ + pr.name.name@ + "` declares no states."@,
                pr.span@,
            ),
        ]
    } else {
        (if has_init(pr) {
            Seq::empty()
        } else {
            seq![
                error_v(
                    "protocol-missing-init"@,
                    "Protocol `"@ + pr.name.name@ + "` must declare state `Init`."@,
                    pr.span@,
                ),
            ]
        }) + trans_diags(pr, pr.transitions@.len()) + rule_diags(
            pr,
            StateRule::Nondeterministic,
            ns,
        ) + rule_diags(pr, StateRule::FinalOutgoing, ns) + (if has_init(pr) {
            rule_diags(pr, StateRule::Unreachable, ns)
        } else {
            Seq::empty()
        }) + rule_diags(pr, StateRule::DeadEnd, ns) + (if has_init(pr) && !final_reachable(pr) {
            seq![
                error_v(
                    "protocol-no-final-reachable"@,
                    "No final state is reachable from `Init`"@ + in_protocol(pr),
                    pr.span@,
                ),
            ]
        } else {
            Seq::empty()
        })
    }
}

/// Everything reported of the first `n` protocols.
pub open spec fn protocols_diags(ps: Seq<ProtocolDecl>, n: nat) -> Seq<DiagV>
    decreases n,
{
    if n == 0 {
        Seq::empty()
    } else {
        protocols_diags(ps, (n - 1) as nat) + protocol_diags(ps[n - 1])
    }
}

proof fn lemma_reach_step(pr: ProtocolDecl, k: nat, t: int)
    requires
        0 <= t < pr.transitions@.len(),
        edge_ok(pr, t),
        reach(pr, k).contains(from_name(pr, t)),
    ensures
        reach(pr, k + 1).contains(to_name(pr, t)),
{
    let prev = reach(pr, k);
    let x = to_name(pr, t);
    assert(exists|u: int|
        0 <= u < pr.transitions@.len() && edge_ok(pr, u) && to_name(pr, u) == x && prev.contains(
            from_name(pr, u),
        ));
}

/// The first declaration of state `x`.
fn state_index(pr: &ProtocolDecl, x: &String) -> (r: Option<usize>)
    ensures
        match r {
            Some(i) => i < pr.states@.len() && state_name(*pr, i as int) == x@,
            None => !known(*pr, x@),
        },
{
    let mut i: usize = 0;
    while i < pr.states.len()
        invariant
            i <= pr.states@.len(),
            forall|j: int| 0 <= j < i ==> state_name(*pr, j) != x@,
        decreases pr.states@.len() - i,
    {
        if pr.states[i].name.name == *x {
            return Some(i);
        }
        i += 1;
    }
    None
}

fn is_final_exec(pr: &ProtocolDecl, x: &String) -> (r: bool)
    ensures
        r == is_final_name(*pr, x@),
{
    let mut i: usize = 0;
    while i < pr.states.len()
        invariant
            i <= pr.states@.len(),
            forall|j: int| 0 <= j < i ==> !(state_name(*pr, j) == x@ && pr.states@[j].is_final),
        decreases pr.states@.len() - i,
    {
        if pr.states[i].is_final && pr.states[i].name.name == *x {
            assert(state_name(*pr, i as int) == x@ && pr.states@[i as int].is_final);
            return true;
        }
        i += 1;
    }
    false
}

fn first_decl_exec(pr: &ProtocolDecl, i: usize) -> (r: bool)
    requires
        i < pr.states@.len(),
    ensures
        r == first_decl(*pr, i as int),
{
    let mut j: usize = 0;
    while j < i
        invariant
            j <= i < pr.states@.len(),
            forall|k: int| 0 <= k < j ==> state_name(*pr, k) != state_name(*pr, i as int),
        decreases i - j,
    {
        if pr.states[j].name.name == pr.states[i].name.name {
            assert(state_name(*pr, j as int) == state_name(*pr, i as int));
            return false;
        }
        j += 1;
    }
    true
}

/// Which transitions have both ends declared.
fn edges_ok(pr: &ProtocolDecl) -> (ok: Vec<bool>)
    ensures
        ok@.len() == pr.transitions@.len(),
        forall|k: int| 0 <= k < ok@.len() ==> ok@[k] == edge_ok(*pr, k),
{
    let mut ok: Vec<bool> = Vec::new();
    let mut k: usize = 0;
    while k < pr.transitions.len()
        invariant
            k <= pr.transitions@.len(),
            ok@.len() == k,
            forall|j: int| 0 <= j < k ==> ok@[j] == edge_ok(*pr, j),
        decreases pr.transitions@.len() - k,
    {
        let a = state_index(pr, &pr.transitions[k].from.name);
        let b = state_index(pr, &pr.transitions[k].to.name);
        ok.push(a.is_some() && b.is_some());
        k += 1;
    }
    ok
}

fn out_degree_exec(pr: &ProtocolDecl, ok: &Vec<bool>, x: &String) -> (d: usize)
    requires
        ok@.len() == pr.transitions@.len(),
        forall|k: int| 0 <= k < ok@.len() ==> ok@[k] == edge_ok(*pr, k),
    ensures
        d == out_degree(*pr, x@),
{
    let mut d: usize = 0;
    let mut k: usize = 0;
    while k < pr.transitions.len()
        invariant
            k <= pr.transitions@.len(),
            ok@.len() == pr.transitions@.len(),
            forall|j: int| 0 <= j < ok@.len() ==> ok@[j] == edge_ok(*pr, j),
            d == out_deg(*pr, x@, k as nat),
            d <= k,
        decreases pr.transitions@.len() - k,
    {
        if ok[k] && pr.transitions[k].from.name == *x {
            d += 1;
        }
        k += 1;
    }
    d
}

/// One more step of reachability: `reached` holds, for each state
/// declaration, whether its state is in `reach(k)`.
fn reach_step(
    pr: &ProtocolDecl,
    ok: &Vec<bool>,
    reached: &Vec<bool>,
    Ghost(k): Ghost<nat>,
) -> (next: Vec<bool>)
    requires
        ok@.len() == pr.transitions@.len(),
        forall|t: int| 0 <= t < ok@.len() ==> ok@[t] == edge_ok(*pr, t),
        reached@.len() == pr.states@.len(),
        forall|i: int|
            0 <= i < reached@.len() ==> reached@[i] == reach(*pr, k).contains(state_name(*pr, i)),
    ensures
        next@.len() == pr.states@.len(),
        forall|i: int|
            0 <= i < next@.len() ==> next@[i] == reach(*pr, k + 1).contains(state_name(*pr, i)),
{
    let ghost prev = reach(*pr, k);
    let mut next: Vec<bool> = Vec::new();
    let mut i: usize = 0;
    while i < pr.states.len()
        invariant
            i <= pr.states@.len(),
            next@.len() == i,
            prev == reach(*pr, k),
            ok@.len() == pr.transitions@.len(),
            forall|t: int| 0 <= t < ok@.len() ==> ok@[t] == edge_ok(*pr, t),
            reached@.len() == pr.states@.len(),
            forall|j: int| 0 <= j < reached@.len() ==> reached@[j] == prev.contains(state_name(*pr, j)),
            forall|j: int| 0 <= j < i ==> next@[j] == reach(*pr, k + 1).contains(state_name(*pr, j)),
        decreases pr.states@.len() - i,
    {
        let ghost x = state_name(*pr, i as int);
        let mut hit = reached[i];
        let mut t: usize = 0;
        while t < pr.transitions.len() && !hit
            invariant
                prev == reach(*pr, k),
                i < pr.states@.len(),
                x == state_name(*pr, i as int),
                t <= pr.transitions@.len(),
                ok@.len() == pr.transitions@.len(),
                forall|u: int| 0 <= u < ok@.len() ==> ok@[u] == edge_ok(*pr, u),
                reached@.len() == pr.states@.len(),
                forall|j: int| 0 <= j < reached@.len() ==> reached@[j] == prev.contains(state_name(*pr, j)),
                hit ==> reach(*pr, k + 1).contains(x),
                !hit ==> !prev.contains(x),
                !hit ==> forall|u: int|
                    0 <= u < t ==> !(edge_ok(*pr, u) && to_name(*pr, u) == x && prev.contains(
                        from_name(*pr, u),
                    )),
            decreases pr.transitions@.len() - t,
        {
            if ok[t] && pr.transitions[t].to.name == pr.states[i].name.name {
                match state_index(pr, &pr.transitions[t].from.name) {
                    Some(j) => {
                        if reached[j] {
                            proof {
                                lemma_reach_step(*pr, k, t as int);
                            }
                            hit = true;
                        }
                    },
                    None => {},
                }
            }
            t += 1;
        }
        next.push(hit);
        i += 1;
    }
    next
}

/// For each state declaration, whether its state is reachable from `Init`.
fn reachability(pr: &ProtocolDecl, ok: &Vec<bool>) -> (reached: Vec<bool>)
    requires
        ok@.len() == pr.transitions@.len(),
        forall|t: int| 0 <= t < ok@.len() ==> ok@[t] == edge_ok(*pr, t),
    ensures
        reached@.len() == pr.states@.len(),
        forall|i: int|
            0 <= i < reached@.len() ==> reached@[i] == reachable(*pr, state_name(*pr, i)),
{
    let mut reached: Vec<bool> = Vec::new();
    let mut i: usize = 0;
    while i < pr.states.len()
        invariant
            i <= pr.states@.len(),
            reached@.len() == i,
            forall|j: int| 0 <= j < i ==> reached@[j] == reach(*pr, 0).contains(state_name(*pr, j)),
        decreases pr.states@.len() - i,
    {
        let is_init = str_is(&pr.states[i].name.name, "Init");
        reached.push(is_init);
        i += 1;
    }
    let mut k: usize = 0;
    while k < pr.transitions.len()
        invariant
            k <= pr.transitions@.len(),
            ok@.len() == pr.transitions@.len(),
            forall|t: int| 0 <= t < ok@.len() ==> ok@[t] == edge_ok(*pr, t),
            reached@.len() == pr.states@.len(),
            forall|j: int|
                0 <= j < reached@.len() ==> reached@[j] == reach(*pr, k as nat).contains(
                    state_name(*pr, j),
                ),
        decreases pr.transitions@.len() - k,
    {
        reached = reach_step(pr, ok, &reached, Ghost(k as nat));
        k += 1;
    }
    reached
}

/// Whether state `x` breaks the rule, given the edges that count and the
/// reachability of each state declaration.
fn rule_broken_exec(
    pr: &ProtocolDecl,
    ok: &Vec<bool>,
    reached: &Vec<bool>,
    rule: StateRule,
    i: usize,
) -> (b: bool)
    requires
        i < pr.states@.len(),
        ok@.len() == pr.transitions@.len(),
        forall|t: int| 0 <= t < ok@.len() ==> ok@[t] == edge_ok(*pr, t),
        reached@.len() == pr.states@.len(),
        forall|j: int| 0 <= j < reached@.len() ==> reached@[j] == reachable(*pr, state_name(*pr, j)),
    ensures
        b == rule_broken(*pr, rule, state_name(*pr, i as int)),
{
    let x = &pr.states[i].name.name;
    match rule {
        StateRule::Nondeterministic => out_degree_exec(pr, ok, x) > 1,
        StateRule::FinalOutgoing => is_final_exec(pr, x) && out_degree_exec(pr, ok, x) > 0,
        StateRule::Unreachable => !str_is(x, "Init") && !reached[i],
        StateRule::DeadEnd => out_degree_exec(pr, ok, x) == 0 && !is_final_exec(pr, x),
    }
}

fn rule_code_text(rule: StateRule) -> (r: &'static str)
    ensures
        r@ == rule_code(rule),
{
    match rule {
        StateRule::Nondeterministic => "protocol-nondeterministic",
        StateRule::FinalOutgoing => "protocol-final-has-outgoing",
        StateRule::Unreachable => "protocol-unreachable-state",
        StateRule::DeadEnd => "protocol-dead-end-state",
    }
}

fn rule_phrase_text(rule: StateRule) -> (r: &'static str)
    ensures
        r@ == rule_phrase(rule),
{
    match rule {
        StateRule::Nondeterministic => "` has more than one outgoing transition",
        StateRule::FinalOutgoing => "` is final but has an outgoing transition",
        StateRule::Unreachable => "` is unreachable from `Init`",
        StateRule::DeadEnd => "` has no outgoing transitions",
    }
}

/// Reports each state that breaks the rule, in declaration order.
fn check_rule(
    pr: &ProtocolDecl,
    ok: &Vec<bool>,
    reached: &Vec<bool>,
    rule: StateRule,
    r: &mut DiagnosticReport,
)
    requires
        ok@.len() == pr.transitions@.len(),
        forall|t: int| 0 <= t < ok@.len() ==> ok@[t] == edge_ok(*pr, t),
        reached@.len() == pr.states@.len(),
        forall|j: int| 0 <= j < reached@.len() ==> reached@[j] == reachable(*pr, state_name(*pr, j)),
    ensures
        final(r)@ == old(r)@ + rule_diags(*pr, rule, pr.states@.len()),
{
    let ghost r0 = r@;
    let mut i: usize = 0;
    while i < pr.states.len()
        invariant
            i <= pr.states@.len(),
            ok@.len() == pr.transitions@.len(),
            forall|t: int| 0 <= t < ok@.len() ==> ok@[t] == edge_ok(*pr, t),
            reached@.len() == pr.states@.len(),
            forall|j: int|
                0 <= j < reached@.len() ==> reached@[j] == reachable(*pr, state_name(*pr, j)),
            r@ == r0 + rule_diags(*pr, rule, i as nat),
        decreases pr.states@.len() - i,
    {
        if first_decl_exec(pr, i) && rule_broken_exec(pr, ok, reached, rule, i) {
            let mut msg = text3("State `", pr.states[i].name.name.as_str(), rule_phrase_text(rule));
            let tail = text3(" in protocol `", pr.name.name.as_str(), "`.");
            msg.append(tail.as_str());
            r.push(Diagnostic::error(rule_code_text(rule), msg.as_str(), pr.span.copied()));
        }
        i += 1;
        assert(r@ =~= r0 + rule_diags(*pr, rule, i as nat));
    }
}

fn report_unknown_state(pr: &ProtocolDecl, x: &crate::ast::Ident, r: &mut DiagnosticReport)
    ensures
        final(r)@ == old(r)@ + unknown_state_diags(*pr, x.name@, x.span@),
{
    if state_index(pr, &x.name).is_none() {
        let mut msg = text3("Transition references unknown state `", x.name.as_str(), "`");
        let tail = text3(" in protocol `", pr.name.name.as_str(), "`.");
        msg.append(tail.as_str());
        r.push(Diagnostic::error("protocol-unknown-state", msg.as_str(), x.span.copied()));
    }
    assert(final(r)@ =~= old(r)@ + unknown_state_diags(*pr, x.name@, x.span@));
}

fn dup_edge_exec(pr: &ProtocolDecl, k: usize) -> (b: bool)
    requires
        k < pr.transitions@.len(),
    ensures
        b == dup_edge(*pr, k as int),
{
    let mut j: usize = 0;
    while j < k
        invariant
            j <= k < pr.transitions@.len(),
            forall|u: int|
                0 <= u < j ==> !(from_name(*pr, u) == from_name(*pr, k as int) && to_name(*pr, u)
                    == to_name(*pr, k as int)),
        decreases k - j,
    {
        if pr.transitions[j].from.name == pr.transitions[k].from.name
            && pr.transitions[j].to.name == pr.transitions[k].to.name {
            assert(from_name(*pr, j as int) == from_name(*pr, k as int) && to_name(*pr, j as int)
                == to_name(*pr, k as int));
            return true;
        }
        j += 1;
    }
    false
}

fn check_transitions(pr: &ProtocolDecl, r: &mut DiagnosticReport)
    ensures
        final(r)@ == old(r)@ + trans_diags(*pr, pr.transitions@.len()),
{
    let ghost r0 = r@;
    let mut k: usize = 0;
    while k < pr.transitions.len()
        invariant
            k <= pr.transitions@.len(),
            r@ == r0 + trans_diags(*pr, k as nat),
        decreases pr.transitions@.len() - k,
    {
        let tr = &pr.transitions[k];
        report_unknown_state(pr, &tr.from, r);
        report_unknown_state(pr, &tr.to, r);
        if dup_edge_exec(pr, k) {
            let mut msg = text5(
                "Duplicate transition `",
                tr.from.name.as_str(),
                "` -> `",
                tr.to.name.as_str(),
                "`",
            );
            let tail = text3(" in protocol `", pr.name.name.as_str(), "`.");
            msg.append(tail.as_str());
            r.push(
                Diagnostic::error("protocol-duplicate-transition", msg.as_str(), tr.span.copied()),
            );
        }
        k += 1;
        assert(r@ =~= r0 + trans_diags(*pr, k as nat));
    }
}

fn check_duplicate_states(pr: &ProtocolDecl, r: &mut DiagnosticReport)
    ensures
        final(r)@ == old(r)@ + dup_state_diags(*pr, pr.states@.len()),
{
    let ghost r0 = r@;
    let mut i: usize = 0;
    while i < pr.states.len()
        invariant
            i <= pr.states@.len(),
            r@ == r0 + dup_state_diags(*pr, i as nat),
        decreases pr.states@.len() - i,
    {
        if !first_decl_exec(pr, i) {
            let mut msg = text3("Duplicate state `", pr.states[i].name.name.as_str(), "`");
            let tail = text3(" in protocol `", pr.name.name.as_str(), "`.");
            msg.append(tail.as_str());
            r.push(
                Diagnostic::error(
                    "protocol-duplicate-state",
                    msg.as_str(),
                    pr.states[i].name.span.copied(),
                ),
            );
        }
        i += 1;
        assert(r@ =~= r0 + dup_state_diags(*pr, i as nat));
    }
}

fn final_reachable_exec(pr: &ProtocolDecl, reached: &Vec<bool>) -> (b: bool)
    requires
        reached@.len() == pr.states@.len(),
        forall|j: int| 0 <= j < reached@.len() ==> reached@[j] == reachable(*pr, state_name(*pr, j)),
    ensures
        b == final_reachable(*pr),
{
    let mut i: usize = 0;
    while i < pr.states.len()
        invariant
            i <= pr.states@.len(),
            reached@.len() == pr.states@.len(),
            forall|j: int|
                0 <= j < reached@.len() ==> reached@[j] == reachable(*pr, state_name(*pr, j)),
            forall|j: int| 0 <= j < i ==> !(pr.states@[j].is_final && reachable(*pr, state_name(*pr, j))),
        decreases pr.states@.len() - i,
    {
        if pr.states[i].is_final && reached[i] {
            return true;
        }
        i += 1;
    }
    false
}

/// Checks one protocol: its states, its transitions, and the state rules.
fn typecheck_protocol(pr: &ProtocolDecl, r: &mut DiagnosticReport)
    ensures
        final(r)@ == old(r)@ + protocol_diags(*pr),
{
    let ghost r0 = r@;
    check_duplicate_states(pr, r);
    let ghost r1 = r@;
    if pr.states.len() == 0 {
        let msg = text3("Protocol `", pr.name.name.as_str(), "` declares no states.");
        r.push(Diagnostic::error("protocol-empty", msg.as_str(), pr.span.copied()));
        assert(r@ =~= r0 + protocol_diags(*pr));
        return;
    }
    let init = "Init".to_owned();
    let init_known = state_index(pr, &init).is_some();
    assert(init_known == has_init(*pr));
    if !init_known {
        let msg = text3("Protocol `", pr.name.name.as_str(), "` must declare state `Init`.");
        r.push(Diagnostic::error("protocol-missing-init", msg.as_str(), pr.span.copied()));
    }
    let ghost r2 = r@;
    check_transitions(pr, r);
    let ghost r3 = r@;
    let ok = edges_ok(pr);
    let reached = reachability(pr, &ok);
    check_rule(pr, &ok, &reached, StateRule::Nondeterministic, r);
    let ghost r4 = r@;
    check_rule(pr, &ok, &reached, StateRule::FinalOutgoing, r);
    let ghost r5 = r@;
    if init_known {
        check_rule(pr, &ok, &reached, StateRule::Unreachable, r);
    }
    let ghost r6 = r@;
    check_rule(pr, &ok, &reached, StateRule::DeadEnd, r);
    let ghost r7 = r@;
    if init_known && !final_reachable_exec(pr, &reached) {
        let mut msg = "No final state is reachable from `Init`".to_owned();
        let tail = text3(" in protocol `", pr.name.name.as_str(), "`.");
        msg.append(tail.as_str());
        r.push(Diagnostic::error("protocol-no-final-reachable", msg.as_str(), pr.span.copied()));
    }
    let ghost ns = pr.states@.len();
    assert(r1 == r0 + dup_state_diags(*pr, ns));
    assert(r3 == r2 + trans_diags(*pr, pr.transitions@.len()));
    assert(r4 == r3 + rule_diags(*pr, StateRule::Nondeterministic, ns));
    assert(r5 == r4 + rule_diags(*pr, StateRule::FinalOutgoing, ns));
    assert(r6 == r5 + (if has_init(*pr) {
        rule_diags(*pr, StateRule::Unreachable, ns)
    } else {
        Seq::empty()
    }));
    assert(r7 == r6 + rule_diags(*pr, StateRule::DeadEnd, ns));
    assert(r@ =~= r7 + (if has_init(*pr) && !final_reachable(*pr) {
        seq![
            error_v(
                "protocol-no-final-reachable"@,
                "No final state is reachable from `Init`"@ + in_protocol(*pr),
                pr.span@,
            ),
        ]
    } else {
        Seq::empty()
    }));
    assert(r2 == r1 + (if has_init(*pr) {
        Seq::empty()
    } else {
        seq![
            error_v(
                "protocol-missing-init"@,
                "Protocol `"@ + pr.name.name@ + "` must declare state `Init`."@,
                pr.span@,
            ),
        ]
    }));
    assert(r@ =~= r0 + protocol_diags(*pr));
}

fn typecheck_protocols(ps: &Vec<ProtocolDecl>, r: &mut DiagnosticReport)
    ensures
        final(r)@ == old(r)@ + protocols_diags(ps@, ps@.len()),
{
    let ghost r0 = r@;
    let mut i: usize = 0;
    while i < ps.len()
        invariant
            i <= ps@.len(),
            r@ == r0 + protocols_diags(ps@, i as nat),
        decreases ps@.len() - i,
    {
        typecheck_protocol(&ps[i], r);
        i += 1;
        assert(r@ =~= r0 + protocols_diags(ps@, i as nat));
    }
}

/// Everything reported of the first `n` functions.
pub open spec fn fns_diags(funcs: Seq<FnDecl>, n: nat) -> Seq<DiagV>
    decreases n,
{
    if n == 0 {
        Seq::empty()
    } else {
        fns_diags(funcs, (n - 1) as nat) + check_fn(funcs[n - 1], funcs)
    }
}

/// Everything the checker reports of a program, in order: the rules on
/// `main`, then each protocol, then each function.
pub open spec fn program_diags(p: Program) -> Seq<DiagV> {
    main_diags(p) + protocols_diags(p.protocols@, p.protocols@.len()) + fns_diags(
        p.funcs@,
        p.funcs@.len(),
    )
}

/// Checks a program. It passes iff nothing it reports is an error; when it
/// fails, the report holds every diagnostic, warnings included.
pub fn typecheck(p: &Program) -> (res: Result<(), DiagnosticReport>)
    ensures
        match res {
            Ok(()) => !has_error(program_diags(*p)),
            Err(rep) => rep@ == program_diags(*p) && has_error(rep@),
        },
{
    let mut r = DiagnosticReport::new();
    check_main(p, &mut r);
    typecheck_protocols(&p.protocols, &mut r);
    let ghost r1 = r@;
    let mut i: usize = 0;
    while i < p.funcs.len()
        invariant
            i <= p.funcs@.len(),
            r@ == r1 + fns_diags(p.funcs@, i as nat),
        decreases p.funcs@.len() - i,
    {
        typecheck_fn(&p.funcs[i], &p.funcs, &mut r);
        i += 1;
        assert(r@ =~= r1 + fns_diags(p.funcs@, i as nat));
    }
    assert(r@ =~= program_diags(*p));
    if r.is_ok() {
        Ok(())
    } else {
        Err(r)
    }
}

} // verus!
