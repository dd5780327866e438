//! Properties of the checker as a whole, proved over the spec functions
//! that `typecheck` is shown to follow exactly.
use vstd::prelude::*;

use crate::ast::{Expr, FnDecl, ProtocolDecl, Stmt};
use crate::diagnostics::{has_code, DiagV};
use crate::typecheck::{
    ann_diags, arity_diags, check_args, check_expr, check_fn, check_stmt, check_stmts,
    copy_diags, declared, dup_state_diags, find_fn, first_decl, from_name, has_effect, has_init,
    leak_diags, lemma_lookup_in_range, lookup, lookup_in, name_unknown_v, no_effects, out_degree,
    param_diags, param_env, protocol_diags, require_effect_diags, rule_broken, rule_code,
    rule_diags, state_name, subset_effects, to_name, trans_diags, ty_text, unknown_state_diags,
    use_after_move_v, with_effect, EffectSet, EnvV, StateRule, Ty, VarInfo,
};

verus! {

/// Whether a diagnostic code belongs to the effect discipline.
pub open spec fn is_effect_code(c: Seq<char>) -> bool {
    c == "undeclared-effect"@ || c == "effect-leak"@
}

/// Whether no diagnostic of the sequence belongs to the effect discipline.
pub open spec fn effect_clean(ds: Seq<DiagV>) -> bool {
    forall|i: int| 0 <= i < ds.len() ==> !is_effect_code(#[trigger] ds[i].code)
}

/// The effects that a call of `callee` needs: the intrinsic's own, or what
/// the called function declares, or none for an unknown name.
pub open spec fn call_needs(callee: Seq<char>, funcs: Seq<FnDecl>) -> EffectSet {
    if callee == "log"@ {
        with_effect(no_effects(), crate::ast::Effect::Io)
    } else if callee == "now"@ {
        with_effect(no_effects(), crate::ast::Effect::Time)
    } else if callee == "rand"@ {
        with_effect(no_effects(), crate::ast::Effect::Rand)
    } else {
        match find_fn(funcs, callee, funcs.len()) {
            Some(j) => declared(funcs[j]),
            None => no_effects(),
        }
    }
}

/// Whether every call site in `e` needs only effects of `decl`.
pub open spec fn sites_ok_expr(e: Expr, decl: EffectSet, funcs: Seq<FnDecl>) -> bool
    decreases e, 1nat, 0nat,
{
    match e {
        Expr::Call { callee, args, .. } => subset_effects(call_needs(callee.name@, funcs), decl)
            && sites_ok_args(e, args@.len(), decl, funcs),
        _ => true,
    }
}

/// Whether every call site in the first `n` arguments of the call `e`
/// needs only effects of `decl`.
pub open spec fn sites_ok_args(e: Expr, n: nat, decl: EffectSet, funcs: Seq<FnDecl>) -> bool
    decreases e, 0nat, n,
{
    if let Expr::Call { args, .. } = e {
        if n == 0 || n > args@.len() {
            true
        } else {
            sites_ok_args(e, (n - 1) as nat, decl, funcs) && sites_ok_expr(args@[n - 1], decl, funcs)
        }
    } else {
        true
    }
}

/// Whether every call site in `s` needs only effects of `decl`.
pub open spec fn sites_ok_stmt(s: Stmt, decl: EffectSet, funcs: Seq<FnDecl>) -> bool
    decreases s, 0nat,
{
    match s {
        Stmt::Let { expr, .. } => sites_ok_expr(expr, decl, funcs),
        Stmt::Return { expr, .. } => match expr {
            Some(e) => sites_ok_expr(e, decl, funcs),
            None => true,
        },
        Stmt::If { cond, then_blk, else_blk, .. } => sites_ok_expr(cond, decl, funcs)
            && sites_ok_stmts(then_blk.stmts@, then_blk.stmts@.len(), decl, funcs) && match else_blk {
            Some(b) => sites_ok_stmts(b.stmts@, b.stmts@.len(), decl, funcs),
            None => true,
        },
        Stmt::Expr { expr, .. } => sites_ok_expr(expr, decl, funcs),
    }
}

/// Whether every call site in the first `n` statements needs only effects
/// of `decl`.
pub open spec fn sites_ok_stmts(ss: Seq<Stmt>, n: nat, decl: EffectSet, funcs: Seq<FnDecl>) -> bool
    decreases ss, n,
{
    if n == 0 || n > ss.len() {
        true
    } else {
        sites_ok_stmts(ss, (n - 1) as nat, decl, funcs) && sites_ok_stmt(ss[n - 1], decl, funcs)
    }
}

/// Whether every call site in the body of `f` needs only effects that `f`
/// declares.
pub open spec fn sites_ok_fn(f: FnDecl, funcs: Seq<FnDecl>) -> bool {
    sites_ok_stmts(f.body.stmts@, f.body.stmts@.len(), declared(f), funcs)
}

proof fn lemma_effect_clean_concat(a: Seq<DiagV>, b: Seq<DiagV>)
    ensures
        effect_clean(a + b) == (effect_clean(a) && effect_clean(b)),
{
    if effect_clean(a) && effect_clean(b) {
        assert forall|i: int| 0 <= i < (a + b).len() implies !is_effect_code(#[trigger] (a + b)[i].code) by {
            if i >= a.len() {
                assert((a + b)[i] == b[i - a.len()]);
            }
        }
    }
    if effect_clean(a + b) {
        assert forall|i: int| 0 <= i < a.len() implies !is_effect_code(#[trigger] a[i].code) by {
            assert((a + b)[i] == a[i]);
        }
        assert forall|i: int| 0 <= i < b.len() implies !is_effect_code(#[trigger] b[i].code) by {
            assert((a + b)[i + a.len()] == b[i]);
        }
    }
}

/// The codes of the other typing rules are not effect codes.
proof fn lemma_other_codes()
    ensures
        !is_effect_code("name-unknown"@),
        !is_effect_code("use-after-move"@),
        !is_effect_code("call-arity"@),
        !is_effect_code("type-unknown"@),
        !is_effect_code("type-mismatch"@),
        !is_effect_code("secret-copy"@),
        !is_effect_code("return-mismatch"@),
        !is_effect_code("if-cond-not-bool"@),
        !is_effect_code("secret-branch"@),
        is_effect_code("undeclared-effect"@),
        is_effect_code("effect-leak"@),
{
    reveal_strlit("undeclared-effect");
    reveal_strlit("effect-leak");
    reveal_strlit("name-unknown");
    reveal_strlit("use-after-move");
    reveal_strlit("call-arity");
    reveal_strlit("type-unknown");
    reveal_strlit("type-mismatch");
    reveal_strlit("secret-copy");
    reveal_strlit("return-mismatch");
    reveal_strlit("if-cond-not-bool");
    reveal_strlit("secret-branch");
    assert("secret-copy"@[0] != "effect-leak"@[0]);
    assert("name-unknown"@[0] != "undeclared-effect"@[0]);
    assert("name-unknown"@[0] != "effect-leak"@[0]);
    assert("use-after-move"@[1] != "undeclared-effect"@[1]);
    assert("use-after-move"@[0] != "effect-leak"@[0]);
}

proof fn lemma_expr_effects(e: Expr, env: EnvV, f: FnDecl, funcs: Seq<FnDecl>)
    ensures
        effect_clean(check_expr(e, env, f, funcs).diags) == sites_ok_expr(e, declared(f), funcs),
    decreases e, 1nat, 0nat,
{
    lemma_other_codes();
    let c = check_expr(e, env, f, funcs);
    match e {
        Expr::Call { callee, args, span } => {
            lemma_args_effects(e, args@.len(), env, f, funcs);
            let a = check_args(e, args@.len(), env, f, funcs);
            let x = callee.name@;
            let decl = declared(f);
            let head = c.diags.subrange(0, c.diags.len() - a.diags.len());
            if x == "log"@ || x == "now"@ || x == "rand"@ {
                let eff = if x == "log"@ {
                    crate::ast::Effect::Io
                } else if x == "now"@ {
                    crate::ast::Effect::Time
                } else {
                    crate::ast::Effect::Rand
                };
                let ok = if x == "log"@ {
                    args@.len() == 1
                } else {
                    args@.len() == 0
                };
                let msg = if x == "log"@ {
                    "log expects exactly 1 argument."@
                } else if x == "now"@ {
                    "now expects 0 arguments."@
                } else {
                    "rand expects 0 arguments."@
                };
                let req = require_effect_diags(eff, span@, f);
                let ar = arity_diags(ok, msg, callee.span@);
                assert(c.diags == req + ar + a.diags);
                assert(head == req + ar);
                lemma_effect_clean_concat(req, ar);
                if !has_effect(decl, eff) {
                    assert(is_effect_code(req[0].code));
                }
                assert(effect_clean(ar));
                assert(effect_clean(head) == subset_effects(call_needs(x, funcs), decl));
            } else {
                let h = match find_fn(funcs, x, funcs.len()) {
                    None => seq![name_unknown_v(x, callee.span@)],
                    Some(j) => leak_diags(x, declared(funcs[j]), span@, f),
                };
                assert(c.diags == h + a.diags);
                assert(head == h);
                if let Some(j) = find_fn(funcs, x, funcs.len()) {
                    if !subset_effects(declared(funcs[j]), decl) {
                        assert(is_effect_code(h[0].code));
                    }
                }
                assert(effect_clean(head) == subset_effects(call_needs(x, funcs), decl));
            }
            assert(c.diags == head + a.diags);
            lemma_effect_clean_concat(head, a.diags);
        },
        _ => {
            assert(c.diags.len() <= 1);
            if c.diags.len() == 1 {
                assert(!is_effect_code(c.diags[0].code));
            }
        },
    }
}

proof fn lemma_args_effects(e: Expr, n: nat, env: EnvV, f: FnDecl, funcs: Seq<FnDecl>)
    requires
        e is Call,
        n <= e->Call_args@.len(),
    ensures
        effect_clean(check_args(e, n, env, f, funcs).diags) == sites_ok_args(e, n, declared(f), funcs),
    decreases e, 0nat, n,
{
    let args = e->Call_args@;
    if n > 0 {
        let prev = check_args(e, (n - 1) as nat, env, f, funcs);
        lemma_args_effects(e, (n - 1) as nat, env, f, funcs);
        assert(decreases_to!(e => e->Call_args));
        assert(decreases_to!(e->Call_args => e->Call_args@));
        lemma_expr_effects(args[n - 1], prev.env, f, funcs);
        let cur = check_expr(args[n - 1], prev.env, f, funcs);
        lemma_effect_clean_concat(prev.diags, cur.diags);
    }
}

proof fn lemma_stmt_effects(s: Stmt, env: EnvV, f: FnDecl, funcs: Seq<FnDecl>)
    ensures
        effect_clean(check_stmt(s, env, f, funcs).diags) == sites_ok_stmt(s, declared(f), funcs),
    decreases s, 0nat,
{
    lemma_other_codes();
    let c = check_stmt(s, env, f, funcs);
    match s {
        Stmt::Let { name, ty, expr, .. } => {
            lemma_expr_effects(expr, env, f, funcs);
            let r = check_expr(expr, env, f, funcs);
            let ann = ann_diags(ty, r.ty.ty);
            let cp = copy_diags(name.name@, expr, r.ty);
            assert(c.diags == r.diags + ann + cp);
            lemma_effect_clean_concat(r.diags + ann, cp);
            lemma_effect_clean_concat(r.diags, ann);
            assert(effect_clean(ann));
            assert(effect_clean(cp));
        },
        Stmt::Return { expr, span } => {
            if expr is None {
                assert(c.diags.len() <= 1);
                if c.diags.len() == 1 {
                    assert(!is_effect_code(c.diags[0].code));
                }
            }
            if let Some(e) = expr {
                lemma_expr_effects(e, env, f, funcs);
                let r = check_expr(e, env, f, funcs);
                let tail = c.diags.subrange(r.diags.len() as int, c.diags.len() as int);
                assert(c.diags == r.diags + tail);
                lemma_effect_clean_concat(r.diags, tail);
                assert(effect_clean(tail));
            }
        },
        Stmt::If { cond, then_blk, else_blk, .. } => {
            lemma_expr_effects(cond, env, f, funcs);
            let r = check_expr(cond, env, f, funcs);
            let d1 = if r.ty.ty != Ty::Bool && r.ty.ty != Ty::Unknown {
                seq![
                    crate::diagnostics::error_v(
                        "if-cond-not-bool"@,
                        "If condition must be Bool, got "@ + ty_text(r.ty.ty) + "."@,
                        cond.spec_span()@,
                    ),
                ]
            } else {
                Seq::empty()
            };
            let d2 = if r.ty.is_secret {
                seq![
                    crate::diagnostics::error_v(
                        "secret-branch"@,
                        "Branching on secret data is forbidden."@,
                        cond.spec_span()@,
                    ),
                ]
            } else {
                Seq::empty()
            };
            lemma_stmts_effects(then_blk.stmts@, then_blk.stmts@.len(), r.env, f, funcs);
            let t = check_stmts(then_blk.stmts@, then_blk.stmts@.len(), r.env, f, funcs);
            lemma_effect_clean_concat(r.diags, d1);
            lemma_effect_clean_concat(r.diags + d1, d2);
            lemma_effect_clean_concat(r.diags + d1 + d2, t.diags);
            assert(effect_clean(d1));
            assert(effect_clean(d2));
            match else_blk {
                None => {},
                Some(b) => {
                    lemma_stmts_effects(b.stmts@, b.stmts@.len(), t.env, f, funcs);
                    let u = check_stmts(b.stmts@, b.stmts@.len(), t.env, f, funcs);
                    lemma_effect_clean_concat(r.diags + d1 + d2 + t.diags, u.diags);
                },
            }
        },
        Stmt::Expr { expr, .. } => {
            lemma_expr_effects(expr, env, f, funcs);
        },
    }
}

proof fn lemma_stmts_effects(ss: Seq<Stmt>, n: nat, env: EnvV, f: FnDecl, funcs: Seq<FnDecl>)
    requires
        n <= ss.len(),
    ensures
        effect_clean(check_stmts(ss, n, env, f, funcs).diags) == sites_ok_stmts(ss, n, declared(f), funcs),
    decreases ss, n,
{
    if n > 0 {
        let prev = check_stmts(ss, (n - 1) as nat, env, f, funcs);
        lemma_stmts_effects(ss, (n - 1) as nat, env, f, funcs);
        lemma_stmt_effects(ss[n - 1], prev.env, f, funcs);
        let cur = check_stmt(ss[n - 1], prev.env, f, funcs);
        lemma_effect_clean_concat(prev.diags, cur.diags);
    }
}

proof fn lemma_param_diags_clean(ps: Seq<crate::ast::Param>, n: nat)
    ensures
        effect_clean(param_diags(ps, n)),
    decreases n,
{
    lemma_other_codes();
    if n > 0 {
        lemma_param_diags_clean(ps, (n - 1) as nat);
    }
}

/// Effect discipline: checking a function reports no `undeclared-effect`
/// and no `effect-leak` exactly when every call site in its body needs
/// only effects that the function declares.
pub proof fn law_effects_exact(f: FnDecl, funcs: Seq<FnDecl>)
    ensures
        effect_clean(check_fn(f, funcs)) == sites_ok_fn(f, funcs),
{
    let ps = f.params@;
    lemma_param_diags_clean(ps, ps.len());
    lemma_stmts_effects(f.body.stmts@, f.body.stmts@.len(), param_env(ps, ps.len()), f, funcs);
    lemma_effect_clean_concat(
        param_diags(ps, ps.len()),
        check_stmts(f.body.stmts@, f.body.stmts@.len(), param_env(ps, ps.len()), f, funcs).diags,
    );
}

proof fn lemma_has_code_concat(a: Seq<DiagV>, b: Seq<DiagV>, c: Seq<char>)
    ensures
        has_code(a + b, c) == (has_code(a, c) || has_code(b, c)),
{
    if has_code(a + b, c) {
        let i = choose|i: int| 0 <= i < (a + b).len() && (#[trigger] (a + b)[i]).code == c;
        if i < a.len() {
            assert(a[i] == (a + b)[i]);
        } else {
            assert(b[i - a.len()] == (a + b)[i]);
        }
    }
    if has_code(a, c) {
        let i = choose|i: int| 0 <= i < a.len() && (#[trigger] a[i]).code == c;
        assert((a + b)[i] == a[i]);
    }
    if has_code(b, c) {
        let i = choose|i: int| 0 <= i < b.len() && (#[trigger] b[i]).code == c;
        assert((a + b)[i + a.len()] == b[i]);
    }
}

proof fn lemma_secret_copy_code()
    ensures
        "secret-copy"@ != "name-unknown"@,
        "secret-copy"@ != "use-after-move"@,
        "secret-copy"@ != "type-unknown"@,
        "secret-copy"@ != "type-mismatch"@,
{
    reveal_strlit("secret-copy");
    reveal_strlit("name-unknown");
    reveal_strlit("use-after-move");
    reveal_strlit("type-unknown");
    reveal_strlit("type-mismatch");
    assert("secret-copy"@[0] != "name-unknown"@[0]);
    assert("secret-copy"@[0] != "use-after-move"@[0]);
    assert("secret-copy"@[0] != "type-unknown"@[0]);
    assert("secret-copy"@[0] != "type-mismatch"@[0]);
}

/// Secret linearity, copying: `let b = x;` where the latest binding of `x`
/// is secret and not moved reports `secret-copy`.
pub proof fn law_bare_secret_read_is_copy(s: Stmt, env: EnvV, f: FnDecl, funcs: Seq<FnDecl>)
    requires
        s is Let,
        s->Let_expr is Var,
        lookup(env, s->Let_expr->Var_name.name@) matches Some(k) && env[k].1.is_secret
            && !env[k].1.moved,
    ensures
        has_code(check_stmt(s, env, f, funcs).diags, "secret-copy"@),
{
    let c = check_stmt(s, env, f, funcs);
    let r = check_expr(s->Let_expr, env, f, funcs);
    assert(r.ty.is_secret && r.ty.copied_secret);
    let cp = copy_diags(s->Let_name.name@, s->Let_expr, r.ty);
    assert(c.diags == r.diags + ann_diags(s->Let_ty, r.ty.ty) + cp);
    assert(c.diags[c.diags.len() - 1] == cp[0]);
}

/// Secret linearity, moving: `let b = move(x);` never reports
/// `secret-copy`.
pub proof fn law_move_is_not_copy(s: Stmt, env: EnvV, f: FnDecl, funcs: Seq<FnDecl>)
    requires
        s is Let,
        s->Let_expr is Move,
    ensures
        !has_code(check_stmt(s, env, f, funcs).diags, "secret-copy"@),
{
    lemma_secret_copy_code();
    let c = check_stmt(s, env, f, funcs);
    let r = check_expr(s->Let_expr, env, f, funcs);
    let ann = ann_diags(s->Let_ty, r.ty.ty);
    let cp = copy_diags(s->Let_name.name@, s->Let_expr, r.ty);
    assert(!r.ty.copied_secret);
    assert(cp.len() == 0);
    assert(c.diags == r.diags + ann + cp);
    lemma_has_code_concat(r.diags + ann, cp, "secret-copy"@);
    lemma_has_code_concat(r.diags, ann, "secret-copy"@);
    assert(!has_code(r.diags, "secret-copy"@)) by {
        if r.diags.len() > 0 {
            assert(r.diags.len() == 1);
        }
    }
    assert(!has_code(ann, "secret-copy"@)) by {
        if ann.len() > 0 {
            assert(ann.len() == 1);
        }
    }
}

proof fn lemma_lookup_update(env: EnvV, x: Seq<char>, n: nat, k: int, v: VarInfo)
    requires
        0 <= k < env.len(),
        n <= env.len(),
    ensures
        lookup_in(env.update(k, (env[k].0, v)), x, n) == lookup_in(env, x, n),
    decreases n,
{
    if n > 0 {
        lemma_lookup_update(env, x, (n - 1) as nat, k, v);
    }
}

/// Secret linearity, moved values: after `move(x)`, reading `x` again, by
/// bare name or by another `move`, reports `use-after-move` and nothing else.
pub proof fn law_use_after_move(
    x: Seq<char>,
    mv: Expr,
    again: Expr,
    env: EnvV,
    f: FnDecl,
    funcs: Seq<FnDecl>,
)
    requires
        mv is Move,
        mv->Move_name.name@ == x,
        (again is Var && again->Var_name.name@ == x) || (again is Move && again->Move_name.name@
            == x),
        lookup(env, x) is Some,
    ensures
        ({
            let after = check_expr(mv, env, f, funcs).env;
            let sp = if again is Var {
                again->Var_name.span@
            } else {
                again->Move_name.span@
            };
            check_expr(again, after, f, funcs).diags == seq![use_after_move_v(x, sp)]
        }),
{
    let k = lookup(env, x)->0;
    lemma_lookup_in_range(env, x, env.len());
    let after = check_expr(mv, env, f, funcs).env;
    if !env[k].1.moved {
        lemma_lookup_update(env, x, env.len(), k, VarInfo { moved: true, ..env[k].1 });
        assert(after == env.update(k, (env[k].0, VarInfo { moved: true, ..env[k].1 })));
    }
    assert(lookup(after, x) == Some(k));
    assert(after[k].1.moved);
}

} // verus!
