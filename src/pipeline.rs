//! The typing of a whole grammar: inference, bottom-up normalization,
//! diagnostics and function-kind resolution.
use vstd::prelude::*;
use crate::ast::{Diagnostic, DiagnosticKind, EvaluationContext, Grammar, TypeStyle, TypedRule};
use crate::diagnostics::{collect_expr_diags, diag_views, grammar_diags, rule_diags};
use crate::normalize::{bottom_up_unit_inference, is_normal, normalize_iter, rule_is_unit, rule_ty};
use crate::resolve::{
    RefModel, Reference, collect_refs, context_of, kind_matches, ref_ctxs, ref_views, resolve_kind, rule_context,
};
use crate::annotate::{annotate_contexts, annotate_expr, node_ctxs, node_tys, ty_views};
use crate::ty::{ExprTy, is_unit_ty};
use crate::typing::{forwarding, type_of_expr, unit_set};

verus! {

/// No rule flagged.
pub open spec fn no_flags(n: int) -> Seq<bool> {
    Seq::new(n as nat, |i: int| false)
}

/// Context in which the body of rule `i` is evaluated.
pub open spec fn body_ctx(g: Grammar, i: int, u: Set<Seq<char>>) -> EvaluationContext {
    if is_unit_ty(rule_ty(g, i, u)) {
        EvaluationContext::UnValued
    } else {
        EvaluationContext::Both
    }
}

/// References inside the bodies of the first `n` rules, in order.
pub open spec fn grammar_refs(g: Grammar, u: Set<Seq<char>>, n: int) -> Seq<RefModel>
    decreases n,
{
    if n <= 0 || n > g.rules.len() {
        Seq::empty()
    } else {
        grammar_refs(g, u, n - 1) + ref_ctxs(g.rules[n - 1].def, body_ctx(g, n - 1, u))
    }
}

/// `rs` types the rules of `g` one for one when the rules flagged in `f`
/// are unit.
pub open spec fn typed_as(g: Grammar, f: Seq<bool>, rs: Seq<TypedRule>) -> bool {
    let u = unit_set(g, f);
    let refs = grammar_refs(g, u, g.rules.len() as int);
    &&& rs.len() == g.rules.len()
    &&& forall|i: int|
        0 <= i < rs.len() ==> {
            &&& (#[trigger] rs[i]).name@ == g.rules[i].name@
            &&& rs[i].ty@ == rule_ty(g, i, u)
            &&& ty_views(rs[i].nodes@) == node_tys(g.rules[i].def, u)
            &&& rs[i].node_contexts@ == node_ctxs(g.rules[i].def, body_ctx(g, i, u))
            &&& rs[i].context == context_of(refs, g.rules[i].name@)
            &&& kind_matches(rs[i].kind, rule_ty(g, i, u), rs[i].context, rule_forwards(g, i, u))
        }
}

/// Whether rule `i` takes its type from its body, and that body forwards a
/// value unchanged.
pub open spec fn rule_forwards(g: Grammar, i: int, u: Set<Seq<char>>) -> bool {
    g.rules[i].style is Inline && forwarding(g.rules[i].def, u)
}

/// Whether rule `i` takes its type from a body that forwards a value unchanged.
pub fn rule_body_forwards(g: &Grammar, flags: &Vec<bool>, i: usize) -> (r: bool)
    requires
        flags.len() == g.rules.len(),
        i < g.rules.len(),
    ensures
        r == rule_forwards(*g, i as int, unit_set(*g, flags@)),
{
    match &g.rules[i].style {
        TypeStyle::Inline => g.rules[i].def.is_forwading_type(g, flags),
        _ => false,
    }
}

/// The type of rule `i` under the given flags.
pub fn rule_type(g: &Grammar, flags: &Vec<bool>, i: usize) -> (r: ExprTy)
    requires
        flags.len() == g.rules.len(),
        i < g.rules.len(),
    ensures
        r@ == rule_ty(*g, i as int, unit_set(*g, flags@)),
{
    match &g.rules[i].style {
        TypeStyle::Invisible => ExprTy::unit(),
        TypeStyle::New(n) => ExprTy::Action(n.declared_name()),
        TypeStyle::Annotated(t) => t.deep_copy(),
        TypeStyle::Inline => type_of_expr(g, flags, &g.rules[i].def),
    }
}

/// Appends the diagnostics of rule `i` to `out`.
fn collect_rule_diags(g: &Grammar, flags: &Vec<bool>, i: usize, out: &mut Vec<Diagnostic>)
    requires
        flags.len() == g.rules.len(),
        i < g.rules.len(),
    ensures
        diag_views(final(out)@) == diag_views(old(out)@) + rule_diags(
            *g,
            i as int,
            unit_set(*g, flags@),
        ),
{
    let rule = &g.rules[i];
    match &rule.style {
        TypeStyle::Inline => collect_expr_diags(g, flags, &rule.def, true, &rule.name, out),
        TypeStyle::Invisible | TypeStyle::New(_) => collect_expr_diags(
            g,
            flags,
            &rule.def,
            false,
            &rule.name,
            out,
        ),
        TypeStyle::Annotated(t) => {
            let ghost before = diag_views(out@);
            collect_expr_diags(g, flags, &rule.def, false, &rule.name, out);
            let body = type_of_expr(g, flags, &rule.def);
            let is_action = matches!(t, ExprTy::Action(_));
            if !is_action && !t.same_as(&body) {
                let d = Diagnostic {
                    kind: DiagnosticKind::IncompatibleAnnotation,
                    span: rule.span,
                    name: rule.name.clone(),
                };
                let ghost mid = out@;
                out.push(d);
                proof {
                    assert(diag_views(out@) =~= diag_views(mid).push(d@));
                    assert(diag_views(out@) =~= before + rule_diags(
                        *g,
                        i as int,
                        unit_set(*g, flags@),
                    ));
                }
            } else {
                proof {
                    assert(diag_views(out@) =~= before + rule_diags(
                        *g,
                        i as int,
                        unit_set(*g, flags@),
                    ));
                }
            }
        },
    }
}

/// Types every rule of the grammar. Rules become unit bottom-up until a
/// fixpoint is reached; then either every diagnostic of the grammar is
/// returned, or, where there is none, each rule's type, context and kind.
pub fn grammar_typing(g: &Grammar) -> (r: Result<Vec<TypedRule>, Vec<Diagnostic>>)
    requires
        g.wf(),
    ensures
        exists|k: nat|
            {
                let f = #[trigger] normalize_iter(*g, no_flags(g.rules.len() as int), k);
                let ds = grammar_diags(*g, unit_set(*g, f), g.rules.len() as int);
                &&& is_normal(*g, f)
                &&& match r {
                    Ok(rs) => ds.len() == 0 && typed_as(*g, f, rs@),
                    Err(es) => ds.len() > 0 && diag_views(es@) == ds,
                }
            },
{
    let n = g.rules.len();
    let mut start: Vec<bool> = Vec::new();
    let mut i: usize = 0;
    while i < n
        invariant
            0 <= i <= n,
            n == g.rules.len(),
            start@ == no_flags(i as int),
        decreases n - i,
    {
        start.push(false);
        proof {
            assert(start@ =~= no_flags(i + 1));
        }
        i = i + 1;
    }
    let flags = bottom_up_unit_inference(g, start);
    let ghost u = unit_set(*g, flags@);
    let mut diags: Vec<Diagnostic> = Vec::new();
    let mut i: usize = 0;
    while i < n
        invariant
            0 <= i <= n,
            n == g.rules.len(),
            flags.len() == n,
            u == unit_set(*g, flags@),
            diag_views(diags@) == grammar_diags(*g, u, i as int),
        decreases n - i,
    {
        collect_rule_diags(g, &flags, i, &mut diags);
        i = i + 1;
    }
    if diags.len() > 0 {
        return Err(diags);
    }
    let mut refs: Vec<Reference> = Vec::new();
    let mut i: usize = 0;
    while i < n
        invariant
            0 <= i <= n,
            n == g.rules.len(),
            flags.len() == n,
            u == unit_set(*g, flags@),
            ref_views(refs@) == grammar_refs(*g, u, i as int),
        decreases n - i,
    {
        let ctx = if rule_is_unit(g, &flags, i) {
            EvaluationContext::UnValued
        } else {
            EvaluationContext::Both
        };
        collect_refs(&g.rules[i].def, ctx, &mut refs);
        i = i + 1;
    }
    let ghost all_refs = grammar_refs(*g, u, n as int);
    let mut typed: Vec<TypedRule> = Vec::new();
    let mut i: usize = 0;
    while i < n
        invariant
            0 <= i <= n,
            n == g.rules.len(),
            flags.len() == n,
            u == unit_set(*g, flags@),
            ref_views(refs@) == all_refs,
            all_refs == grammar_refs(*g, u, n as int),
            typed.len() == i,
            forall|m: int|
                0 <= m < i ==> {
                    &&& (#[trigger] typed[m]).name@ == g.rules[m].name@
                    &&& typed[m].ty@ == rule_ty(*g, m, u)
                    &&& ty_views(typed[m].nodes@) == node_tys(g.rules[m].def, u)
                    &&& typed[m].node_contexts@ == node_ctxs(g.rules[m].def, body_ctx(*g, m, u))
                    &&& typed[m].context == context_of(all_refs, g.rules[m].name@)
                    &&& kind_matches(
                        typed[m].kind,
                        rule_ty(*g, m, u),
                        typed[m].context,
                        rule_forwards(*g, m, u),
                    )
                },
        decreases n - i,
    {
        let ty = rule_type(g, &flags, i);
        let context = rule_context(&refs, &g.rules[i].name);
        let forwards = rule_body_forwards(g, &flags, i);
        let kind = resolve_kind(&ty, context, forwards);
        let mut nodes: Vec<ExprTy> = Vec::new();
        annotate_expr(g, &flags, &g.rules[i].def, &mut nodes);
        proof {
            assert(ty_views(Seq::<ExprTy>::empty()) =~= Seq::<crate::ty::Ty>::empty());
            assert(Seq::<crate::ty::Ty>::empty() + node_tys(g.rules[i as int].def, u) =~= node_tys(
                g.rules[i as int].def,
                u,
            ));
        }
        let body = if rule_is_unit(g, &flags, i) {
            EvaluationContext::UnValued
        } else {
            EvaluationContext::Both
        };
        let mut node_contexts: Vec<EvaluationContext> = Vec::new();
        annotate_contexts(&g.rules[i].def, body, &mut node_contexts);
        proof {
            assert(Seq::<EvaluationContext>::empty() + node_ctxs(g.rules[i as int].def, body)
                =~= node_ctxs(g.rules[i as int].def, body));
        }
        typed.push(
            TypedRule { name: g.rules[i].name.clone(), ty, nodes, node_contexts, context, kind },
        );
        i = i + 1;
    }
    Ok(typed)
}

} // verus!
