//! The undeclared-rule diagnostics of a grammar are exactly its references
//! to undeclared rules, one for one and in order.
use vstd::prelude::*;
use crate::ast::{
    DiagModel, DiagnosticKind, EvaluationContext, Expression, ExpressionNode, Grammar, TypeStyle,
};
use crate::diagnostics::{children_diags, expr_diags, grammar_diags, rule_diags};
use crate::pipeline::{body_ctx, grammar_refs};
use crate::resolve::{RefModel, children_refs, ref_ctxs};
use crate::typing::declared;

verus! {

/// Names carried by the undeclared-rule diagnostics of `ds`, in order.
pub open spec fn undeclared_in(ds: Seq<DiagModel>) -> Seq<Seq<char>>
    decreases ds.len(),
{
    if ds.len() == 0 {
        Seq::empty()
    } else if ds.last().0 == DiagnosticKind::UndeclaredRule {
        undeclared_in(ds.drop_last()).push(ds.last().2)
    } else {
        undeclared_in(ds.drop_last())
    }
}

/// Names of the references of `rs` to rules that `g` does not declare, in order.
pub open spec fn undeclared_refs(rs: Seq<RefModel>, g: Grammar) -> Seq<Seq<char>>
    decreases rs.len(),
{
    if rs.len() == 0 {
        Seq::empty()
    } else if !declared(g, rs.last().0) {
        undeclared_refs(rs.drop_last(), g).push(rs.last().0)
    } else {
        undeclared_refs(rs.drop_last(), g)
    }
}

proof fn lemma_undeclared_in_add(a: Seq<DiagModel>, b: Seq<DiagModel>)
    ensures
        undeclared_in(a + b) == undeclared_in(a) + undeclared_in(b),
    decreases b.len(),
{
    if b.len() == 0 {
        assert(a + b =~= a);
        assert(undeclared_in(b) =~= Seq::<Seq<char>>::empty());
        assert(undeclared_in(a) + undeclared_in(b) =~= undeclared_in(a));
    } else {
        lemma_undeclared_in_add(a, b.drop_last());
        assert((a + b).drop_last() =~= a + b.drop_last());
        assert((a + b).last() == b.last());
        assert(undeclared_in(a) + undeclared_in(b.drop_last()).push(b.last().2) =~= (
        undeclared_in(a) + undeclared_in(b.drop_last())).push(b.last().2));
    }
}

proof fn lemma_undeclared_refs_add(a: Seq<RefModel>, b: Seq<RefModel>, g: Grammar)
    ensures
        undeclared_refs(a + b, g) == undeclared_refs(a, g) + undeclared_refs(b, g),
    decreases b.len(),
{
    if b.len() == 0 {
        assert(a + b =~= a);
        assert(undeclared_refs(b, g) =~= Seq::<Seq<char>>::empty());
        assert(undeclared_refs(a, g) + undeclared_refs(b, g) =~= undeclared_refs(a, g));
    } else {
        lemma_undeclared_refs_add(a, b.drop_last(), g);
        assert((a + b).drop_last() =~= a + b.drop_last());
        assert((a + b).last() == b.last());
        assert(undeclared_refs(a, g) + undeclared_refs(b.drop_last(), g).push(b.last().0) =~= (
        undeclared_refs(a, g) + undeclared_refs(b.drop_last(), g)).push(b.last().0));
    }
}

proof fn lemma_expr_undeclared(
    e: Expression,
    g: Grammar,
    u: Set<Seq<char>>,
    check: bool,
    rule: Seq<char>,
    ctx: EvaluationContext,
)
    ensures
        undeclared_in(expr_diags(e, g, u, check, rule)) == undeclared_refs(ref_ctxs(e, ctx), g),
    decreases e, 0int,
{
    match e.node {
        ExpressionNode::NonTerminalSymbol(id) => {
            reveal_with_fuel(undeclared_in, 2);
            reveal_with_fuel(undeclared_refs, 2);
            let one = seq![(id@, ctx)];
            assert(one.drop_last() =~= Seq::<RefModel>::empty());
            if declared(g, id@) {
                assert(undeclared_refs(one, g) =~= Seq::<Seq<char>>::empty());
            } else {
                let d = seq![(DiagnosticKind::UndeclaredRule, e.span, id@)];
                assert(d.drop_last() =~= Seq::<DiagModel>::empty());
                assert(undeclared_in(d) =~= seq![id@]);
                assert(undeclared_refs(one, g) =~= seq![id@]);
            }
        },
        ExpressionNode::ZeroOrMore(c) => lemma_expr_undeclared(*c, g, u, check, rule, ctx),
        ExpressionNode::OneOrMore(c) => lemma_expr_undeclared(*c, g, u, check, rule, ctx),
        ExpressionNode::Optional(c) => lemma_expr_undeclared(*c, g, u, check, rule, ctx),
        ExpressionNode::NotPredicate(c) => lemma_expr_undeclared(
            *c,
            g,
            u,
            check,
            rule,
            EvaluationContext::UnValued,
        ),
        ExpressionNode::AndPredicate(c) => lemma_expr_undeclared(
            *c,
            g,
            u,
            check,
            rule,
            EvaluationContext::UnValued,
        ),
        ExpressionNode::Sequence(cs) => lemma_children_undeclared(
            cs,
            cs.len() as int,
            g,
            u,
            check,
            rule,
            ctx,
        ),
        ExpressionNode::Choice(cs) => {
            lemma_children_undeclared(cs, cs.len() as int, g, u, check, rule, ctx);
            reveal_with_fuel(undeclared_in, 2);
            let amb = seq![(DiagnosticKind::AmbiguousChoiceType, e.span, rule)];
            assert(amb.drop_last() =~= Seq::<DiagModel>::empty());
            assert(undeclared_in(amb) =~= Seq::<Seq<char>>::empty());
            assert(undeclared_in(Seq::<DiagModel>::empty()) =~= Seq::<Seq<char>>::empty());
            lemma_undeclared_in_add(amb, children_diags(cs, cs.len() as int, g, u, check, rule));
            lemma_undeclared_in_add(
                Seq::<DiagModel>::empty(),
                children_diags(cs, cs.len() as int, g, u, check, rule),
            );
            assert(Seq::<Seq<char>>::empty() + undeclared_in(
                children_diags(cs, cs.len() as int, g, u, check, rule),
            ) =~= undeclared_in(children_diags(cs, cs.len() as int, g, u, check, rule)));
        },
        _ => {
            assert(undeclared_in(Seq::<DiagModel>::empty()) =~= Seq::<Seq<char>>::empty());
            assert(undeclared_refs(Seq::<RefModel>::empty(), g) =~= Seq::<Seq<char>>::empty());
        },
    }
}

proof fn lemma_children_undeclared(
    cs: Vec<Expression>,
    n: int,
    g: Grammar,
    u: Set<Seq<char>>,
    check: bool,
    rule: Seq<char>,
    ctx: EvaluationContext,
)
    ensures
        undeclared_in(children_diags(cs, n, g, u, check, rule)) == undeclared_refs(
            children_refs(cs, n, ctx),
            g,
        ),
    decreases cs, n,
{
    if n <= 0 || n > cs.len() {
        assert(undeclared_in(Seq::<DiagModel>::empty()) =~= Seq::<Seq<char>>::empty());
        assert(undeclared_refs(Seq::<RefModel>::empty(), g) =~= Seq::<Seq<char>>::empty());
    } else {
        vstd::std_specs::vec::axiom_vec_index_decreases(cs, n - 1);
        lemma_children_undeclared(cs, n - 1, g, u, check, rule, ctx);
        lemma_expr_undeclared(cs[n - 1], g, u, check, rule, ctx);
        lemma_undeclared_in_add(
            children_diags(cs, n - 1, g, u, check, rule),
            expr_diags(cs[n - 1], g, u, check, rule),
        );
        lemma_undeclared_refs_add(children_refs(cs, n - 1, ctx), ref_ctxs(cs[n - 1], ctx), g);
    }
}

proof fn lemma_grammar_undeclared(g: Grammar, u: Set<Seq<char>>, n: int)
    ensures
        undeclared_in(grammar_diags(g, u, n)) == undeclared_refs(grammar_refs(g, u, n), g),
    decreases n,
{
    if n <= 0 || n > g.rules.len() {
        assert(undeclared_in(Seq::<DiagModel>::empty()) =~= Seq::<Seq<char>>::empty());
        assert(undeclared_refs(Seq::<RefModel>::empty(), g) =~= Seq::<Seq<char>>::empty());
    } else {
        let i = n - 1;
        let r = g.rules[i];
        lemma_grammar_undeclared(g, u, i);
        lemma_undeclared_in_add(grammar_diags(g, u, i), rule_diags(g, i, u));
        lemma_undeclared_refs_add(grammar_refs(g, u, i), ref_ctxs(r.def, body_ctx(g, i, u)), g);
        match r.style {
            TypeStyle::Inline => lemma_expr_undeclared(r.def, g, u, true, r.name@, body_ctx(g, i, u)),
            TypeStyle::New(_) => lemma_expr_undeclared(
                r.def,
                g,
                u,
                false,
                r.name@,
                body_ctx(g, i, u),
            ),
            TypeStyle::Invisible => lemma_expr_undeclared(
                r.def,
                g,
                u,
                false,
                r.name@,
                body_ctx(g, i, u),
            ),
            TypeStyle::Annotated(t) => {
                lemma_expr_undeclared(r.def, g, u, false, r.name@, body_ctx(g, i, u));
                let tail = rule_diags(g, i, u).subrange(
                    expr_diags(r.def, g, u, false, r.name@).len() as int,
                    rule_diags(g, i, u).len() as int,
                );
                assert(rule_diags(g, i, u) =~= expr_diags(r.def, g, u, false, r.name@) + tail);
                reveal_with_fuel(undeclared_in, 2);
                assert(tail.len() <= 1);
                if tail.len() == 1 {
                    assert(tail[0].0 == DiagnosticKind::IncompatibleAnnotation);
                    assert(tail.drop_last() =~= Seq::<DiagModel>::empty());
                }
                assert(undeclared_in(tail) =~= Seq::<Seq<char>>::empty());
                lemma_undeclared_in_add(expr_diags(r.def, g, u, false, r.name@), tail);
                assert(undeclared_in(expr_diags(r.def, g, u, false, r.name@)) + Seq::<
                    Seq<char>,
                >::empty() =~= undeclared_in(expr_diags(r.def, g, u, false, r.name@)));
            },
        }
    }
}

/// A grammar whose only reference to an undeclared rule names `name` gets
/// exactly one undeclared-rule diagnostic, and it names `name`; so typing
/// it reports diagnostics.
pub proof fn lemma_one_undeclared(g: Grammar, u: Set<Seq<char>>, name: Seq<char>)
    requires
        undeclared_refs(grammar_refs(g, u, g.rules.len() as int), g) == seq![name],
    ensures
        undeclared_in(grammar_diags(g, u, g.rules.len() as int)) == seq![name],
        grammar_diags(g, u, g.rules.len() as int).len() > 0,
{
    lemma_grammar_undeclared(g, u, g.rules.len() as int);
    let ds = grammar_diags(g, u, g.rules.len() as int);
    if ds.len() == 0 {
        assert(undeclared_in(ds) =~= Seq::<Seq<char>>::empty());
        assert(seq![name].len() == 1);
    }
}

} // verus!
