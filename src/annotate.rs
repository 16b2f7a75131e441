//! The side table of node types: the type of every node of an expression
//! tree, in pre-order, so that node identity is its position in that order.
use vstd::prelude::*;
use crate::ast::{EvaluationContext, Expression, ExpressionNode, Grammar};
use crate::ty::{ExprTy, Ty};
use crate::typing::{expr_ty, type_of_expr, unit_set};

verus! {

/// Types of `e` and of every node below it, in pre-order.
pub open spec fn node_tys(e: Expression, u: Set<Seq<char>>) -> Seq<Ty>
    decreases e, 0int,
{
    seq![expr_ty(e, u)] + match e.node {
        ExpressionNode::ZeroOrMore(c) => node_tys(*c, u),
        ExpressionNode::OneOrMore(c) => node_tys(*c, u),
        ExpressionNode::Optional(c) => node_tys(*c, u),
        ExpressionNode::NotPredicate(c) => node_tys(*c, u),
        ExpressionNode::AndPredicate(c) => node_tys(*c, u),
        ExpressionNode::Sequence(cs) => children_node_tys(cs, cs.len() as int, u),
        ExpressionNode::Choice(cs) => children_node_tys(cs, cs.len() as int, u),
        _ => Seq::empty(),
    }
}

pub open spec fn children_node_tys(cs: Vec<Expression>, n: int, u: Set<Seq<char>>) -> Seq<Ty>
    decreases cs, n,
{
    if n <= 0 || n > cs.len() {
        Seq::empty()
    } else {
        children_node_tys(cs, n - 1, u) + node_tys(cs[n - 1], u)
    }
}

/// Contexts of `e` and of every node below it, in pre-order, when the value
/// of `e` is used in context `ctx`: predicates discard the values of what
/// they contain, and every other node passes its context on.
pub open spec fn node_ctxs(e: Expression, ctx: EvaluationContext) -> Seq<EvaluationContext>
    decreases e, 0int,
{
    seq![ctx] + match e.node {
        ExpressionNode::ZeroOrMore(c) => node_ctxs(*c, ctx),
        ExpressionNode::OneOrMore(c) => node_ctxs(*c, ctx),
        ExpressionNode::Optional(c) => node_ctxs(*c, ctx),
        ExpressionNode::NotPredicate(c) => node_ctxs(*c, EvaluationContext::UnValued),
        ExpressionNode::AndPredicate(c) => node_ctxs(*c, EvaluationContext::UnValued),
        ExpressionNode::Sequence(cs) => children_node_ctxs(cs, cs.len() as int, ctx),
        ExpressionNode::Choice(cs) => children_node_ctxs(cs, cs.len() as int, ctx),
        _ => Seq::empty(),
    }
}

pub open spec fn children_node_ctxs(cs: Vec<Expression>, n: int, ctx: EvaluationContext) -> Seq<
    EvaluationContext,
>
    decreases cs, n,
{
    if n <= 0 || n > cs.len() {
        Seq::empty()
    } else {
        children_node_ctxs(cs, n - 1, ctx) + node_ctxs(cs[n - 1], ctx)
    }
}

/// Appends the contexts of `e` and of every node below it, in pre-order.
pub fn annotate_contexts(e: &Expression, ctx: EvaluationContext, out: &mut Vec<EvaluationContext>)
    ensures
        final(out)@ == old(out)@ + node_ctxs(*e, ctx),
    decreases e,
{
    let ghost before = out@;
    out.push(ctx);
    let ghost head = out@;
    match &e.node {
        ExpressionNode::NotPredicate(c) | ExpressionNode::AndPredicate(c) => {
            annotate_contexts(c, EvaluationContext::UnValued, out);
        },
        ExpressionNode::ZeroOrMore(c) | ExpressionNode::OneOrMore(c) | ExpressionNode::Optional(c) => {
            annotate_contexts(c, ctx, out);
        },
        ExpressionNode::Sequence(cs) | ExpressionNode::Choice(cs) => {
            proof {
                assert(head =~= head + children_node_ctxs(*cs, 0, ctx));
            }
            let mut i: usize = 0;
            while i < cs.len()
                invariant
                    0 <= i <= cs.len(),
                    e.node is Sequence ==> e.node->Sequence_0 == *cs,
                    e.node is Choice ==> e.node->Choice_0 == *cs,
                    e.node is Sequence || e.node is Choice,
                    out@ == head + children_node_ctxs(*cs, i as int, ctx),
                decreases cs.len() - i,
            {
                proof {
                    vstd::std_specs::vec::axiom_vec_index_decreases(*cs, i as int);
                    assert(decreases_to!(*e => e.node));
                    if e.node is Sequence {
                        assert(decreases_to!(e.node => e.node->Sequence_0));
                    } else {
                        assert(decreases_to!(e.node => e.node->Choice_0));
                    }
                }
                annotate_contexts(&cs[i], ctx, out);
                proof {
                    assert(out@ =~= head + children_node_ctxs(*cs, i + 1, ctx));
                }
                i = i + 1;
            }
        },
        _ => {},
    }
    proof {
        assert(out@ =~= before + node_ctxs(*e, ctx));
    }
}

pub open spec fn ty_views(ts: Seq<ExprTy>) -> Seq<Ty> {
    ts.map_values(|t: ExprTy| t@)
}

/// Appends the types of `e` and of every node below it, in pre-order.
pub fn annotate_expr(g: &Grammar, flags: &Vec<bool>, e: &Expression, out: &mut Vec<ExprTy>)
    requires
        flags.len() == g.rules.len(),
    ensures
        ty_views(final(out)@) == ty_views(old(out)@) + node_tys(*e, unit_set(*g, flags@)),
    decreases e,
{
    let ghost u = unit_set(*g, flags@);
    let ghost before = ty_views(out@);
    let t = type_of_expr(g, flags, e);
    let ghost pushed = out@.push(t);
    out.push(t);
    proof {
        assert(ty_views(pushed) =~= before + seq![expr_ty(*e, u)]);
    }
    let ghost head = ty_views(out@);
    match &e.node {
        ExpressionNode::ZeroOrMore(c) | ExpressionNode::OneOrMore(c) | ExpressionNode::Optional(c)
        | ExpressionNode::NotPredicate(c) | ExpressionNode::AndPredicate(c) => {
            annotate_expr(g, flags, c, out);
            proof {
                assert(ty_views(out@) =~= before + node_tys(*e, u));
            }
        },
        ExpressionNode::Sequence(cs) | ExpressionNode::Choice(cs) => {
            proof {
                assert(head =~= head + children_node_tys(*cs, 0, u));
            }
            let mut i: usize = 0;
            while i < cs.len()
                invariant
                    0 <= i <= cs.len(),
                    flags.len() == g.rules.len(),
                    u == unit_set(*g, flags@),
                    e.node is Sequence ==> e.node->Sequence_0 == *cs,
                    e.node is Choice ==> e.node->Choice_0 == *cs,
                    e.node is Sequence || e.node is Choice,
                    ty_views(out@) == head + children_node_tys(*cs, i as int, u),
                decreases cs.len() - i,
            {
                proof {
                    vstd::std_specs::vec::axiom_vec_index_decreases(*cs, i as int);
                    assert(decreases_to!(*e => e.node));
                    if e.node is Sequence {
                        assert(decreases_to!(e.node => e.node->Sequence_0));
                    } else {
                        assert(decreases_to!(e.node => e.node->Choice_0));
                    }
                }
                annotate_expr(g, flags, &cs[i], out);
                proof {
                    assert(ty_views(out@) =~= head + children_node_tys(*cs, i + 1, u));
                }
                i = i + 1;
            }
            proof {
                assert(ty_views(out@) =~= before + node_tys(*e, u));
            }
        },
        _ => {
            proof {
                assert(ty_views(out@) =~= before + node_tys(*e, u));
            }
        },
    }
}

} // verus!
