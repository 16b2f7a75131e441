//! Collection of typing diagnostics, in rule order and, within a rule, in
//! the order of the expression tree.
use vstd::prelude::*;
use crate::ast::{
    Diagnostic, DiagModel, DiagnosticKind, Expression, ExpressionNode, Grammar, TypeStyle,
};
use crate::ty::Ty;
use crate::typing::{declared, expr_ty, is_declared, type_of_expr, unit_set};

verus! {

/// Whether every branch has the type of the first.
pub open spec fn branches_agree(cs: Vec<Expression>, u: Set<Seq<char>>) -> bool {
    forall|i: int| 0 <= i < cs.len() ==> #[trigger] expr_ty(cs[i], u) == expr_ty(cs[0], u)
}

/// Diagnostics of `e` inside rule `rule`; choices are checked for agreeing
/// branches only where `check` holds.
pub open spec fn expr_diags(
    e: Expression,
    g: Grammar,
    u: Set<Seq<char>>,
    check: bool,
    rule: Seq<char>,
) -> Seq<DiagModel>
    decreases e, 0int,
{
    match e.node {
        ExpressionNode::NonTerminalSymbol(id) => if declared(g, id@) {
            Seq::empty()
        } else {
            seq![(DiagnosticKind::UndeclaredRule, e.span, id@)]
        },
        ExpressionNode::ZeroOrMore(c) => expr_diags(*c, g, u, check, rule),
        ExpressionNode::OneOrMore(c) => expr_diags(*c, g, u, check, rule),
        ExpressionNode::Optional(c) => expr_diags(*c, g, u, check, rule),
        ExpressionNode::NotPredicate(c) => expr_diags(*c, g, u, check, rule),
        ExpressionNode::AndPredicate(c) => expr_diags(*c, g, u, check, rule),
        ExpressionNode::Sequence(cs) => children_diags(cs, cs.len() as int, g, u, check, rule),
        ExpressionNode::Choice(cs) => (if check && !branches_agree(cs, u) {
            seq![(DiagnosticKind::AmbiguousChoiceType, e.span, rule)]
        } else {
            Seq::empty()
        }) + children_diags(cs, cs.len() as int, g, u, check, rule),
        _ => Seq::empty(),
    }
}

/// Diagnostics of the first `n` expressions of `cs`, in order.
pub open spec fn children_diags(
    cs: Vec<Expression>,
    n: int,
    g: Grammar,
    u: Set<Seq<char>>,
    check: bool,
    rule: Seq<char>,
) -> Seq<DiagModel>
    decreases cs, n,
{
    if n <= 0 || n > cs.len() {
        Seq::empty()
    } else {
        children_diags(cs, n - 1, g, u, check, rule) + expr_diags(cs[n - 1], g, u, check, rule)
    }
}

/// Whether an explicit type conflicts with the type of the body: an action
/// type accepts any body.
pub open spec fn incompatible(annot: Ty, body: Ty) -> bool {
    !(annot is Action) && annot != body
}

/// Diagnostics of rule `i`. Only bodies whose type is inferred have their
/// choices checked; a newly named type accepts any body.
pub open spec fn rule_diags(g: Grammar, i: int, u: Set<Seq<char>>) -> Seq<DiagModel> {
    let r = g.rules[i];
    match r.style {
        TypeStyle::Inline => expr_diags(r.def, g, u, true, r.name@),
        TypeStyle::Invisible => expr_diags(r.def, g, u, false, r.name@),
        TypeStyle::New(_) => expr_diags(r.def, g, u, false, r.name@),
        TypeStyle::Annotated(t) => expr_diags(r.def, g, u, false, r.name@) + if incompatible(
            t@,
            expr_ty(r.def, u),
        ) {
            seq![(DiagnosticKind::IncompatibleAnnotation, r.span, r.name@)]
        } else {
            Seq::empty()
        },
    }
}

/// Diagnostics of the first `n` rules.
pub open spec fn grammar_diags(g: Grammar, u: Set<Seq<char>>, n: int) -> Seq<DiagModel>
    decreases n,
{
    if n <= 0 || n > g.rules.len() {
        Seq::empty()
    } else {
        grammar_diags(g, u, n - 1) + rule_diags(g, n - 1, u)
    }
}

pub open spec fn diag_views(ds: Seq<Diagnostic>) -> Seq<DiagModel> {
    ds.map_values(|d: Diagnostic| d@)
}

proof fn lemma_push_views(ds: Seq<Diagnostic>, d: Diagnostic)
    ensures
        diag_views(ds.push(d)) == diag_views(ds).push(d@),
{
    assert(diag_views(ds.push(d)) =~= diag_views(ds).push(d@));
}

fn push_diag(out: &mut Vec<Diagnostic>, kind: DiagnosticKind, span: crate::ast::Span, name: &String)
    ensures
        diag_views(final(out)@) == diag_views(old(out)@).push((kind, span, name@)),
{
    let d = Diagnostic { kind, span, name: name.clone() };
    proof {
        lemma_push_views(out@, d);
    }
    out.push(d);
}

/// Whether every branch has the type of the first.
pub fn choice_branches_agree(g: &Grammar, flags: &Vec<bool>, cs: &Vec<Expression>) -> (r: bool)
    requires
        flags.len() == g.rules.len(),
    ensures
        r == branches_agree(*cs, unit_set(*g, flags@)),
{
    if cs.len() == 0 {
        return true;
    }
    let first = type_of_expr(g, flags, &cs[0]);
    let mut i: usize = 1;
    while i < cs.len()
        invariant
            1 <= i <= cs.len(),
            flags.len() == g.rules.len(),
            first@ == expr_ty(cs[0], unit_set(*g, flags@)),
            forall|k: int|
                0 <= k < i ==> #[trigger] expr_ty(cs[k], unit_set(*g, flags@)) == expr_ty(
                    cs[0],
                    unit_set(*g, flags@),
                ),
        decreases cs.len() - i,
    {
        let t = type_of_expr(g, flags, &cs[i]);
        if !t.same_as(&first) {
            return false;
        }
        i = i + 1;
    }
    true
}

/// Appends the diagnostics of `e` to `out`.
pub fn collect_expr_diags(
    g: &Grammar,
    flags: &Vec<bool>,
    e: &Expression,
    check: bool,
    rule: &String,
    out: &mut Vec<Diagnostic>,
)
    requires
        flags.len() == g.rules.len(),
    ensures
        diag_views(final(out)@) == diag_views(old(out)@) + expr_diags(
            *e,
            *g,
            unit_set(*g, flags@),
            check,
            rule@,
        ),
    decreases e,
{
    let ghost u = unit_set(*g, flags@);
    match &e.node {
        ExpressionNode::NonTerminalSymbol(id) => {
            if !is_declared(g, id) {
                push_diag(out, DiagnosticKind::UndeclaredRule, e.span, id);
            } else {
                assert(diag_views(out@) =~= diag_views(out@) + Seq::<DiagModel>::empty());
            }
        },
        ExpressionNode::ZeroOrMore(c) | ExpressionNode::OneOrMore(c) | ExpressionNode::Optional(c)
        | ExpressionNode::NotPredicate(c) | ExpressionNode::AndPredicate(c) => {
            collect_expr_diags(g, flags, c, check, rule, out);
        },
        ExpressionNode::Sequence(cs) | ExpressionNode::Choice(cs) => {
            let ghost start = diag_views(out@);
            let is_choice = matches!(e.node, ExpressionNode::Choice(_));
            if is_choice && check && !choice_branches_agree(g, flags, cs) {
                push_diag(out, DiagnosticKind::AmbiguousChoiceType, e.span, rule);
            }
            let ghost head = diag_views(out@);
            proof {
                if e.node is Choice {
                    assert(e.node->Choice_0 == *cs);
                }
                if e.node is Sequence {
                    assert(e.node->Sequence_0 == *cs);
                }
                assert(children_diags(*cs, 0, *g, u, check, rule@) =~= Seq::<DiagModel>::empty());
                assert(head =~= head + children_diags(*cs, 0, *g, u, check, rule@));
            }
            let mut i: usize = 0;
            while i < cs.len()
                invariant
                    0 <= i <= cs.len(),
                    flags.len() == g.rules.len(),
                    u == unit_set(*g, flags@),
                    e.node is Sequence ==> e.node->Sequence_0 == *cs,
                    e.node is Choice ==> e.node->Choice_0 == *cs,
                    e.node is Sequence || e.node is Choice,
                    diag_views(out@) == head + children_diags(*cs, i as int, *g, u, check, rule@),
                decreases cs.len() - i,
            {
                proof {
                    vstd::std_specs::vec::axiom_vec_index_decreases(*cs, i as int);
                    assert(decreases_to!(*e => e.node));
                    if e.node is Sequence {
                        assert(decreases_to!(e.node => e.node->Sequence_0));
                    } else {
                        assert(decreases_to!(e.node => e.node->Choice_0));
                    }
                }
                collect_expr_diags(g, flags, &cs[i], check, rule, out);
                proof {
                    assert(children_diags(*cs, i + 1, *g, u, check, rule@) == children_diags(
                        *cs,
                        i as int,
                        *g,
                        u,
                        check,
                        rule@,
                    ) + expr_diags(cs[i as int], *g, u, check, rule@));
                    assert(diag_views(out@) =~= head + children_diags(
                        *cs,
                        i + 1,
                        *g,
                        u,
                        check,
                        rule@,
                    ));
                }
                i = i + 1;
            }
        },
        _ => {
            assert(diag_views(out@) =~= diag_views(out@) + Seq::<DiagModel>::empty());
        },
    }
}

} // verus!
