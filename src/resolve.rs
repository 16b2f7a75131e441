//! Evaluation contexts of references and the functions generated per rule.
use vstd::prelude::*;
use crate::ast::{EvaluationContext, Expression, ExpressionNode, FunctionKind, ctx_merge};
use crate::ty::{ExprTy, Ty, is_unit_ty};

verus! {

/// A reference to a rule, with the context in which its value is used.
pub type RefModel = (Seq<char>, EvaluationContext);

/// The references inside `e`, in tree order, when the value of `e` is used
/// in context `ctx`. Predicates discard the values of what they contain.
pub open spec fn ref_ctxs(e: Expression, ctx: EvaluationContext) -> Seq<RefModel>
    decreases e, 0int,
{
    match e.node {
        ExpressionNode::NonTerminalSymbol(id) => seq![(id@, ctx)],
        ExpressionNode::NotPredicate(c) => ref_ctxs(*c, EvaluationContext::UnValued),
        ExpressionNode::AndPredicate(c) => ref_ctxs(*c, EvaluationContext::UnValued),
        ExpressionNode::ZeroOrMore(c) => ref_ctxs(*c, ctx),
        ExpressionNode::OneOrMore(c) => ref_ctxs(*c, ctx),
        ExpressionNode::Optional(c) => ref_ctxs(*c, ctx),
        ExpressionNode::Sequence(cs) => children_refs(cs, cs.len() as int, ctx),
        ExpressionNode::Choice(cs) => children_refs(cs, cs.len() as int, ctx),
        _ => Seq::empty(),
    }
}

pub open spec fn children_refs(cs: Vec<Expression>, n: int, ctx: EvaluationContext) -> Seq<RefModel>
    decreases cs, n,
{
    if n <= 0 || n > cs.len() {
        Seq::empty()
    } else {
        children_refs(cs, n - 1, ctx) + ref_ctxs(cs[n - 1], ctx)
    }
}

/// Merge of the contexts of the references to `name` among the first `n`.
pub open spec fn fold_ctx(refs: Seq<RefModel>, name: Seq<char>, n: int) -> EvaluationContext
    decreases n,
{
    if n <= 0 || n > refs.len() {
        EvaluationContext::UnValued
    } else {
        ctx_merge(
            fold_ctx(refs, name, n - 1),
            if refs[n - 1].0 == name {
                refs[n - 1].1
            } else {
                EvaluationContext::UnValued
            },
        )
    }
}

pub open spec fn referenced(refs: Seq<RefModel>, name: Seq<char>) -> bool {
    exists|j: int| 0 <= j < refs.len() && #[trigger] refs[j].0 == name
}

/// Context of the rule `name`: the merge over every reference to it, or
/// `Both` where nothing references it, since its value is then observed
/// from outside the grammar.
pub open spec fn context_of(refs: Seq<RefModel>, name: Seq<char>) -> EvaluationContext {
    if referenced(refs, name) {
        fold_ctx(refs, name, refs.len() as int)
    } else {
        EvaluationContext::Both
    }
}

/// Whether a value of type `t` is a bare forward, with no wrapping around it.
pub open spec fn unwrapped(t: Ty) -> bool {
    !(t is Vector) && !(t is OptionalTy)
}

/// The kind of functions owed to a rule of type `t` used in context `ctx`;
/// `forwards` tells whether the rule's body forwards the value of another
/// expression unchanged (see `forwarding`).
pub open spec fn kind_matches(k: FunctionKind, t: Ty, ctx: EvaluationContext, forwards: bool) -> bool {
    if is_unit_ty(t) || ctx == EvaluationContext::UnValued {
        k is Recognizer
    } else if forwards && unwrapped(t) {
        k is ParserAlias
    } else {
        k is Both && k->Both_0@ == t
    }
}

/// A reference found in the grammar.
#[derive(Debug)]
pub struct Reference {
    pub name: String,
    pub context: EvaluationContext,
}

impl View for Reference {
    type V = RefModel;

    open spec fn view(&self) -> RefModel {
        (self.name@, self.context)
    }
}

pub open spec fn ref_views(rs: Seq<Reference>) -> Seq<RefModel> {
    rs.map_values(|r: Reference| r@)
}

/// Appends the references inside `e`, used in context `ctx`, to `out`.
pub fn collect_refs(e: &Expression, ctx: EvaluationContext, out: &mut Vec<Reference>)
    ensures
        ref_views(final(out)@) == ref_views(old(out)@) + ref_ctxs(*e, ctx),
    decreases e,
{
    match &e.node {
        ExpressionNode::NonTerminalSymbol(id) => {
            let r = Reference { name: id.clone(), context: ctx };
            let ghost before = out@;
            out.push(r);
            proof {
                assert(ref_views(out@) =~= ref_views(before) + ref_ctxs(*e, ctx));
            }
        },
        ExpressionNode::NotPredicate(c) | ExpressionNode::AndPredicate(c) => {
            collect_refs(c, EvaluationContext::UnValued, out);
        },
        ExpressionNode::ZeroOrMore(c) | ExpressionNode::OneOrMore(c) | ExpressionNode::Optional(c) => {
            collect_refs(c, ctx, out);
        },
        ExpressionNode::Sequence(cs) | ExpressionNode::Choice(cs) => {
            let ghost head = ref_views(out@);
            proof {
                assert(head =~= head + children_refs(*cs, 0, ctx));
            }
            let mut i: usize = 0;
            while i < cs.len()
                invariant
                    0 <= i <= cs.len(),
                    e.node is Sequence ==> e.node->Sequence_0 == *cs,
                    e.node is Choice ==> e.node->Choice_0 == *cs,
                    e.node is Sequence || e.node is Choice,
                    ref_views(out@) == head + children_refs(*cs, i as int, ctx),
                decreases cs.len() - i,
            {
                proof {
                    vstd::std_specs::vec::axiom_vec_index_decreases(*cs, i as int);
                    assert(decreases_to!(*e => e.node));
                    if e.node is Sequence {
                        assert(decreases_to!(e.node => e.node->Sequence_0));
                    } else {
                        assert(decreases_to!(e.node => e.node->Choice_0));
                    }
                }
                collect_refs(&cs[i], ctx, out);
                proof {
                    assert(ref_views(out@) =~= head + children_refs(*cs, i + 1, ctx));
                }
                i = i + 1;
            }
        },
        _ => {
            assert(ref_views(out@) =~= ref_views(out@) + Seq::<RefModel>::empty());
        },
    }
}

/// Context of the rule `name` among the references `refs`.
pub fn rule_context(refs: &Vec<Reference>, name: &String) -> (r: EvaluationContext)
    ensures
        r == context_of(ref_views(refs@), name@),
{
    let ghost rs = ref_views(refs@);
    let mut acc = EvaluationContext::UnValued;
    let mut seen = false;
    let mut i: usize = 0;
    while i < refs.len()
        invariant
            0 <= i <= refs.len(),
            rs == ref_views(refs@),
            acc == fold_ctx(rs, name@, i as int),
            seen == exists|j: int| 0 <= j < i && #[trigger] rs[j].0 == name@,
        decreases refs.len() - i,
    {
        if refs[i].name == *name {
            acc = acc.merge(refs[i].context);
            seen = true;
        } else {
            acc = acc.merge(EvaluationContext::UnValued);
        }
        i = i + 1;
    }
    if seen {
        acc
    } else {
        EvaluationContext::Both
    }
}

/// The functions to generate for a rule of type `t` whose value is used in
/// context `ctx`, and whose body forwards a value unchanged where `forwards`.
pub fn resolve_kind(t: &ExprTy, ctx: EvaluationContext, forwards: bool) -> (k: FunctionKind)
    ensures
        kind_matches(k, t@, ctx, forwards),
{
    if t.is_unit() || ctx == EvaluationContext::UnValued {
        FunctionKind::Recognizer
    } else {
        let wrapped = matches!(t, ExprTy::Vector(_) | ExprTy::OptionalTy(_));
        if forwards && !wrapped {
            FunctionKind::ParserAlias
        } else {
            FunctionKind::Both(t.deep_copy())
        }
    }
}

/// A rule that is referenced only where its value is discarded gets a
/// recognizer alone; one whose value is used at least once, and which has
/// a value, never does.
pub proof fn lemma_kind_follows_context(
    k: FunctionKind,
    t: Ty,
    refs: Seq<RefModel>,
    name: Seq<char>,
    forwards: bool,
)
    requires
        kind_matches(k, t, context_of(refs, name), forwards),
    ensures
        referenced(refs, name) && (forall|j: int|
            0 <= j < refs.len() && #[trigger] refs[j].0 == name ==> refs[j].1
                == EvaluationContext::UnValued) ==> k is Recognizer,
        (exists|j: int|
            0 <= j < refs.len() && #[trigger] refs[j].0 == name && refs[j].1
                == EvaluationContext::Both) && !is_unit_ty(t) ==> (k is Parser || k is ParserAlias
            || k is Both),
{
    if referenced(refs, name) && (forall|j: int|
        0 <= j < refs.len() && #[trigger] refs[j].0 == name ==> refs[j].1
            == EvaluationContext::UnValued) {
        lemma_fold_unvalued(refs, name, refs.len() as int);
    }
    if exists|j: int|
        0 <= j < refs.len() && #[trigger] refs[j].0 == name && refs[j].1 == EvaluationContext::Both {
        let j = choose|j: int|
            0 <= j < refs.len() && #[trigger] refs[j].0 == name && refs[j].1
                == EvaluationContext::Both;
        lemma_fold_both(refs, name, refs.len() as int, j);
    }
}

proof fn lemma_fold_unvalued(refs: Seq<RefModel>, name: Seq<char>, n: int)
    requires
        0 <= n <= refs.len(),
        forall|j: int| 0 <= j < refs.len() && #[trigger] refs[j].0 == name ==> refs[j].1
            == EvaluationContext::UnValued,
    ensures
        fold_ctx(refs, name, n) == EvaluationContext::UnValued,
    decreases n,
{
    if n > 0 {
        lemma_fold_unvalued(refs, name, n - 1);
    }
}

proof fn lemma_fold_both(refs: Seq<RefModel>, name: Seq<char>, n: int, j: int)
    requires
        0 <= j < n <= refs.len(),
        refs[j].0 == name,
        refs[j].1 == EvaluationContext::Both,
    ensures
        fold_ctx(refs, name, n) == EvaluationContext::Both,
    decreases n,
{
    if j < n - 1 {
        lemma_fold_both(refs, name, n - 1, j);
    }
}

} // verus!
