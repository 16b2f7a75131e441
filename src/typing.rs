//! Structural type inference over the expression tree, given the set of rules
//! already known to produce no value.
use vstd::prelude::*;
use crate::ast::{Expression, ExpressionNode, Grammar};
use crate::ty::{ExprTy, Ty, is_unit_ty, lemma_tys_view_len, ty_view, tys_view, unit_ty};

verus! {

/// Names of the rules flagged in `flags` (one flag per rule, in table order).
pub open spec fn unit_set(g: Grammar, flags: Seq<bool>) -> Set<Seq<char>> {
    Set::new(
        |n: Seq<char>|
            exists|i: int| 0 <= i < g.rules.len() && i < flags.len() && flags[i] && #[trigger] g.rules[i].name@ == n,
    )
}

/// Whether the grammar declares a rule of that name.
pub open spec fn declared(g: Grammar, n: Seq<char>) -> bool {
    exists|i: int| 0 <= i < g.rules.len() && #[trigger] g.rules[i].name@ == n
}

/// Type of a repetition over a child of type `t`.
pub open spec fn repeat_ty(t: Ty) -> Ty {
    if is_unit_ty(t) {
        unit_ty()
    } else {
        Ty::Vector(Box::new(t))
    }
}

/// Type of an optional child of type `t`.
pub open spec fn optional_ty(t: Ty) -> Ty {
    if is_unit_ty(t) {
        unit_ty()
    } else {
        Ty::OptionalTy(Box::new(t))
    }
}

/// Type of a sequence whose non-unit children have types `ts`, in order.
pub open spec fn sequence_ty(ts: Seq<Ty>) -> Ty {
    if ts.len() == 0 {
        unit_ty()
    } else if ts.len() == 1 {
        ts[0]
    } else {
        Ty::Tuple(ts)
    }
}

/// Type of an expression when the rules named in `u` produce no value.
pub open spec fn expr_ty(e: Expression, u: Set<Seq<char>>) -> Ty
    decreases e, 0int,
{
    match e.node {
        ExpressionNode::StrLiteral(_) => unit_ty(),
        ExpressionNode::NotPredicate(_) => unit_ty(),
        ExpressionNode::AndPredicate(_) => unit_ty(),
        ExpressionNode::AnySingleChar => Ty::Character,
        ExpressionNode::CharacterClass(_) => Ty::Character,
        ExpressionNode::NonTerminalSymbol(id) => if u.contains(id@) {
            unit_ty()
        } else {
            Ty::RuleTy(id@)
        },
        ExpressionNode::ZeroOrMore(c) => repeat_ty(expr_ty(*c, u)),
        ExpressionNode::OneOrMore(c) => repeat_ty(expr_ty(*c, u)),
        ExpressionNode::Optional(c) => optional_ty(expr_ty(*c, u)),
        ExpressionNode::Sequence(cs) => sequence_ty(visible_tys(cs, cs.len() as int, u)),
        ExpressionNode::Choice(cs) => if cs.len() == 0 {
            unit_ty()
        } else {
            expr_ty(cs[0], u)
        },
    }
}

/// Types of the non-unit expressions among the first `n` of `cs`, in order.
pub open spec fn visible_tys(cs: Vec<Expression>, n: int, u: Set<Seq<char>>) -> Seq<Ty>
    decreases cs, n,
{
    if n <= 0 || n > cs.len() {
        Seq::empty()
    } else {
        let p = visible_tys(cs, n - 1, u);
        let t = expr_ty(cs[n - 1], u);
        if is_unit_ty(t) {
            p
        } else {
            p.push(t)
        }
    }
}

/// Types of the first `n` expressions of `cs`.
pub open spec fn child_tys(cs: Vec<Expression>, n: int, u: Set<Seq<char>>) -> Seq<Ty> {
    Seq::new(n as nat, |i: int| expr_ty(cs[i], u))
}

pub open spec fn is_visible_ty(t: Ty) -> bool {
    !is_unit_ty(t)
}

/// The non-unit types among the children, in source order.
pub open spec fn nonunit_tys(cs: Vec<Expression>, u: Set<Seq<char>>) -> Seq<Ty> {
    child_tys(cs, cs.len() as int, u).filter(|t: Ty| is_visible_ty(t))
}

proof fn lemma_visible_is_filter(cs: Vec<Expression>, n: int, u: Set<Seq<char>>)
    requires
        0 <= n <= cs.len(),
    ensures
        visible_tys(cs, n, u) == child_tys(cs, n, u).filter(|t: Ty| is_visible_ty(t)),
    decreases n,
{
    reveal(Seq::filter);
    if n > 0 {
        lemma_visible_is_filter(cs, n - 1, u);
        assert(child_tys(cs, n, u).drop_last() =~= child_tys(cs, n - 1, u));
    } else {
        assert(child_tys(cs, 0, u) =~= Seq::<Ty>::empty());
    }
}

proof fn lemma_visible_single(cs: Vec<Expression>, n: int, u: Set<Seq<char>>, j: int)
    requires
        0 <= n <= cs.len(),
        0 <= j < cs.len(),
        !is_unit_ty(expr_ty(cs[j], u)),
        forall|i: int| 0 <= i < cs.len() && i != j ==> is_unit_ty(#[trigger] expr_ty(cs[i], u)),
    ensures
        visible_tys(cs, n, u) == if n > j {
            seq![expr_ty(cs[j], u)]
        } else {
            Seq::<Ty>::empty()
        },
    decreases n,
{
    if n > 0 {
        lemma_visible_single(cs, n - 1, u, j);
        if n - 1 == j {
            assert(Seq::<Ty>::empty().push(expr_ty(cs[j], u)) =~= seq![expr_ty(cs[j], u)]);
        } else {
            assert(is_unit_ty(expr_ty(cs[n - 1], u)));
        }
    }
}

/// A sequence whose children are all unit is unit.
pub proof fn lemma_sequence_all_unit(e: Expression, u: Set<Seq<char>>)
    requires
        e.node is Sequence,
        forall|i: int|
            0 <= i < e.node->Sequence_0.len() ==> is_unit_ty(
                #[trigger] expr_ty(e.node->Sequence_0[i], u),
            ),
    ensures
        is_unit_ty(expr_ty(e, u)),
{
    let cs = e.node->Sequence_0;
    lemma_visible_is_filter(cs, cs.len() as int, u);
    reveal(Seq::filter);
    child_tys(cs, cs.len() as int, u).lemma_all_neg_filter_empty(|t: Ty| is_visible_ty(t));
}

/// A sequence with exactly one non-unit child has that child's type,
/// wherever the child stands.
pub proof fn lemma_sequence_projection(e: Expression, u: Set<Seq<char>>, j: int)
    requires
        e.node is Sequence,
        0 <= j < e.node->Sequence_0.len(),
        !is_unit_ty(expr_ty(e.node->Sequence_0[j], u)),
        forall|i: int|
            0 <= i < e.node->Sequence_0.len() && i != j ==> is_unit_ty(
                #[trigger] expr_ty(e.node->Sequence_0[i], u),
            ),
    ensures
        expr_ty(e, u) == expr_ty(e.node->Sequence_0[j], u),
{
    let cs = e.node->Sequence_0;
    lemma_visible_single(cs, cs.len() as int, u, j);
}

/// A sequence with two or more non-unit children is the tuple of their
/// types, in source order.
pub proof fn lemma_sequence_tuple(e: Expression, u: Set<Seq<char>>)
    requires
        e.node is Sequence,
        nonunit_tys(e.node->Sequence_0, u).len() >= 2,
    ensures
        expr_ty(e, u) == Ty::Tuple(nonunit_tys(e.node->Sequence_0, u)),
{
    let cs = e.node->Sequence_0;
    lemma_visible_is_filter(cs, cs.len() as int, u);
}

/// Repetitions and options over a unit child are unit.
pub proof fn lemma_wrapper_over_unit(e: Expression, u: Set<Seq<char>>)
    requires
        (e.node is ZeroOrMore && is_unit_ty(expr_ty(*e.node->ZeroOrMore_0, u))) || (e.node is OneOrMore
            && is_unit_ty(expr_ty(*e.node->OneOrMore_0, u))) || (e.node is Optional && is_unit_ty(
            expr_ty(*e.node->Optional_0, u),
        )),
    ensures
        is_unit_ty(expr_ty(e, u)),
{
}

/// Whether some rule named `name` is flagged.
fn flagged(g: &Grammar, flags: &Vec<bool>, name: &String) -> (r: bool)
    requires
        flags.len() == g.rules.len(),
    ensures
        r == unit_set(*g, flags@).contains(name@),
{
    let mut i: usize = 0;
    while i < g.rules.len()
        invariant
            0 <= i <= g.rules.len(),
            flags.len() == g.rules.len(),
            forall|k: int| 0 <= k < i ==> !(flags[k] && #[trigger] g.rules[k].name@ == name@),
        decreases g.rules.len() - i,
    {
        if flags[i] && g.rules[i].name == *name {
            return true;
        }
        i = i + 1;
    }
    false
}

/// Whether the grammar declares a rule named `name`.
pub fn is_declared(g: &Grammar, name: &String) -> (r: bool)
    ensures
        r == declared(*g, name@),
{
    let mut i: usize = 0;
    while i < g.rules.len()
        invariant
            0 <= i <= g.rules.len(),
            forall|k: int| 0 <= k < i ==> #[trigger] g.rules[k].name@ != name@,
        decreases g.rules.len() - i,
    {
        if g.rules[i].name == *name {
            return true;
        }
        i = i + 1;
    }
    false
}

/// Whether a node produces no value whatever its context: literals and
/// predicates only recognize.
pub open spec fn by_default_invisible(e: Expression) -> bool {
    e.node is StrLiteral || e.node is NotPredicate || e.node is AndPredicate
}

/// Whether the node's value is forwarded unchanged from elsewhere: from the
/// rule it references, from the branch that matched, or from the single
/// non-unit child of a sequence.
pub open spec fn forwarding(e: Expression, u: Set<Seq<char>>) -> bool {
    match e.node {
        ExpressionNode::NonTerminalSymbol(_) => true,
        ExpressionNode::Choice(_) => true,
        ExpressionNode::Sequence(cs) => visible_tys(cs, cs.len() as int, u).len() == 1,
        _ => false,
    }
}

impl Expression {
    pub fn is_by_default_invisible(&self) -> (r: bool)
        ensures
            r == by_default_invisible(*self),
    {
        match &self.node {
            ExpressionNode::StrLiteral(_) | ExpressionNode::NotPredicate(_)
            | ExpressionNode::AndPredicate(_) => true,
            _ => false,
        }
    }

    /// Whether the expression produces no value when the rules flagged in
    /// `flags` produce none.
    pub fn is_unit(&self, g: &Grammar, flags: &Vec<bool>) -> (r: bool)
        requires
            flags.len() == g.rules.len(),
        ensures
            r == is_unit_ty(expr_ty(*self, unit_set(*g, flags@))),
    {
        let t = type_of_expr(g, flags, self);
        t.is_unit()
    }

    pub fn is_forwading_type(&self, g: &Grammar, flags: &Vec<bool>) -> (r: bool)
        requires
            flags.len() == g.rules.len(),
        ensures
            r == forwarding(*self, unit_set(*g, flags@)),
    {
        match &self.node {
            ExpressionNode::NonTerminalSymbol(_) | ExpressionNode::Choice(_) => true,
            ExpressionNode::Sequence(cs) => {
                let ghost u = unit_set(*g, flags@);
                let mut count: usize = 0;
                let mut i: usize = 0;
                while i < cs.len()
                    invariant
                        0 <= i <= cs.len(),
                        flags.len() == g.rules.len(),
                        u == unit_set(*g, flags@),
                        count == visible_tys(*cs, i as int, u).len(),
                        count <= i,
                    decreases cs.len() - i,
                {
                    if !cs[i].is_unit(g, flags) {
                        count = count + 1;
                    }
                    i = i + 1;
                }
                count == 1
            },
            _ => false,
        }
    }
}

/// Infers the type of `e` when the rules flagged in `flags` produce no value.
pub fn type_of_expr(g: &Grammar, flags: &Vec<bool>, e: &Expression) -> (r: ExprTy)
    requires
        flags.len() == g.rules.len(),
    ensures
        r@ == expr_ty(*e, unit_set(*g, flags@)),
    decreases e,
{
    let ghost u = unit_set(*g, flags@);
    match &e.node {
        ExpressionNode::StrLiteral(_) | ExpressionNode::NotPredicate(_)
        | ExpressionNode::AndPredicate(_) => ExprTy::unit(),
        ExpressionNode::AnySingleChar | ExpressionNode::CharacterClass(_) => ExprTy::Character,
        ExpressionNode::NonTerminalSymbol(id) => {
            if flagged(g, flags, id) {
                ExprTy::unit()
            } else {
                ExprTy::RuleTy(id.clone())
            }
        },
        ExpressionNode::ZeroOrMore(c) | ExpressionNode::OneOrMore(c) => {
            let t = type_of_expr(g, flags, c);
            if t.is_unit() {
                t
            } else {
                ExprTy::Vector(Box::new(t))
            }
        },
        ExpressionNode::Optional(c) => {
            let t = type_of_expr(g, flags, c);
            if t.is_unit() {
                t
            } else {
                ExprTy::OptionalTy(Box::new(t))
            }
        },
        ExpressionNode::Sequence(cs) => {
            let mut tys: Vec<ExprTy> = Vec::new();
            let mut i: usize = 0;
            while i < cs.len()
                invariant
                    0 <= i <= cs.len(),
                    flags.len() == g.rules.len(),
                    u == unit_set(*g, flags@),
                    e.node == ExpressionNode::Sequence(*cs),
                    tys_view(tys, tys.len() as int) == visible_tys(*cs, i as int, u),
                decreases cs.len() - i,
            {
                proof {
                    vstd::std_specs::vec::axiom_vec_index_decreases(*cs, i as int);
                    assert(decreases_to!(*e => e.node));
                    assert(decreases_to!(e.node => e.node->Sequence_0));
                }
                let t = type_of_expr(g, flags, &cs[i]);
                if !t.is_unit() {
                    let ghost old_tys = tys;
                    tys.push(t);
                    proof {
                        lemma_tys_view_len(old_tys, old_tys.len() as int);
                        lemma_tys_view_len(tys, tys.len() as int);
                        assert(tys_view(tys, tys.len() as int) =~= tys_view(
                            old_tys,
                            old_tys.len() as int,
                        ).push(ty_view(t)));
                    }
                }
                i = i + 1;
            }
            proof {
                lemma_tys_view_len(tys, tys.len() as int);
            }
            if tys.len() == 0 {
                ExprTy::unit()
            } else if tys.len() == 1 {
                let t = tys.pop().unwrap();
                t
            } else {
                ExprTy::Tuple(tys)
            }
        },
        ExpressionNode::Choice(cs) => {
            if cs.len() == 0 {
                ExprTy::unit()
            } else {
                proof {
                    vstd::std_specs::vec::axiom_vec_index_decreases(*cs, 0);
                    assert(decreases_to!(*e => e.node));
                    assert(decreases_to!(e.node => e.node->Choice_0));
                }
                type_of_expr(g, flags, &cs[0])
            }
        },
    }
}

} // verus!
