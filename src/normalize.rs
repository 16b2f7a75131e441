//! Bottom-up unit inference: rules whose type reduces to unit once the rules
//! they reference are known to be unit become unit themselves, to a fixpoint.
use vstd::prelude::*;
use crate::ast::{Grammar, TypeStyle, named_type_name};
use crate::ty::{Ty, is_unit_ty, unit_ty};
use crate::typing::{expr_ty, type_of_expr, unit_set};

verus! {

/// Type of rule `i` when the rules named in `u` produce no value.
pub open spec fn rule_ty(g: Grammar, i: int, u: Set<Seq<char>>) -> Ty {
    match g.rules[i].style {
        TypeStyle::Invisible => unit_ty(),
        TypeStyle::Annotated(t) => t@,
        TypeStyle::New(n) => Ty::Action(named_type_name(n)),
        TypeStyle::Inline => expr_ty(g.rules[i].def, u),
    }
}

/// One application of the normalizer: a rule becomes unit when its type is
/// unit under the current flags; no rule ever leaves the unit set.
pub open spec fn normalize_step(g: Grammar, f: Seq<bool>) -> Seq<bool> {
    Seq::new(f.len(), |i: int| f[i] || is_unit_ty(rule_ty(g, i, unit_set(g, f))))
}

/// `k` applications of the normalizer from `f`.
pub open spec fn normalize_iter(g: Grammar, f: Seq<bool>, k: nat) -> Seq<bool>
    decreases k,
{
    if k == 0 {
        f
    } else {
        normalize_step(g, normalize_iter(g, f, (k - 1) as nat))
    }
}

/// The flags are a fixpoint: one more application changes nothing.
pub open spec fn is_normal(g: Grammar, f: Seq<bool>) -> bool {
    normalize_step(g, f) == f
}

pub open spec fn count_unset(s: Seq<bool>) -> nat
    decreases s.len(),
{
    if s.len() == 0 {
        0
    } else {
        count_unset(s.drop_last()) + if s.last() {
            0nat
        } else {
            1nat
        }
    }
}

proof fn lemma_count_unset_decreases(a: Seq<bool>, b: Seq<bool>, j: int)
    requires
        a.len() == b.len(),
        forall|i: int| 0 <= i < a.len() && #[trigger] a[i] ==> b[i],
        0 <= j < a.len(),
        !a[j],
        b[j],
    ensures
        count_unset(b) < count_unset(a),
    decreases a.len(),
{
    if j < a.len() - 1 {
        lemma_count_unset_decreases(a.drop_last(), b.drop_last(), j);
    } else {
        lemma_count_unset_le(a.drop_last(), b.drop_last());
    }
}

proof fn lemma_count_unset_le(a: Seq<bool>, b: Seq<bool>)
    requires
        a.len() == b.len(),
        forall|i: int| 0 <= i < a.len() && #[trigger] a[i] ==> b[i],
    ensures
        count_unset(b) <= count_unset(a),
    decreases a.len(),
{
    if a.len() > 0 {
        lemma_count_unset_le(a.drop_last(), b.drop_last());
    }
}

/// Running the normalizer again on a fixpoint leaves it unchanged, however
/// many times it is applied.
pub proof fn lemma_normalize_idempotent(g: Grammar, f: Seq<bool>, k: nat)
    requires
        is_normal(g, f),
    ensures
        normalize_iter(g, f, k) == f,
    decreases k,
{
    if k > 0 {
        lemma_normalize_idempotent(g, f, (k - 1) as nat);
    }
}

/// At a fixpoint, every rule whose final type is unit is flagged, so each
/// reference to it is unit too: a sequence of such references and of other
/// unit children is then unit (see `lemma_sequence_all_unit`).
pub proof fn lemma_normal_flags_unit_rules(g: Grammar, f: Seq<bool>, i: int)
    requires
        is_normal(g, f),
        f.len() == g.rules.len(),
        0 <= i < g.rules.len(),
        is_unit_ty(rule_ty(g, i, unit_set(g, f))),
    ensures
        f[i],
        unit_set(g, f).contains(g.rules[i].name@),
{
    assert(normalize_step(g, f)[i] == f[i]);
    assert(unit_set(g, f).contains(g.rules[i].name@));
}

/// Whether rule `i` is unit under the given flags.
pub fn rule_is_unit(g: &Grammar, flags: &Vec<bool>, i: usize) -> (r: bool)
    requires
        flags.len() == g.rules.len(),
        i < g.rules.len(),
    ensures
        r == is_unit_ty(rule_ty(*g, i as int, unit_set(*g, flags@))),
{
    match &g.rules[i].style {
        TypeStyle::Invisible => true,
        TypeStyle::New(_) => false,
        TypeStyle::Annotated(t) => t.is_unit(),
        TypeStyle::Inline => {
            let t = type_of_expr(g, flags, &g.rules[i].def);
            t.is_unit()
        },
    }
}

/// Applies the normalizer from `start` until nothing changes.
pub fn bottom_up_unit_inference(g: &Grammar, start: Vec<bool>) -> (r: Vec<bool>)
    requires
        start.len() == g.rules.len(),
    ensures
        r.len() == g.rules.len(),
        exists|k: nat| r@ == normalize_iter(*g, start@, k),
        is_normal(*g, r@),
{
    let mut flags = start;
    let ghost mut k: nat = 0;
    loop
        invariant
            flags.len() == g.rules.len(),
            flags@ == normalize_iter(*g, start@, k),
        decreases count_unset(flags@),
    {
        let mut next: Vec<bool> = Vec::new();
        let mut changed = false;
        let mut i: usize = 0;
        let ghost mut witness: int = 0;
        while i < flags.len()
            invariant
                0 <= i <= flags.len(),
                flags.len() == g.rules.len(),
                next.len() == i,
                forall|m: int| 0 <= m < i ==> #[trigger] next[m] == normalize_step(*g, flags@)[m],
                changed ==> 0 <= witness < i && !flags[witness] && next[witness],
                !changed ==> forall|m: int| 0 <= m < i ==> #[trigger] next[m] == flags[m],
            decreases flags.len() - i,
        {
            let b = flags[i] || rule_is_unit(g, &flags, i);
            if b && !flags[i] {
                changed = true;
                proof {
                    witness = i as int;
                }
            }
            next.push(b);
            i = i + 1;
        }
        proof {
            assert(next@ =~= normalize_step(*g, flags@));
        }
        if !changed {
            proof {
                assert(next@ =~= flags@);
            }
            return flags;
        }
        proof {
            lemma_count_unset_decreases(flags@, next@, witness);
            k = k + 1;
        }
        flags = next;
    }
}

} // verus!
