//! The type algebra that expressions and rules are annotated with.
use vstd::prelude::*;

verus! {

/// Mathematical model of a value type.
pub enum Ty {
    /// A tuple of the listed types; the empty tuple is the unit type.
    Tuple(Seq<Ty>),
    /// One matched character.
    Character,
    /// The type named by an explicit semantic-action return type, or by a
    /// newly declared named type.
    Action(Seq<char>),
    /// A sequence of values of the inner type.
    Vector(Box<Ty>),
    /// An optional value of the inner type.
    OptionalTy(Box<Ty>),
    /// The value type of the named rule, forwarded unchanged.
    RuleTy(Seq<char>),
}

/// The unit type: no value at all.
pub open spec fn unit_ty() -> Ty {
    Ty::Tuple(Seq::empty())
}

pub open spec fn is_unit_ty(t: Ty) -> bool {
    t == unit_ty()
}

/// The value type of an expression, as the code generator consumes it.
#[derive(Debug)]
pub enum ExprTy {
    Tuple(Vec<ExprTy>),
    Character,
    Action(String),
    Vector(Box<ExprTy>),
    OptionalTy(Box<ExprTy>),
    RuleTy(String),
}

pub open spec fn ty_view(t: ExprTy) -> Ty
    decreases t, 0int,
{
    match t {
        ExprTy::Tuple(ts) => Ty::Tuple(tys_view(ts, ts.len() as int)),
        ExprTy::Character => Ty::Character,
        ExprTy::Action(s) => Ty::Action(s@),
        ExprTy::Vector(b) => Ty::Vector(Box::new(ty_view(*b))),
        ExprTy::OptionalTy(b) => Ty::OptionalTy(Box::new(ty_view(*b))),
        ExprTy::RuleTy(s) => Ty::RuleTy(s@),
    }
}

/// Models of the first `n` types of `ts`.
pub open spec fn tys_view(ts: Vec<ExprTy>, n: int) -> Seq<Ty>
    decreases ts, n,
{
    if n <= 0 || n > ts.len() {
        Seq::empty()
    } else {
        tys_view(ts, n - 1).push(ty_view(ts[n - 1]))
    }
}

pub proof fn lemma_tys_view_len(ts: Vec<ExprTy>, n: int)
    requires
        0 <= n <= ts.len(),
    ensures
        tys_view(ts, n).len() == n,
        forall|i: int| 0 <= i < n ==> #[trigger] tys_view(ts, n)[i] == ty_view(ts[i]),
    decreases n,
{
    if n > 0 {
        lemma_tys_view_len(ts, n - 1);
    }
}

impl View for ExprTy {
    type V = Ty;

    open spec fn view(&self) -> Ty {
        ty_view(*self)
    }
}

impl ExprTy {
    /// The unit type.
    pub fn unit() -> (r: ExprTy)
        ensures
            r@ == unit_ty(),
    {
        let v: Vec<ExprTy> = Vec::new();
        proof {
            assert(tys_view(v, 0) =~= Seq::<Ty>::empty());
        }
        ExprTy::Tuple(v)
    }

    pub fn is_unit(&self) -> (r: bool)
        ensures
            r == is_unit_ty(self@),
    {
        match self {
            ExprTy::Tuple(ts) => {
                proof {
                    lemma_tys_view_len(*ts, ts.len() as int);
                    if ts.len() == 0 {
                        assert(tys_view(*ts, 0) =~= Seq::<Ty>::empty());
                    }
                }
                ts.len() == 0
            },
            _ => false,
        }
    }

    /// A tuple of exactly one type: the value of one sub-expression, forwarded.
    pub fn is_projection(&self) -> (r: bool)
        ensures
            r == (self@ is Tuple && self@->Tuple_0.len() == 1),
    {
        match self {
            ExprTy::Tuple(ts) => {
                proof {
                    lemma_tys_view_len(*ts, ts.len() as int);
                }
                ts.len() == 1
            },
            _ => false,
        }
    }

    /// A copy with the same model.
    pub fn deep_copy(&self) -> (r: ExprTy)
        ensures
            r@ == self@,
        decreases self,
    {
        match self {
            ExprTy::Tuple(ts) => {
                let mut out: Vec<ExprTy> = Vec::new();
                let mut i: usize = 0;
                while i < ts.len()
                    invariant
                        0 <= i <= ts.len(),
                        out.len() == i,
                        forall|k: int| 0 <= k < i ==> #[trigger] ty_view(out[k]) == ty_view(ts[k]),
                        *self == ExprTy::Tuple(*ts),
                    decreases ts.len() - i,
                {
                    proof {
                        vstd::std_specs::vec::axiom_vec_index_decreases(*ts, i as int);
                        assert(decreases_to!(*self => self->Tuple_0));
                        assert(decreases_to!(*self => ts[i as int]));
                    }
                    let c = ts[i].deep_copy();
                    out.push(c);
                    i = i + 1;
                }
                proof {
                    lemma_tys_view_len(out, i as int);
                    lemma_tys_view_len(*ts, i as int);
                    assert(tys_view(out, i as int) =~= tys_view(*ts, i as int));
                }
                ExprTy::Tuple(out)
            },
            ExprTy::Character => ExprTy::Character,
            ExprTy::Action(s) => ExprTy::Action(s.clone()),
            ExprTy::Vector(b) => ExprTy::Vector(Box::new(b.deep_copy())),
            ExprTy::OptionalTy(b) => ExprTy::OptionalTy(Box::new(b.deep_copy())),
            ExprTy::RuleTy(s) => ExprTy::RuleTy(s.clone()),
        }
    }

    /// Whether both denote the same type.
    pub fn same_as(&self, other: &ExprTy) -> (r: bool)
        ensures
            r == (self@ == other@),
        decreases self,
    {
        match (self, other) {
            (ExprTy::Tuple(a), ExprTy::Tuple(b)) => {
                proof {
                    lemma_tys_view_len(*a, a.len() as int);
                    lemma_tys_view_len(*b, b.len() as int);
                }
                if a.len() != b.len() {
                    return false;
                }
                let mut i: usize = 0;
                while i < a.len()
                    invariant
                        0 <= i <= a.len(),
                        a.len() == b.len(),
                        forall|k: int| 0 <= k < i ==> #[trigger] ty_view(a[k]) == ty_view(b[k]),
                        *self == ExprTy::Tuple(*a),
                        *other == ExprTy::Tuple(*b),
                    decreases a.len() - i,
                {
                    proof {
                        vstd::std_specs::vec::axiom_vec_index_decreases(*a, i as int);
                        assert(decreases_to!(*self => self->Tuple_0));
                        assert(decreases_to!(*self => a[i as int]));
                        lemma_tys_view_len(*a, a.len() as int);
                        lemma_tys_view_len(*b, b.len() as int);
                    }
                    if !a[i].same_as(&b[i]) {
                        proof {
                            assert(tys_view(*a, a.len() as int)[i as int] != tys_view(
                                *b,
                                b.len() as int,
                            )[i as int]);
                        }
                        return false;
                    }
                    i = i + 1;
                }
                proof {
                    lemma_tys_view_len(*a, a.len() as int);
                    lemma_tys_view_len(*b, b.len() as int);
                    assert(tys_view(*a, a.len() as int) =~= tys_view(*b, b.len() as int));
                }
                true
            },
            (ExprTy::Character, ExprTy::Character) => true,
            (ExprTy::Action(a), ExprTy::Action(b)) => *a == *b,
            (ExprTy::Vector(a), ExprTy::Vector(b)) => a.same_as(b),
            (ExprTy::OptionalTy(a), ExprTy::OptionalTy(b)) => a.same_as(b),
            (ExprTy::RuleTy(a), ExprTy::RuleTy(b)) => *a == *b,
            _ => false,
        }
    }
}

} // verus!
