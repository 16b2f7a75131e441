//! Traversal of value types and named types. Each shape has a method, called
//! in pre-order; the methods of composite shapes say whether the walk goes on
//! into the components. A visitor is modelled by the visits made so far, and
//! by the fixed choice of the shapes whose components it descends into.
use vstd::prelude::*;
use crate::ast::{NamedExpressionType, NamedField, Rule, TypeStyle, TypedRule};
use crate::ty::{ExprTy, Ty, lemma_tys_view_len, tys_view, unit_ty};

verus! {

/// One step of a walk.
pub enum Visit {
    /// A value type, given whole.
    Type(Ty),
    Struct(Seq<char>),
    StructTuple(Seq<char>),
    Sum(Seq<char>),
    TypeAlias(Seq<char>),
    /// A field of a struct or a variant of a sum type, by name.
    Field(Seq<char>),
}

pub trait Visitor: Sized {
    /// The visits made so far, in order.
    spec fn visited(&self) -> Seq<Visit>;

    /// Whether the walk goes on into the components of what `v` visited.
    spec fn descends(v: Visit) -> bool;

    fn visit_character(&mut self)
        ensures
            final(self).visited() == old(self).visited().push(Visit::Type(Ty::Character)),
    ;

    fn visit_unit(&mut self)
        ensures
            final(self).visited() == old(self).visited().push(Visit::Type(unit_ty())),
    ;

    fn visit_action(&mut self, ret: &String)
        ensures
            final(self).visited() == old(self).visited().push(Visit::Type(Ty::Action(ret@))),
    ;

    fn visit_rule_type_ph(&mut self, rule: &String)
        ensures
            final(self).visited() == old(self).visited().push(Visit::Type(Ty::RuleTy(rule@))),
    ;

    fn visit_vector(&mut self, inner: &ExprTy) -> (r: bool)
        ensures
            final(self).visited() == old(self).visited().push(
                Visit::Type(Ty::Vector(Box::new(inner@))),
            ),
            r == Self::descends(Visit::Type(Ty::Vector(Box::new(inner@)))),
    ;

    fn visit_tuple(&mut self, tys: &Vec<ExprTy>) -> (r: bool)
        ensures
            final(self).visited() == old(self).visited().push(
                Visit::Type(Ty::Tuple(tys_view(*tys, tys.len() as int))),
            ),
            r == Self::descends(Visit::Type(Ty::Tuple(tys_view(*tys, tys.len() as int)))),
    ;

    fn visit_optional(&mut self, inner: &ExprTy) -> (r: bool)
        ensures
            final(self).visited() == old(self).visited().push(
                Visit::Type(Ty::OptionalTy(Box::new(inner@))),
            ),
            r == Self::descends(Visit::Type(Ty::OptionalTy(Box::new(inner@)))),
    ;

    fn visit_struct(&mut self, name: &String, fields: &Vec<NamedField>) -> (r: bool)
        ensures
            final(self).visited() == old(self).visited().push(Visit::Struct(name@)),
            r == Self::descends(Visit::Struct(name@)),
    ;

    fn visit_struct_tuple(&mut self, name: &String, tys: &Vec<ExprTy>) -> (r: bool)
        ensures
            final(self).visited() == old(self).visited().push(Visit::StructTuple(name@)),
            r == Self::descends(Visit::StructTuple(name@)),
    ;

    fn visit_sum(&mut self, name: &String, variants: &Vec<NamedField>) -> (r: bool)
        ensures
            final(self).visited() == old(self).visited().push(Visit::Sum(name@)),
            r == Self::descends(Visit::Sum(name@)),
    ;

    fn visit_type_alias(&mut self, name: &String, ty: &ExprTy) -> (r: bool)
        ensures
            final(self).visited() == old(self).visited().push(Visit::TypeAlias(name@)),
            r == Self::descends(Visit::TypeAlias(name@)),
    ;

    fn visit_named_type(&mut self, name: &String, ty: &ExprTy) -> (r: bool)
        ensures
            final(self).visited() == old(self).visited().push(Visit::Field(name@)),
            r == Self::descends(Visit::Field(name@)),
    ;
}

/// What a recorded visit was of.
#[derive(Clone, Copy, PartialEq, Eq, Structural, Debug)]
pub enum Shape {
    Character,
    Unit,
    Action,
    RuleTy,
    Vector,
    Tuple,
    Optional,
    Struct,
    StructTuple,
    Sum,
    TypeAlias,
    Field,
}

/// A visitor that descends everywhere and records the shape of each visit.
pub struct Recorder {
    pub shapes: Vec<Shape>,
    pub trace: Ghost<Seq<Visit>>,
}

impl Recorder {
    pub fn new() -> (r: Recorder)
        ensures
            r.visited() == Seq::<Visit>::empty(),
            r.shapes@.len() == 0,
    {
        Recorder { shapes: Vec::new(), trace: Ghost(Seq::empty()) }
    }
}

impl Visitor for Recorder {
    open spec fn visited(&self) -> Seq<Visit> {
        self.trace@
    }

    open spec fn descends(v: Visit) -> bool {
        true
    }

    fn visit_character(&mut self) {
        self.shapes.push(Shape::Character);
        self.trace = Ghost(self.trace@.push(Visit::Type(Ty::Character)));
    }

    fn visit_unit(&mut self) {
        self.shapes.push(Shape::Unit);
        self.trace = Ghost(self.trace@.push(Visit::Type(unit_ty())));
    }

    fn visit_action(&mut self, ret: &String) {
        self.shapes.push(Shape::Action);
        self.trace = Ghost(self.trace@.push(Visit::Type(Ty::Action(ret@))));
    }

    fn visit_rule_type_ph(&mut self, rule: &String) {
        self.shapes.push(Shape::RuleTy);
        self.trace = Ghost(self.trace@.push(Visit::Type(Ty::RuleTy(rule@))));
    }

    fn visit_vector(&mut self, inner: &ExprTy) -> bool {
        self.shapes.push(Shape::Vector);
        self.trace = Ghost(self.trace@.push(Visit::Type(Ty::Vector(Box::new(inner@)))));
        true
    }

    fn visit_tuple(&mut self, tys: &Vec<ExprTy>) -> bool {
        self.shapes.push(Shape::Tuple);
        self.trace = Ghost(
            self.trace@.push(Visit::Type(Ty::Tuple(tys_view(*tys, tys.len() as int)))),
        );
        true
    }

    fn visit_optional(&mut self, inner: &ExprTy) -> bool {
        self.shapes.push(Shape::Optional);
        self.trace = Ghost(self.trace@.push(Visit::Type(Ty::OptionalTy(Box::new(inner@)))));
        true
    }

    fn visit_struct(&mut self, name: &String, fields: &Vec<NamedField>) -> bool {
        self.shapes.push(Shape::Struct);
        self.trace = Ghost(self.trace@.push(Visit::Struct(name@)));
        true
    }

    fn visit_struct_tuple(&mut self, name: &String, tys: &Vec<ExprTy>) -> bool {
        self.shapes.push(Shape::StructTuple);
        self.trace = Ghost(self.trace@.push(Visit::StructTuple(name@)));
        true
    }

    fn visit_sum(&mut self, name: &String, variants: &Vec<NamedField>) -> bool {
        self.shapes.push(Shape::Sum);
        self.trace = Ghost(self.trace@.push(Visit::Sum(name@)));
        true
    }

    fn visit_type_alias(&mut self, name: &String, ty: &ExprTy) -> bool {
        self.shapes.push(Shape::TypeAlias);
        self.trace = Ghost(self.trace@.push(Visit::TypeAlias(name@)));
        true
    }

    fn visit_named_type(&mut self, name: &String, ty: &ExprTy) -> bool {
        self.shapes.push(Shape::Field);
        self.trace = Ghost(self.trace@.push(Visit::Field(name@)));
        true
    }
}

/// The visits of a walk over `t`: `t` itself, then, where the visitor
/// descends, the visits of each component in order.
pub open spec fn ty_trace<V: Visitor>(t: Ty) -> Seq<Visit>
    decreases t, 0int,
{
    let me = Visit::Type(t);
    seq![me] + match t {
        Ty::Tuple(ts) => if ts.len() > 0 && V::descends(me) {
            tys_trace::<V>(ts, ts.len() as int)
        } else {
            Seq::empty()
        },
        Ty::Vector(b) => if V::descends(me) {
            ty_trace::<V>(*b)
        } else {
            Seq::empty()
        },
        Ty::OptionalTy(b) => if V::descends(me) {
            ty_trace::<V>(*b)
        } else {
            Seq::empty()
        },
        _ => Seq::empty(),
    }
}

/// The visits of walks over the first `n` types of `ts`, one after the other.
pub open spec fn tys_trace<V: Visitor>(ts: Seq<Ty>, n: int) -> Seq<Visit>
    decreases ts, n,
{
    if n <= 0 || n > ts.len() {
        Seq::empty()
    } else {
        tys_trace::<V>(ts, n - 1) + ty_trace::<V>(ts[n - 1])
    }
}

/// The visits of a walk over one field: its name, then its type where the
/// visitor descends.
pub open spec fn field_trace<V: Visitor>(f: NamedField) -> Seq<Visit> {
    let me = Visit::Field(f.name@);
    seq![me] + if V::descends(me) {
        ty_trace::<V>(f.ty@)
    } else {
        Seq::empty()
    }
}

/// The visits of walks over the first `n` fields of `fs`, in order.
pub open spec fn fields_trace<V: Visitor>(fs: Seq<NamedField>, n: int) -> Seq<Visit>
    decreases n,
{
    if n <= 0 || n > fs.len() {
        Seq::empty()
    } else {
        fields_trace::<V>(fs, n - 1) + field_trace::<V>(fs[n - 1])
    }
}

/// The visits of a walk over a named type.
pub open spec fn named_trace<V: Visitor>(n: NamedExpressionType) -> Seq<Visit> {
    match n {
        NamedExpressionType::Struct(name, fs) => seq![Visit::Struct(name@)] + if V::descends(
            Visit::Struct(name@),
        ) {
            fields_trace::<V>(fs@, fs.len() as int)
        } else {
            Seq::empty()
        },
        NamedExpressionType::StructTuple(name, ts) => seq![Visit::StructTuple(name@)] + if V::descends(
            Visit::StructTuple(name@),
        ) {
            tys_trace::<V>(tys_view(ts, ts.len() as int), ts.len() as int)
        } else {
            Seq::empty()
        },
        NamedExpressionType::Sum(name, fs) => seq![Visit::Sum(name@)] + if V::descends(
            Visit::Sum(name@),
        ) {
            fields_trace::<V>(fs@, fs.len() as int)
        } else {
            Seq::empty()
        },
        NamedExpressionType::TypeAlias(name, t) => seq![Visit::TypeAlias(name@)] + if V::descends(
            Visit::TypeAlias(name@),
        ) {
            ty_trace::<V>(t@)
        } else {
            Seq::empty()
        },
    }
}

/// Walks the value type of a rule: its named type where it declares one,
/// else the type that typing gave it.
pub fn walk_rule<V: Visitor>(visitor: &mut V, rule: &Rule, typed: &TypedRule)
    ensures
        rule.style is New ==> final(visitor).visited() == old(visitor).visited() + named_trace::<V>(
            rule.style->New_0,
        ),
        !(rule.style is New) ==> final(visitor).visited() == old(visitor).visited() + ty_trace::<V>(
            typed.ty@,
        ),
{
    match &rule.style {
        TypeStyle::New(n) => walk_named_ty(visitor, n),
        _ => walk_ty(visitor, &typed.ty),
    }
}

/// Visits `ty`, then, where the visitor descends, each of its components.
pub fn walk_ty<V: Visitor>(visitor: &mut V, ty: &ExprTy)
    ensures
        final(visitor).visited() == old(visitor).visited() + ty_trace::<V>(ty@),
    decreases ty,
{
    let ghost start = visitor.visited();
    match ty {
        ExprTy::Character => visitor.visit_character(),
        ExprTy::Action(ret) => visitor.visit_action(ret),
        ExprTy::RuleTy(rule) => visitor.visit_rule_type_ph(rule),
        ExprTy::Vector(inner) => {
            if visitor.visit_vector(inner) {
                walk_ty(visitor, inner);
                proof {
                    assert(visitor.visited() =~= start + ty_trace::<V>(ty@));
                }
            }
        },
        ExprTy::OptionalTy(inner) => {
            if visitor.visit_optional(inner) {
                walk_ty(visitor, inner);
                proof {
                    assert(visitor.visited() =~= start + ty_trace::<V>(ty@));
                }
            }
        },
        ExprTy::Tuple(tys) => {
            proof {
                lemma_tys_view_len(*tys, tys.len() as int);
            }
            if tys.len() == 0 {
                proof {
                    assert(tys_view(*tys, 0) =~= Seq::<Ty>::empty());
                }
                visitor.visit_unit();
            } else if visitor.visit_tuple(tys) {
                proof {
                    assert(decreases_to!(*ty => ty->Tuple_0));
                }
                walk_tys(visitor, tys);
                proof {
                    assert(visitor.visited() =~= start + ty_trace::<V>(ty@));
                }
            }
        },
    }
    proof {
        assert(visitor.visited() =~= start + ty_trace::<V>(ty@));
    }
}

/// Walks each type of `tys`, in order.
pub fn walk_tys<V: Visitor>(visitor: &mut V, tys: &Vec<ExprTy>)
    ensures
        final(visitor).visited() == old(visitor).visited() + tys_trace::<V>(
            tys_view(*tys, tys.len() as int),
            tys.len() as int,
        ),
    decreases tys, 0int,
{
    let ghost start = visitor.visited();
    let ghost tv = tys_view(*tys, tys.len() as int);
    proof {
        lemma_tys_view_len(*tys, tys.len() as int);
        assert(start =~= start + tys_trace::<V>(tv, 0));
    }
    let mut i: usize = 0;
    while i < tys.len()
        invariant
            0 <= i <= tys.len(),
            tv == tys_view(*tys, tys.len() as int),
            tv.len() == tys.len(),
            forall|k: int| 0 <= k < tys.len() ==> #[trigger] tv[k] == tys[k]@,
            visitor.visited() == start + tys_trace::<V>(tv, i as int),
        decreases tys.len() - i,
    {
        proof {
            vstd::std_specs::vec::axiom_vec_index_decreases(*tys, i as int);
        }
        walk_ty(visitor, &tys[i]);
        proof {
            assert(visitor.visited() =~= start + tys_trace::<V>(tv, i + 1));
        }
        i = i + 1;
    }
}

/// Visits a named type, then, where the visitor descends, its fields, the
/// types of a tuple struct, or the aliased type.
pub fn walk_named_ty<V: Visitor>(visitor: &mut V, n: &NamedExpressionType)
    ensures
        final(visitor).visited() == old(visitor).visited() + named_trace::<V>(*n),
{
    let ghost start = visitor.visited();
    match n {
        NamedExpressionType::Struct(name, fields) => {
            if visitor.visit_struct(name, fields) {
                walk_named_tys(visitor, fields);
            }
        },
        NamedExpressionType::StructTuple(name, tys) => {
            if visitor.visit_struct_tuple(name, tys) {
                walk_tys(visitor, tys);
            }
        },
        NamedExpressionType::Sum(name, variants) => {
            if visitor.visit_sum(name, variants) {
                walk_named_tys(visitor, variants);
            }
        },
        NamedExpressionType::TypeAlias(name, t) => {
            if visitor.visit_type_alias(name, t) {
                walk_ty(visitor, t);
            }
        },
    }
    proof {
        assert(visitor.visited() =~= start + named_trace::<V>(*n));
    }
}

/// Visits each field by name, then, where the visitor descends, its type.
pub fn walk_named_tys<V: Visitor>(visitor: &mut V, fields: &Vec<NamedField>)
    ensures
        final(visitor).visited() == old(visitor).visited() + fields_trace::<V>(
            fields@,
            fields.len() as int,
        ),
{
    let ghost start = visitor.visited();
    proof {
        assert(start =~= start + fields_trace::<V>(fields@, 0));
    }
    let mut i: usize = 0;
    while i < fields.len()
        invariant
            0 <= i <= fields.len(),
            visitor.visited() == start + fields_trace::<V>(fields@, i as int),
        decreases fields.len() - i,
    {
        let ghost before = visitor.visited();
        let f = &fields[i];
        if visitor.visit_named_type(&f.name, &f.ty) {
            walk_ty(visitor, &f.ty);
        }
        proof {
            assert(visitor.visited() =~= before + field_trace::<V>(fields@[i as int]));
            assert(visitor.visited() =~= start + fields_trace::<V>(fields@, i + 1));
        }
        i = i + 1;
    }
}

} // verus!
