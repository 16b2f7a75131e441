//! The grammar as handed over by the front-end, and the results of typing it.
use vstd::prelude::*;
use crate::ty::ExprTy;

verus! {

/// A region of the grammar's source text.
#[derive(Clone, Copy, PartialEq, Eq, Structural, Debug)]
pub struct Span {
    pub lo: usize,
    pub hi: usize,
}

/// The characters from `lo` to `hi`, both included.
#[derive(Clone, Copy, PartialEq, Eq, Structural, Debug)]
pub struct CharacterInterval {
    pub lo: char,
    pub hi: char,
}

/// The PEG combinators.
#[derive(Debug)]
pub enum ExpressionNode {
    StrLiteral(String),
    AnySingleChar,
    CharacterClass(Vec<CharacterInterval>),
    /// A reference, by name, to a rule of the grammar.
    NonTerminalSymbol(String),
    Sequence(Vec<Expression>),
    /// Alternatives tried in order; the first that matches wins.
    Choice(Vec<Expression>),
    ZeroOrMore(Box<Expression>),
    OneOrMore(Box<Expression>),
    Optional(Box<Expression>),
    NotPredicate(Box<Expression>),
    AndPredicate(Box<Expression>),
}

#[derive(Debug)]
pub struct Expression {
    pub span: Span,
    pub node: ExpressionNode,
}

/// A field of a struct, or a variant of a sum type, with its type.
#[derive(Debug)]
pub struct NamedField {
    pub name: String,
    pub ty: ExprTy,
}

/// A type that a rule asks to be declared under a name of its own.
#[derive(Debug)]
pub enum NamedExpressionType {
    Struct(String, Vec<NamedField>),
    StructTuple(String, Vec<ExprTy>),
    Sum(String, Vec<NamedField>),
    TypeAlias(String, ExprTy),
}

/// The name under which the type is declared.
pub open spec fn named_type_name(n: NamedExpressionType) -> Seq<char> {
    match n {
        NamedExpressionType::Struct(name, _) => name@,
        NamedExpressionType::StructTuple(name, _) => name@,
        NamedExpressionType::Sum(name, _) => name@,
        NamedExpressionType::TypeAlias(name, _) => name@,
    }
}

impl NamedExpressionType {
    pub fn declared_name(&self) -> (r: String)
        ensures
            r@ == named_type_name(*self),
    {
        match self {
            NamedExpressionType::Struct(name, _) | NamedExpressionType::StructTuple(name, _)
            | NamedExpressionType::Sum(name, _) | NamedExpressionType::TypeAlias(name, _) => name.clone(),
        }
    }
}

/// How a rule asks its value type to be chosen.
#[derive(Debug)]
pub enum TypeStyle {
    /// The rule's value is of a newly declared named type.
    New(NamedExpressionType),
    /// The type is inferred from the rule's body.
    Inline,
    /// The rule produces no value, whatever its body.
    Invisible,
    /// The type is given explicitly; the body must be compatible with it.
    Annotated(ExprTy),
}

#[derive(Debug)]
pub struct Rule {
    pub name: String,
    pub span: Span,
    pub style: TypeStyle,
    pub def: Expression,
}

/// A named table of rules.
#[derive(Debug)]
pub struct Grammar {
    pub name: String,
    pub rules: Vec<Rule>,
}

impl Grammar {
    /// Rule names are unique keys of the rule table.
    pub open spec fn wf(&self) -> bool {
        forall|i: int, j: int|
            0 <= i < j < self.rules.len() ==> #[trigger] self.rules[i].name@ != #[trigger] self.rules[j].name@
    }
}

/// Whether a value is ever consumed: never (`UnValued`) or at least once (`Both`).
#[derive(Clone, Copy, PartialEq, Eq, Structural, Debug)]
pub enum EvaluationContext {
    UnValued,
    Both,
}

pub open spec fn ctx_merge(a: EvaluationContext, b: EvaluationContext) -> EvaluationContext {
    if a == b {
        a
    } else {
        EvaluationContext::Both
    }
}

impl EvaluationContext {
    /// The least upper bound of the two contexts.
    pub fn merge(self, other: EvaluationContext) -> (r: EvaluationContext)
        ensures
            r == ctx_merge(self, other),
    {
        if self != other {
            EvaluationContext::Both
        } else {
            self
        }
    }
}

/// `merge` is commutative, associative and idempotent, with `UnValued` as
/// identity and `Both` as absorbing element.
pub proof fn lemma_merge_laws(a: EvaluationContext, b: EvaluationContext, c: EvaluationContext)
    ensures
        ctx_merge(a, b) == ctx_merge(b, a),
        ctx_merge(ctx_merge(a, b), c) == ctx_merge(a, ctx_merge(b, c)),
        ctx_merge(a, a) == a,
        ctx_merge(EvaluationContext::UnValued, a) == a,
        ctx_merge(a, EvaluationContext::UnValued) == a,
        ctx_merge(EvaluationContext::Both, a) == EvaluationContext::Both,
        ctx_merge(a, EvaluationContext::Both) == EvaluationContext::Both,
{
}

/// The functions the code generator emits for a rule.
#[derive(Debug)]
pub enum FunctionKind {
    /// Only the recognizer.
    Recognizer,
    /// Only the parser, producing a value of the given type.
    Parser(ExprTy),
    /// One body serves as both recognizer and parser.
    ParserAlias,
    /// A recognizer and a parser producing a value of the given type.
    Both(ExprTy),
}

impl FunctionKind {
    /// Whether a recognizer is generated.
    pub fn is_recognizer(&self) -> (r: bool)
        ensures
            r == !(self is Parser),
    {
        match self {
            FunctionKind::Recognizer | FunctionKind::Both(_) | FunctionKind::ParserAlias => true,
            _ => false,
        }
    }

    /// Whether the kind carries no value type of its own.
    pub fn is_unit(&self) -> (r: bool)
        ensures
            r == (self is Recognizer || self is ParserAlias),
    {
        match self {
            FunctionKind::Recognizer | FunctionKind::ParserAlias => true,
            _ => false,
        }
    }

    /// The value type of the generated parser; unit where the kind carries none.
    pub fn to_type(&self) -> (r: ExprTy)
        ensures
            (self is Parser ==> r@ == self->Parser_0@),
            (self is Both ==> r@ == self->Both_0@),
            (self is Recognizer || self is ParserAlias) ==> r@ == crate::ty::unit_ty(),
    {
        match self {
            FunctionKind::Parser(t) | FunctionKind::Both(t) => t.deep_copy(),
            _ => ExprTy::unit(),
        }
    }
}

/// What went wrong while typing a grammar.
#[derive(Clone, Copy, PartialEq, Eq, Structural, Debug)]
pub enum DiagnosticKind {
    /// A nonterminal names a rule that the grammar does not declare.
    UndeclaredRule,
    /// The branches of a choice have different value types.
    AmbiguousChoiceType,
    /// A rule's explicit type differs from the type of its body.
    IncompatibleAnnotation,
}

/// A diagnostic tied to a source span and the identifier it is about.
#[derive(Debug)]
pub struct Diagnostic {
    pub kind: DiagnosticKind,
    pub span: Span,
    pub name: String,
}

/// Model of a diagnostic.
pub type DiagModel = (DiagnosticKind, Span, Seq<char>);

impl View for Diagnostic {
    type V = DiagModel;

    open spec fn view(&self) -> DiagModel {
        (self.kind, self.span, self.name@)
    }
}

/// A rule after typing: its value type, the types of the nodes of its body
/// in pre-order, the context in which its value is used, and the functions
/// to generate for it.
#[derive(Debug)]
pub struct TypedRule {
    pub name: String,
    pub ty: ExprTy,
    pub nodes: Vec<ExprTy>,
    /// The evaluation context of each node of the body, in pre-order.
    pub node_contexts: Vec<EvaluationContext>,
    pub context: EvaluationContext,
    pub kind: FunctionKind,
}

} // verus!
