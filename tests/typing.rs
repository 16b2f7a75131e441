use oak::ast::{
    CharacterInterval, DiagnosticKind, EvaluationContext, Expression, ExpressionNode,
    FunctionKind, Grammar, NamedExpressionType, NamedField, Rule, Span, TypeStyle, TypedRule,
};
use oak::normalize::bottom_up_unit_inference;
use oak::pipeline::grammar_typing;
use oak::ty::ExprTy;
use oak::typing::type_of_expr;
use oak::visitor::{walk_named_ty, walk_rule, walk_ty, walk_tys, Recorder, Shape};

fn sp() -> Span {
    Span { lo: 0, hi: 0 }
}

fn ex(node: ExpressionNode) -> Expression {
    Expression { span: sp(), node }
}

fn lit(s: &str) -> Expression {
    ex(ExpressionNode::StrLiteral(s.to_string()))
}

fn class(lo: char, hi: char) -> Expression {
    ex(ExpressionNode::CharacterClass(vec![CharacterInterval { lo, hi }]))
}

fn nt(s: &str) -> Expression {
    ex(ExpressionNode::NonTerminalSymbol(s.to_string()))
}

fn seq(es: Vec<Expression>) -> Expression {
    ex(ExpressionNode::Sequence(es))
}

fn choice(es: Vec<Expression>) -> Expression {
    ex(ExpressionNode::Choice(es))
}

fn rule(name: &str, def: Expression) -> Rule {
    Rule { name: name.to_string(), span: sp(), style: TypeStyle::Inline, def }
}

fn grammar(rules: Vec<Rule>) -> Grammar {
    Grammar { name: "g".to_string(), rules }
}

fn typed(g: &Grammar) -> Vec<TypedRule> {
    match grammar_typing(g) {
        Ok(rs) => rs,
        Err(ds) => panic!("unexpected diagnostics: {:?}", ds),
    }
}

fn tuple(ts: Vec<ExprTy>) -> ExprTy {
    ExprTy::Tuple(ts)
}

fn same(a: &ExprTy, b: &ExprTy) -> bool {
    a.same_as(b)
}

#[test]
fn sequence_of_literals_is_unit() {
    let g = grammar(vec![rule("ignore", seq(vec![lit("a"), lit("b")]))]);
    let rs = typed(&g);
    assert!(rs[0].ty.is_unit());
    assert!(matches!(rs[0].kind, FunctionKind::Recognizer));
}

#[test]
fn sequence_with_one_value_is_projection() {
    let g = grammar(vec![rule("single", seq(vec![lit("a"), class('0', '9'), lit("b")]))]);
    let rs = typed(&g);
    assert!(same(&rs[0].ty, &ExprTy::Character));
    assert!(matches!(rs[0].kind, FunctionKind::ParserAlias));
    let flags = vec![false];
    assert!(g.rules[0].def.is_forwading_type(&g, &flags));
}

#[test]
fn sequence_with_two_values_is_tuple() {
    let g = grammar(vec![rule("pair", seq(vec![class('0', '9'), lit("-"), class('a', 'z')]))]);
    let rs = typed(&g);
    assert!(same(&rs[0].ty, &tuple(vec![ExprTy::Character, ExprTy::Character])));
    assert!(!rs[0].ty.is_projection());
}

#[test]
fn repetition_of_unit_is_unit() {
    let star = ex(ExpressionNode::ZeroOrMore(Box::new(lit(" "))));
    let plus = ex(ExpressionNode::OneOrMore(Box::new(lit(" "))));
    let opt = ex(ExpressionNode::Optional(Box::new(lit(" "))));
    let g = grammar(vec![rule("spaces", star), rule("more", plus), rule("maybe", opt)]);
    let rs = typed(&g);
    assert!(rs.iter().all(|r| r.ty.is_unit()));
}

#[test]
fn repetition_of_character_is_vector() {
    let star = ex(ExpressionNode::ZeroOrMore(Box::new(class('0', '9'))));
    let opt = ex(ExpressionNode::Optional(Box::new(ex(ExpressionNode::AnySingleChar))));
    let g = grammar(vec![rule("digits", star), rule("any", opt)]);
    let rs = typed(&g);
    assert!(same(&rs[0].ty, &ExprTy::Vector(Box::new(ExprTy::Character))));
    assert!(same(&rs[1].ty, &ExprTy::OptionalTy(Box::new(ExprTy::Character))));
    assert!(matches!(rs[0].kind, FunctionKind::Both(ExprTy::Vector(_))));
}

#[test]
fn merge_table() {
    let u = EvaluationContext::UnValued;
    let b = EvaluationContext::Both;
    assert_eq!(u.merge(u), u);
    assert_eq!(u.merge(b), b);
    assert_eq!(b.merge(u), b);
    assert_eq!(b.merge(b), b);
}

#[test]
fn rule_used_only_under_predicate_is_recognizer() {
    let not_digit = ex(ExpressionNode::NotPredicate(Box::new(nt("digit"))));
    let g = grammar(vec![
        rule("start", seq(vec![not_digit, ex(ExpressionNode::AnySingleChar)])),
        rule("digit", class('0', '9')),
    ]);
    let rs = typed(&g);
    assert_eq!(rs[1].context, EvaluationContext::UnValued);
    assert!(matches!(rs[1].kind, FunctionKind::Recognizer));
    assert_eq!(rs[0].context, EvaluationContext::Both);
    assert!(matches!(rs[0].kind, FunctionKind::ParserAlias));
}

#[test]
fn rule_used_for_its_value_is_not_recognizer() {
    let not_digit = ex(ExpressionNode::NotPredicate(Box::new(nt("digit"))));
    let g = grammar(vec![
        rule("start", seq(vec![not_digit, nt("digit")])),
        rule("digit", class('0', '9')),
    ]);
    let rs = typed(&g);
    assert_eq!(rs[1].context, EvaluationContext::Both);
    assert!(matches!(rs[1].kind, FunctionKind::Both(ExprTy::Character)));
    assert!(matches!(rs[0].kind, FunctionKind::ParserAlias));
    assert!(matches!(&rs[0].ty, ExprTy::RuleTy(n) if n == "digit"));
}

#[test]
fn forward_reference_to_unit_rule_becomes_unit() {
    let g = grammar(vec![
        rule("a", seq(vec![nt("b"), lit("x")])),
        rule("b", seq(vec![nt("c"), lit("y")])),
        rule("c", lit("z")),
    ]);
    let rs = typed(&g);
    assert!(rs.iter().all(|r| r.ty.is_unit()));
    assert!(rs.iter().all(|r| matches!(r.kind, FunctionKind::Recognizer)));
}

#[test]
fn normalizer_second_run_changes_nothing() {
    let g = grammar(vec![
        rule("a", seq(vec![nt("b"), lit("x")])),
        rule("b", seq(vec![nt("c"), lit("y")])),
        rule("c", lit("z")),
        rule("d", seq(vec![nt("d"), class('a', 'z')])),
    ]);
    let once = bottom_up_unit_inference(&g, vec![false; 4]);
    assert_eq!(once, vec![true, true, true, false]);
    let twice = bottom_up_unit_inference(&g, once.clone());
    assert_eq!(twice, once);
}

#[test]
fn undeclared_rule_is_reported_once() {
    let g = grammar(vec![
        rule("a", seq(vec![nt("missing"), lit("x")])),
        rule("b", class('a', 'z')),
    ]);
    match grammar_typing(&g) {
        Ok(_) => panic!("expected diagnostics"),
        Err(ds) => {
            assert_eq!(ds.len(), 1);
            assert_eq!(ds[0].kind, DiagnosticKind::UndeclaredRule);
            assert_eq!(ds[0].name, "missing");
        },
    }
}

#[test]
fn divergent_choice_is_ambiguous() {
    let many = ex(ExpressionNode::OneOrMore(Box::new(class('a', 'z'))));
    let g = grammar(vec![rule("x", choice(vec![class('0', '9'), many]))]);
    match grammar_typing(&g) {
        Ok(_) => panic!("expected diagnostics"),
        Err(ds) => {
            assert_eq!(ds.len(), 1);
            assert_eq!(ds[0].kind, DiagnosticKind::AmbiguousChoiceType);
            assert_eq!(ds[0].name, "x");
        },
    }
}

#[test]
fn agreeing_choice_takes_branch_type() {
    let g = grammar(vec![rule("x", choice(vec![class('0', '9'), ex(ExpressionNode::AnySingleChar)]))]);
    let rs = typed(&g);
    assert!(same(&rs[0].ty, &ExprTy::Character));
}

#[test]
fn annotation_must_match_body() {
    let mut bad = rule("n", class('0', '9'));
    bad.style = TypeStyle::Annotated(ExprTy::Vector(Box::new(ExprTy::Character)));
    let mut act = rule("m", choice(vec![class('0', '9'), lit("x")]));
    act.style = TypeStyle::Annotated(ExprTy::Action("u32".to_string()));
    let g = grammar(vec![bad, act]);
    match grammar_typing(&g) {
        Ok(_) => panic!("expected diagnostics"),
        Err(ds) => {
            assert_eq!(ds.len(), 1);
            assert_eq!(ds[0].kind, DiagnosticKind::IncompatibleAnnotation);
            assert_eq!(ds[0].name, "n");
        },
    }
}

#[test]
fn invisible_rule_has_no_value() {
    let mut r = rule("ws", class(' ', ' '));
    r.style = TypeStyle::Invisible;
    let g = grammar(vec![r, rule("s", seq(vec![nt("ws"), class('a', 'z')]))]);
    let rs = typed(&g);
    assert!(rs[0].ty.is_unit());
    assert!(same(&rs[1].ty, &ExprTy::Character));
    assert!(matches!(rs[0].kind, FunctionKind::Recognizer));
}

#[test]
fn type_of_expression_under_flags() {
    let g = grammar(vec![rule("a", class('a', 'z'))]);
    let e = seq(vec![nt("a"), nt("a")]);
    let visible = type_of_expr(&g, &vec![false], &e);
    assert!(same(&visible, &tuple(vec![ExprTy::RuleTy("a".to_string()), ExprTy::RuleTy("a".to_string())])));
    let hidden = type_of_expr(&g, &vec![true], &e);
    assert!(hidden.is_unit());
    assert!(lit("a").is_by_default_invisible());
    assert!(!class('a', 'b').is_by_default_invisible());
}

#[test]
fn copy_and_compare_types() {
    let t = tuple(vec![ExprTy::Character, ExprTy::Vector(Box::new(ExprTy::Action("T".to_string())))]);
    let c = t.deep_copy();
    assert!(t.same_as(&c));
    assert!(!t.same_as(&ExprTy::Character));
    assert!(ExprTy::unit().is_unit());
    assert!(tuple(vec![ExprTy::Character]).is_projection());
}

#[test]
fn function_kind_queries() {
    let k = FunctionKind::Both(ExprTy::Character);
    assert!(k.is_recognizer());
    assert!(!k.is_unit());
    assert!(same(&k.to_type(), &ExprTy::Character));
    assert!(FunctionKind::ParserAlias.is_unit());
    assert!(!FunctionKind::Parser(ExprTy::Character).is_recognizer());
    assert!(FunctionKind::Recognizer.to_type().is_unit());
}

#[test]
fn visitor_reaches_every_component() {
    let t = tuple(vec![
        ExprTy::Character,
        ExprTy::Vector(Box::new(tuple(vec![ExprTy::Character, ExprTy::RuleTy("r".to_string())]))),
        ExprTy::OptionalTy(Box::new(ExprTy::Action("T".to_string()))),
        ExprTy::unit(),
    ]);
    let mut rec = Recorder::new();
    walk_ty(&mut rec, &t);
    assert_eq!(
        rec.shapes,
        vec![
            Shape::Tuple,
            Shape::Character,
            Shape::Vector,
            Shape::Tuple,
            Shape::Character,
            Shape::RuleTy,
            Shape::Optional,
            Shape::Action,
            Shape::Unit,
        ]
    );
}

#[test]
fn walk_tys_visits_in_order() {
    let tys = vec![ExprTy::Character, ExprTy::unit(), ExprTy::RuleTy("a".to_string())];
    let mut rec = Recorder::new();
    walk_tys(&mut rec, &tys);
    assert_eq!(rec.shapes, vec![Shape::Character, Shape::Unit, Shape::RuleTy]);
    let mut empty = Recorder::new();
    walk_tys(&mut empty, &Vec::new());
    assert!(empty.shapes.is_empty());
}

#[test]
fn walk_rule_visits_rule_type() {
    let g = grammar(vec![rule("pair", seq(vec![class('0', '9'), class('a', 'z')]))]);
    let rs = typed(&g);
    let mut rec = Recorder::new();
    walk_rule(&mut rec, &g.rules[0], &rs[0]);
    assert_eq!(rec.shapes, vec![Shape::Tuple, Shape::Character, Shape::Character]);
}

#[test]
fn named_rule_type() {
    let fields = vec![
        NamedField { name: "digit".to_string(), ty: ExprTy::Character },
        NamedField { name: "rest".to_string(), ty: ExprTy::Vector(Box::new(ExprTy::Character)) },
    ];
    let mut r = rule("number", seq(vec![class('0', '9'), choice(vec![lit("a"), class('a', 'z')])]));
    r.style = TypeStyle::New(NamedExpressionType::Struct("Number".to_string(), fields));
    let g = grammar(vec![r]);
    let rs = typed(&g);
    assert!(same(&rs[0].ty, &ExprTy::Action("Number".to_string())));
    assert!(matches!(rs[0].kind, FunctionKind::Both(ExprTy::Action(_))));
    let mut rec = Recorder::new();
    walk_rule(&mut rec, &g.rules[0], &rs[0]);
    assert_eq!(
        rec.shapes,
        vec![Shape::Struct, Shape::Field, Shape::Character, Shape::Field, Shape::Vector, Shape::Character]
    );
}

#[test]
fn walk_named_types() {
    let alias = NamedExpressionType::TypeAlias("Digits".to_string(), ExprTy::Vector(Box::new(ExprTy::Character)));
    let mut rec = Recorder::new();
    walk_named_ty(&mut rec, &alias);
    assert_eq!(rec.shapes, vec![Shape::TypeAlias, Shape::Vector, Shape::Character]);
    let sum = NamedExpressionType::Sum(
        "Token".to_string(),
        vec![NamedField { name: "Letter".to_string(), ty: ExprTy::Character }],
    );
    let st = NamedExpressionType::StructTuple("Pair".to_string(), vec![ExprTy::Character, ExprTy::Character]);
    let mut rec2 = Recorder::new();
    walk_named_ty(&mut rec2, &sum);
    walk_named_ty(&mut rec2, &st);
    assert_eq!(
        rec2.shapes,
        vec![Shape::Sum, Shape::Field, Shape::Character, Shape::StructTuple, Shape::Character, Shape::Character]
    );
    assert_eq!(st.declared_name(), "Pair");
}

#[test]
fn node_types_in_pre_order() {
    let g = grammar(vec![rule("single", seq(vec![lit("a"), class('0', '9'), lit("b")]))]);
    let rs = typed(&g);
    let nodes = &rs[0].nodes;
    assert_eq!(nodes.len(), 4);
    assert!(same(&nodes[0], &ExprTy::Character));
    assert!(nodes[1].is_unit());
    assert!(same(&nodes[2], &ExprTy::Character));
    assert!(nodes[3].is_unit());
}

#[test]
fn expression_unit_follows_flags() {
    let g = grammar(vec![rule("a", class('a', 'z'))]);
    let e = ex(ExpressionNode::Optional(Box::new(nt("a"))));
    assert!(!e.is_unit(&g, &vec![false]));
    assert!(e.is_unit(&g, &vec![true]));
    assert!(!e.is_forwading_type(&g, &vec![false]));
    assert!(nt("a").is_forwading_type(&g, &vec![false]));
}

#[test]
fn node_contexts_in_pre_order() {
    let not_digit = ex(ExpressionNode::NotPredicate(Box::new(nt("digit"))));
    let g = grammar(vec![
        rule("start", seq(vec![not_digit, ex(ExpressionNode::AnySingleChar)])),
        rule("digit", class('0', '9')),
    ]);
    let rs = typed(&g);
    let b = EvaluationContext::Both;
    let u = EvaluationContext::UnValued;
    assert_eq!(rs[0].node_contexts, vec![b, b, u, b]);
    assert_eq!(rs[1].node_contexts, vec![b]);
}
