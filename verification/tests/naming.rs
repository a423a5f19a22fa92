use ast_typegen::ast_types::{render_type_hierarchy, AstType, AstTypeRepr};
use ast_typegen::name_gen::NameGen;

#[test]
fn fresh_names_count_up() {
    let mut gen = NameGen::new();
    assert_eq!(gen.get_fresh_name("rule"), "rule_0");
    assert_eq!(gen.get_fresh_name("rule"), "rule_1");
    assert_eq!(gen.get_fresh_name("other"), "other_2");
}

#[test]
fn fresh_names_reach_two_digits() {
    let mut gen = NameGen::new();
    let mut last = String::new();
    for _ in 0..13 {
        last = gen.get_fresh_name("x");
    }
    assert_eq!(last, "x_12");
}

#[test]
fn render_name_and_ctor() {
    let name = AstTypeRepr::Name("num".to_string());
    assert_eq!(name.render(), "num");
    let list = AstTypeRepr::Ctor(
        "list".to_string(),
        vec![AstTypeRepr::Name("num".to_string())],
    );
    assert_eq!(list.render(), "list(num)");
    let pair = AstTypeRepr::Ctor(
        "pair".to_string(),
        vec![
            AstTypeRepr::Name("a".to_string()),
            AstTypeRepr::Name("b".to_string()),
        ],
    );
    assert_eq!(pair.render(), "pair(a, b)");
}

#[test]
fn render_product_joins_fields() {
    let product = AstTypeRepr::Product(vec![
        (None, AstTypeRepr::Name("a".to_string())),
        (None, AstTypeRepr::Name("b".to_string())),
        (None, AstTypeRepr::Name("c".to_string())),
    ]);
    assert_eq!(product.render(), "(a, b, c)");
    let empty = AstTypeRepr::Product(vec![]);
    assert_eq!(empty.render(), "()");
}

#[test]
fn render_sum_numbers_alternatives() {
    let sum = AstTypeRepr::Sum(vec![
        ("T_CTOR".to_string(), AstTypeRepr::Name("a".to_string())),
        ("T_CTOR".to_string(), AstTypeRepr::Name("b".to_string())),
    ]);
    assert_eq!(sum.render(), "\n | T_CTOR_0 (a)\n | T_CTOR_1 (b)");
}

#[test]
fn render_hierarchy_prefixes_and_terminates() {
    let tys = vec![
        AstType { name: "a".to_string(), repr: AstTypeRepr::Name("string".to_string()) },
        AstType { name: "b".to_string(), repr: AstTypeRepr::Name("a".to_string()) },
    ];
    assert_eq!(render_type_hierarchy(&tys), "type a = string\nand b = a\n;");
}

#[test]
fn synthesized_tag_is_uppercased() {
    // the constructor tag comes from the uppercased rule name
    let body = ast_typegen::grammar::RuleBody::Choice {
        members: vec![ast_typegen::grammar::RuleBody::String { value: "x".to_string() }],
    };
    let ty = AstType::from_rule("my_rule", &body);
    assert_eq!(ty.render(), "my_rule = \n | MY_RULE_CTOR_0 (string)");
}

#[test]
fn synthesis_erases_precedence() {
    let body = ast_typegen::grammar::RuleBody::PrecRight {
        content: Box::new(ast_typegen::grammar::RuleBody::Sequence {
            members: vec![
                ast_typegen::grammar::RuleBody::Symbol { name: "a".to_string() },
                ast_typegen::grammar::RuleBody::Symbol { name: "b".to_string() },
            ],
        }),
    };
    let ty = AstType::from_rule("r", &body);
    assert_eq!(ty.render(), "r = (a, b)");
}

#[test]
fn synthesis_collapses_literals_to_string() {
    let lit = ast_typegen::grammar::RuleBody::String { value: "+".to_string() };
    assert_eq!(AstType::from_rule("r", &lit).render(), "r = string");
    let pat = ast_typegen::grammar::RuleBody::Pattern { value: "[0-9]".to_string() };
    assert_eq!(AstType::from_rule("r", &pat).render(), "r = string");
    let rep = ast_typegen::grammar::RuleBody::Repeat {
        content: Box::new(ast_typegen::grammar::RuleBody::Symbol { name: "item".to_string() }),
    };
    assert_eq!(AstType::from_rule("r", &rep).render(), "r = list(item)");
}
