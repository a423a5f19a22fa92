use ast_typegen::ast_types::render_type_hierarchy;
use ast_typegen::grammar::{Grammar, RawGrammar, Rule, RuleBody};
use ast_typegen::type_gen::TypeGenerator;
use ast_typegen::GenError;

fn sym(name: &str) -> RuleBody {
    RuleBody::Symbol { name: name.to_string() }
}

fn lit(value: &str) -> RuleBody {
    RuleBody::String { value: value.to_string() }
}

fn pat(value: &str) -> RuleBody {
    RuleBody::Pattern { value: value.to_string() }
}

fn rule(name: &str, body: RuleBody) -> Rule {
    Rule { name: name.to_string(), body, is_extra: false }
}

fn run(rules: Vec<Rule>) -> Result<Vec<ast_typegen::ast_types::AstType>, GenError> {
    let mut gen = TypeGenerator::new();
    for r in &rules {
        gen.add_rule(r).expect("rule names must be unique");
    }
    gen.gen()
}

#[test]
fn arithmetic_choice_orders_dependency_first() {
    // expr: CHOICE[SYMBOL(num), SEQ[SYMBOL(expr), STRING("+"), SYMBOL(expr)]]
    // num: PATTERN("[0-9]+")
    let expr = rule(
        "expr",
        RuleBody::Choice {
            members: vec![
                sym("num"),
                RuleBody::Sequence { members: vec![sym("expr"), lit("+"), sym("expr")] },
            ],
        },
    );
    let num = rule("num", pat("[0-9]+"));
    let tys = run(vec![expr, num]).expect("acyclic grammar must generate");
    assert_eq!(tys.len(), 2);
    assert_eq!(tys[0].name, "num");
    assert_eq!(tys[1].name, "expr");
    assert_eq!(tys[0].render(), "num = string");
    assert_eq!(
        tys[1].render(),
        "expr = \n | EXPR_CTOR_0 (num)\n | EXPR_CTOR_1 ((expr, string, expr))"
    );
    assert_eq!(
        render_type_hierarchy(&tys),
        "type num = string\nand expr = \n | EXPR_CTOR_0 (num)\n | EXPR_CTOR_1 ((expr, string, expr))\n;"
    );
}

#[test]
fn repeat_choice_hoists_synthetic_rule() {
    // list_rule: REPEAT(CHOICE[SYMBOL(a), SYMBOL(b)]) with a, b terminals
    let list_rule = rule(
        "list_rule",
        RuleBody::Repeat {
            content: Box::new(RuleBody::Choice { members: vec![sym("a"), sym("b")] }),
        },
    );
    let a = rule("a", lit("x"));
    let b = rule("b", lit("y"));
    let tys = run(vec![list_rule, a, b]).expect("acyclic grammar must generate");
    let names: Vec<&str> = tys.iter().map(|t| t.name.as_str()).collect();
    assert_eq!(names, vec!["a", "b", "list_rule_0", "list_rule"]);
    // the synthetic rule holds the choice and is ordered before list_rule
    assert_eq!(
        tys[2].render(),
        "list_rule_0 = \n | LIST_RULE_0_CTOR_0 (a)\n | LIST_RULE_0_CTOR_1 (b)"
    );
    assert_eq!(tys[3].render(), "list_rule = list(list_rule_0)");
}

#[test]
fn mutual_reference_cycle_is_rejected() {
    // a -> SYMBOL(b), b -> SYMBOL(a): never a silently truncated output
    let r = run(vec![rule("a", sym("b")), rule("b", sym("a"))]);
    assert!(matches!(r, Err(GenError::CyclicDependency)));
}

#[test]
fn self_reference_is_no_cycle() {
    // a rule referencing itself is a legitimate recursive type
    let tys = run(vec![rule(
        "expr",
        RuleBody::Sequence { members: vec![sym("expr"), lit("+")] },
    )])
    .expect("self reference must not count as a cycle");
    assert_eq!(tys.len(), 1);
    assert_eq!(tys[0].render(), "expr = (expr, string)");
}

#[test]
fn dangling_reference_is_reported() {
    let r = run(vec![rule(
        "expr",
        RuleBody::Sequence { members: vec![sym("num"), lit("!")] },
    )]);
    match r {
        Err(GenError::DanglingReference(name)) => assert_eq!(name, "num"),
        other => panic!("expected a dangling reference, got {:?}", other.is_ok()),
    }
}

#[test]
fn duplicate_rule_name_collides() {
    let mut gen = TypeGenerator::new();
    gen.add_rule(&rule("a", lit("x"))).expect("first name is free");
    let r = gen.add_rule(&rule("a", lit("y")));
    match r {
        Err(GenError::NameCollision(name)) => assert_eq!(name, "a"),
        _ => panic!("expected a name collision"),
    }
}

#[test]
fn synthetic_name_collision_with_user_rule() {
    let mut gen = TypeGenerator::new();
    gen.add_rule(&rule("list_rule_0", lit("x"))).expect("first name is free");
    // hoisting list_rule's nested choice allocates the name list_rule_0
    let list_rule = rule(
        "list_rule",
        RuleBody::Repeat {
            content: Box::new(RuleBody::Choice { members: vec![lit("a"), lit("b")] }),
        },
    );
    let r = gen.add_rule(&list_rule);
    match r {
        Err(GenError::NameCollision(name)) => assert_eq!(name, "list_rule_0"),
        _ => panic!("expected a name collision with the synthetic name"),
    }
}

#[test]
fn extras_emitted_last_in_original_order() {
    let ws = Rule { name: "ws".to_string(), body: pat("\\s+"), is_extra: true };
    let comment = Rule { name: "comment".to_string(), body: pat("//.*"), is_extra: true };
    let expr = rule("expr", RuleBody::Sequence { members: vec![sym("num")] });
    let num = rule("num", pat("[0-9]+"));
    let tys = run(vec![ws, expr, comment, num]).expect("acyclic grammar must generate");
    let names: Vec<&str> = tys.iter().map(|t| t.name.as_str()).collect();
    assert_eq!(names, vec!["num", "expr", "ws", "comment"]);
}

#[test]
fn identical_runs_produce_identical_output() {
    let build = || {
        vec![
            rule(
                "expr",
                RuleBody::Choice {
                    members: vec![
                        sym("num"),
                        RuleBody::Sequence { members: vec![sym("expr"), lit("*"), sym("num")] },
                    ],
                },
            ),
            rule("num", pat("[0-9]+")),
        ]
    };
    let first = render_type_hierarchy(&run(build()).expect("must generate"));
    let second = render_type_hierarchy(&run(build()).expect("must generate"));
    assert_eq!(first, second);
}

#[test]
fn nested_choice_in_sequence_is_hoisted() {
    // expr: SEQ[CHOICE[STRING("+"), STRING("-")], SYMBOL(num)]
    let expr = rule(
        "expr",
        RuleBody::Sequence {
            members: vec![RuleBody::Choice { members: vec![lit("+"), lit("-")] }, sym("num")],
        },
    );
    let num = rule("num", pat("[0-9]+"));
    let tys = run(vec![expr, num]).expect("acyclic grammar must generate");
    let names: Vec<&str> = tys.iter().map(|t| t.name.as_str()).collect();
    // the extracted choice becomes its own rule; expr references it
    assert_eq!(names, vec!["expr_0", "num", "expr"]);
    assert_eq!(tys[0].render(), "expr_0 = \n | EXPR_0_CTOR_0 (string)\n | EXPR_0_CTOR_1 (string)");
    assert_eq!(tys[2].render(), "expr = (expr_0, num)");
}

#[test]
fn grammar_from_raw_drives_generation() {
    let raw = RawGrammar {
        name: "tiny".to_string(),
        rules: vec![
            ("expr".to_string(), RuleBody::Sequence { members: vec![sym("num"), lit("!")] }),
            ("num".to_string(), pat("[0-9]+")),
            ("ws".to_string(), pat("\\s+")),
        ],
        extras: vec![sym("ws"), lit("ignored-non-symbol")],
    };
    let g = Grammar::from_raw(raw);
    assert_eq!(g.name, "tiny");
    let mut gen = TypeGenerator::new();
    for r in g.get_rules() {
        gen.add_rule(r).expect("unique names");
    }
    let tys = gen.gen().expect("acyclic grammar must generate");
    let names: Vec<&str> = tys.iter().map(|t| t.name.as_str()).collect();
    // ws is extra: it bypasses the ordering and is emitted last
    assert_eq!(names, vec!["num", "expr", "ws"]);
}

#[test]
fn empty_grammar_generates_empty_block() {
    let gen = TypeGenerator::new();
    let tys = gen.gen().expect("nothing to order");
    assert!(tys.is_empty());
    assert_eq!(render_type_hierarchy(&tys), "\n;");
}

#[test]
fn precedence_wrappers_are_erased_end_to_end() {
    let expr = rule(
        "expr",
        RuleBody::PrecLeft {
            content: Box::new(RuleBody::Sequence {
                members: vec![sym("num"), lit("+"), sym("num")],
            }),
        },
    );
    let num = rule("num", pat("[0-9]+"));
    let tys = run(vec![expr, num]).expect("acyclic grammar must generate");
    assert_eq!(tys[0].render(), "num = string");
    assert_eq!(tys[1].render(), "expr = (num, string, num)");
}
