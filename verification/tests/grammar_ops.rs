use ast_typegen::grammar::{Grammar, RawGrammar, RuleBody};
use ast_typegen::name_gen::NameGen;

fn sym(name: &str) -> RuleBody {
    RuleBody::Symbol { name: name.to_string() }
}

fn lit(value: &str) -> RuleBody {
    RuleBody::String { value: value.to_string() }
}

#[test]
fn nonterminals_of_sequence_members() {
    let body = RuleBody::Sequence { members: vec![sym("a"), lit("+"), sym("b")] };
    assert_eq!(body.get_nonterminals(), vec!["a".to_string(), "b".to_string()]);
}

#[test]
fn nonterminals_of_single_child_composites() {
    let repeat = RuleBody::Repeat { content: Box::new(sym("item")) };
    assert_eq!(repeat.get_nonterminals(), vec!["item".to_string()]);
    let prec = RuleBody::PrecLeft { content: Box::new(sym("expr")) };
    assert_eq!(prec.get_nonterminals(), vec!["expr".to_string()]);
    let opaque = RuleBody::Repeat {
        content: Box::new(RuleBody::Sequence { members: vec![sym("hidden")] }),
    };
    // nested composites are not entered
    assert_eq!(opaque.get_nonterminals(), Vec::<String>::new());
}

#[test]
fn nonterminals_of_leaves() {
    assert_eq!(sym("x").get_nonterminals(), vec!["x".to_string()]);
    assert_eq!(lit("x").get_nonterminals(), Vec::<String>::new());
    let p = RuleBody::Pattern { value: "[a-z]".to_string() };
    assert_eq!(p.get_nonterminals(), Vec::<String>::new());
}

#[test]
fn terminal_and_choice_predicates() {
    assert!(sym("x").is_terminal());
    assert!(lit("x").is_terminal());
    assert!(RuleBody::Pattern { value: "p".to_string() }.is_terminal());
    assert!(!RuleBody::Choice { members: vec![] }.is_terminal());
    assert!(RuleBody::Choice { members: vec![] }.is_choice());
    assert!(!sym("x").is_choice());
}

#[test]
fn hoist_replaces_nested_choice_only() {
    let mut gen = NameGen::new();
    let body = RuleBody::Repeat {
        content: Box::new(RuleBody::Choice { members: vec![sym("a"), sym("b")] }),
    };
    let (rewritten, pairs) = body.hoist_subexps("r", &mut gen);
    match rewritten {
        RuleBody::Repeat { content } => match *content {
            RuleBody::Symbol { name } => assert_eq!(name, "r_0"),
            _ => panic!("nested choice must become a symbol reference"),
        },
        _ => panic!("repeat wrapper must stay"),
    }
    assert_eq!(pairs.len(), 1);
    assert_eq!(pairs[0].0, "r_0");
    assert!(matches!(pairs[0].1, RuleBody::Choice { .. }));
}

#[test]
fn hoist_keeps_top_level_choice() {
    let mut gen = NameGen::new();
    let body = RuleBody::Choice { members: vec![sym("a"), sym("b")] };
    let (rewritten, pairs) = body.hoist_subexps("r", &mut gen);
    assert!(pairs.is_empty());
    match rewritten {
        RuleBody::Choice { members } => assert_eq!(members.len(), 2),
        _ => panic!("a top-level choice keeps its place"),
    }
}

#[test]
fn hoist_erases_precedence_wrappers() {
    let mut gen = NameGen::new();
    let body = RuleBody::PrecLeft {
        content: Box::new(RuleBody::Sequence { members: vec![sym("a")] }),
    };
    let (rewritten, pairs) = body.hoist_subexps("r", &mut gen);
    assert!(pairs.is_empty());
    assert!(matches!(rewritten, RuleBody::Sequence { .. }));
}

#[test]
fn map_subexps_extracts_an_immediate_choice() {
    let mut gen = NameGen::new();
    let body = RuleBody::Choice { members: vec![sym("a")] };
    // at a nested position even the node itself is extracted
    let (rewritten, pairs) = body.map_subexps("owner", &mut gen);
    match rewritten {
        RuleBody::Symbol { name } => assert_eq!(name, "owner_0"),
        _ => panic!("a nested choice is replaced by a fresh symbol"),
    }
    assert_eq!(pairs.len(), 1);
}

#[test]
fn deep_copy_preserves_structure() {
    let body = RuleBody::Sequence {
        members: vec![RuleBody::Repeat { content: Box::new(sym("a")) }, lit("+")],
    };
    let copy = body.deep_copy();
    match copy {
        RuleBody::Sequence { members } => {
            assert_eq!(members.len(), 2);
            assert!(matches!(&members[0], RuleBody::Repeat { .. }));
            match &members[1] {
                RuleBody::String { value } => assert_eq!(value, "+"),
                _ => panic!("literal member must survive the copy"),
            }
        },
        _ => panic!("sequence must survive the copy"),
    }
}

#[test]
fn from_raw_flags_extras_by_symbol_reference() {
    let raw = RawGrammar {
        name: "g".to_string(),
        rules: vec![
            ("ws".to_string(), RuleBody::Pattern { value: "\\s+".to_string() }),
            ("num".to_string(), RuleBody::Pattern { value: "[0-9]+".to_string() }),
        ],
        extras: vec![sym("ws"), lit("not-a-symbol")],
    };
    let g = Grammar::from_raw(raw);
    let rules = g.get_rules();
    assert_eq!(rules.len(), 2);
    assert_eq!(rules[0].name, "ws");
    assert!(rules[0].is_extra);
    assert_eq!(rules[1].name, "num");
    assert!(!rules[1].is_extra);
}
