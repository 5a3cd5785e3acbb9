use polar_core::embed::TestHelper;
use polar_core::ids::IdCounter;
use polar_core::rules::ParamEntry;
use polar_core::rules::Parameter;
use polar_core::rules::Rule;
use polar_core::rules::assemble_params;
use polar_core::rules::assemble_params_rev;
use polar_core::terms::Dictionary;
use polar_core::terms::Operator;
use polar_core::terms::Pattern;
use polar_core::terms::Symbol;
use polar_core::terms::Term;
use polar_core::terms::Value;

fn sym(name: &str) -> Symbol {
    Symbol::new(name.to_string())
}

fn int_term(i: i64, c: &mut IdCounter) -> Term {
    Term::new(TestHelper::<Value>::from(i).0, c)
}

fn singleton_dict(key: &str, i: i64, c: &mut IdCounter) -> Dictionary {
    let mut d = Dictionary::new();
    let t = int_term(i, c);
    d.insert(sym(key), t);
    d
}

#[test]
fn dictionary_keeps_canonical_order() {
    let mut c = IdCounter::new();
    let mut forward = Dictionary::new();
    forward.insert(sym("alpha"), int_term(1, &mut c));
    forward.insert(sym("beta"), int_term(2, &mut c));
    forward.insert(sym("gamma"), int_term(3, &mut c));
    let mut scrambled = Dictionary::new();
    scrambled.insert(sym("gamma"), int_term(3, &mut c));
    scrambled.insert(sym("alpha"), int_term(1, &mut c));
    scrambled.insert(sym("beta"), int_term(2, &mut c));
    assert!(forward.equals(&scrambled));
    assert_eq!(forward.fields[0].0.0, "alpha");
    assert_eq!(forward.fields[1].0.0, "beta");
    assert_eq!(forward.fields[2].0.0, "gamma");
}

#[test]
fn dictionary_orders_prefixes_first() {
    let mut c = IdCounter::new();
    let mut d = Dictionary::new();
    d.insert(sym("abc"), int_term(1, &mut c));
    d.insert(sym("ab"), int_term(2, &mut c));
    assert_eq!(d.fields[0].0.0, "ab");
    assert_eq!(d.fields[1].0.0, "abc");
}

#[test]
fn dictionary_orders_empty_key_first() {
    let mut c = IdCounter::new();
    let mut d = Dictionary::new();
    d.insert(sym("a"), int_term(1, &mut c));
    d.insert(sym(""), int_term(2, &mut c));
    assert_eq!(d.fields[0].0.0, "");
    assert_eq!(d.fields[1].0.0, "a");
}

#[test]
fn dictionary_insert_replaces_existing_key() {
    let mut c = IdCounter::new();
    let mut d = Dictionary::new();
    d.insert(sym("k"), int_term(1, &mut c));
    d.insert(sym("k"), int_term(2, &mut c));
    assert_eq!(d.len(), 1);
    let found = d.get("k").expect("key must be present");
    assert!(matches!(
        found.value,
        Value::Number(polar_core::terms::Numeric::Integer(2))
    ));
}

#[test]
fn dictionary_get_missing_key() {
    let mut c = IdCounter::new();
    let d = singleton_dict("present", 1, &mut c);
    assert!(d.get("absent").is_none());
}

#[test]
fn dictionary_specializer_becomes_pattern() {
    let mut c = IdCounter::new();
    let d = singleton_dict("x", 1, &mut c);
    let spec_term = Term::new(TestHelper::<Value>::from(d).0, &mut c);
    let p = Parameter::with_specializer(sym("arg"), spec_term, &mut c);
    let stored = p.specializer.expect("specializer must be kept");
    match &stored.value {
        Value::Pattern(Pattern::Dictionary(fields)) => {
            let expected = singleton_dict("x", 1, &mut c);
            assert!(fields.equals(&expected));
        }
        other => panic!("dictionary specializer stored as {:?}", other),
    }
}

#[test]
fn non_dictionary_specializer_is_kept_as_is() {
    let mut c = IdCounter::new();
    let spec_term = int_term(5, &mut c);
    let p = Parameter::with_specializer(sym("arg"), spec_term, &mut c);
    assert!(matches!(&p.parameter.value, Value::Variable(s) if s.0 == "arg"));
    let stored = p.specializer.expect("specializer must be kept");
    assert!(stored.equals(&int_term(5, &mut c)));
}

#[test]
fn tail_first_assembly_reverses_declaration_order() {
    let mut c = IdCounter::new();
    let entries = vec![
        ParamEntry::Bare(TestHelper::<Value>::from(sym("a")).0),
        ParamEntry::Bare(TestHelper::<Value>::from(sym("b")).0),
    ];
    let ps = assemble_params_rev(entries, &mut c);
    assert_eq!(ps.len(), 2);
    assert!(matches!(&ps[0].parameter.value, Value::Variable(s) if s.0 == "b"));
    assert!(matches!(&ps[1].parameter.value, Value::Variable(s) if s.0 == "a"));
}

#[test]
fn assembled_params_keep_declaration_order() {
    let mut c = IdCounter::new();
    let spec_term = int_term(9, &mut c);
    let entries = vec![
        ParamEntry::Bare(TestHelper::<Value>::from(sym("first")).0),
        ParamEntry::Specialized(sym("second"), spec_term),
        ParamEntry::Bare(TestHelper::<Value>::from(42i64).0),
    ];
    let ps = assemble_params(entries, &mut c);
    assert_eq!(ps.len(), 3);
    assert!(matches!(&ps[0].parameter.value, Value::Variable(s) if s.0 == "first"));
    assert!(ps[0].specializer.is_none());
    assert!(matches!(&ps[1].parameter.value, Value::Variable(s) if s.0 == "second"));
    assert!(ps[1].specializer.is_some());
    assert!(matches!(
        &ps[2].parameter.value,
        Value::Number(polar_core::terms::Numeric::Integer(42))
    ));
}

#[test]
fn rule_params_follow_declaration_order() {
    let mut c = IdCounter::new();
    let entries = vec![
        ParamEntry::Bare(TestHelper::<Value>::from(sym("x")).0),
        ParamEntry::Bare(TestHelper::<Value>::from(sym("y")).0),
    ];
    let body = vec![int_term(1, &mut c)];
    let rule = Rule::new(sym("allowed"), entries, body, &mut c);
    assert_eq!(rule.name.0, "allowed");
    assert!(!rule.required);
    assert!(matches!(&rule.params[0].parameter.value, Value::Variable(s) if s.0 == "x"));
    assert!(matches!(&rule.params[1].parameter.value, Value::Variable(s) if s.0 == "y"));
}

#[test]
fn rule_body_is_conjunction_of_given_terms() {
    let mut c = IdCounter::new();
    let body = vec![int_term(1, &mut c), int_term(2, &mut c)];
    let rule = Rule::new(sym("r"), vec![], body, &mut c);
    match &rule.body.value {
        Value::Expression(op) => {
            assert_eq!(op.operator, Operator::And);
            assert_eq!(op.args.len(), 2);
        }
        other => panic!("rule body was {:?}", other),
    }
}

#[test]
fn empty_rule_body_is_empty_conjunction() {
    let mut c = IdCounter::new();
    let rule = Rule::new(sym("marker"), vec![], vec![], &mut c);
    match &rule.body.value {
        Value::Expression(op) => {
            assert_eq!(op.operator, Operator::And);
            assert!(op.args.is_empty());
        }
        other => panic!("rule body was {:?}", other),
    }
}

#[test]
fn rule_type_records_required_flag() {
    let mut c = IdCounter::new();
    let entries = vec![ParamEntry::Bare(TestHelper::<Value>::from(sym("who")).0)];
    let decl = Rule::rule_type(sym("must_exist"), entries, true, &mut c);
    assert!(decl.required);
    match &decl.body.value {
        Value::Expression(op) => {
            assert_eq!(op.operator, Operator::And);
            assert!(op.args.is_empty());
        }
        other => panic!("rule type body was {:?}", other),
    }
}
