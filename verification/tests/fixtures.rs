use polar_core::embed::TestHelper;
use polar_core::embed::list_of_values;
use polar_core::embed::term_from_pattern;
use polar_core::ids::IdCounter;
use polar_core::terms::Call;
use polar_core::terms::Dictionary;
use polar_core::terms::ExternalInstance;
use polar_core::terms::InstanceLiteral;
use polar_core::terms::Numeric;
use polar_core::terms::Operation;
use polar_core::terms::Operator;
use polar_core::terms::Pattern;
use polar_core::terms::Symbol;
use polar_core::terms::Term;
use polar_core::terms::Value;

fn sym(name: &str) -> Symbol {
    Symbol::new(name.to_string())
}

fn int_value(i: i64) -> Value {
    TestHelper::<Value>::from(i).0
}

#[test]
fn roundtrip_integer() {
    let mut c = IdCounter::new();
    let direct = int_value(3);
    let t = Term::new(int_value(3), &mut c);
    assert!(t.value().equals(&direct));
    assert!(matches!(t.value, Value::Number(Numeric::Integer(3))));
}

#[test]
fn roundtrip_float() {
    let mut c = IdCounter::new();
    let bits = 1.5f64.to_bits();
    let direct = Value::from_float_bits(bits);
    let t = Term::new(Value::from_float_bits(bits), &mut c);
    assert!(t.value().equals(&direct));
    match &t.value {
        Value::Number(Numeric::Float(b)) => assert_eq!(f64::from_bits(*b), 1.5f64),
        _ => panic!("expected a float literal"),
    }
}

#[test]
fn roundtrip_string() {
    let mut c = IdCounter::new();
    let direct = TestHelper::<Value>::from("hello".to_string()).0;
    let t = Term::new(TestHelper::<Value>::from("hello".to_string()).0, &mut c);
    assert!(t.value().equals(&direct));
    assert!(matches!(&t.value, Value::String(s) if s == "hello"));
}

#[test]
fn roundtrip_boolean() {
    let mut c = IdCounter::new();
    let direct = TestHelper::<Value>::from(true).0;
    let t = Term::new(TestHelper::<Value>::from(true).0, &mut c);
    assert!(t.value().equals(&direct));
    assert!(matches!(t.value, Value::Boolean(true)));
}

#[test]
fn symbol_embeds_as_variable() {
    let v = TestHelper::<Value>::from(sym("x")).0;
    assert!(matches!(&v, Value::Variable(s) if s.0 == "x"));
}

#[test]
fn operation_embeds_as_expression() {
    let op = Operation::new(Operator::Or, vec![]);
    let v = TestHelper::<Value>::from(op).0;
    assert!(matches!(&v, Value::Expression(o) if o.operator == Operator::Or));
}

#[test]
fn call_embeds_as_call_value() {
    let call = Call::new(sym("f"), vec![]);
    let v = TestHelper::<Value>::from(call).0;
    assert!(matches!(&v, Value::Call(cl) if cl.name.0 == "f" && cl.args.is_empty()));
}

#[test]
fn instance_literal_embeds_as_pattern_value() {
    let lit = InstanceLiteral::new(sym("Person"));
    let v = TestHelper::<Value>::from(lit).0;
    assert!(matches!(&v, Value::Pattern(Pattern::Instance(l)) if l.tag.0 == "Person"));
}

#[test]
fn dictionary_embeds_by_requested_target() {
    let as_value = TestHelper::<Value>::from(Dictionary::new()).0;
    assert!(matches!(as_value, Value::Dictionary(_)));
    let as_pattern = TestHelper::<Pattern>::from(Dictionary::new()).0;
    assert!(matches!(as_pattern, Pattern::Dictionary(_)));
}

#[test]
fn pattern_embeds_into_term_through_value() {
    let mut c = IdCounter::new();
    let t = term_from_pattern(Pattern::Dictionary(Dictionary::new()), &mut c);
    assert!(matches!(t.value, Value::Pattern(Pattern::Dictionary(_))));
}

#[test]
fn list_embedding_wraps_each_element() {
    let mut c = IdCounter::new();
    let v = list_of_values(vec![int_value(1), TestHelper::<Value>::from(false).0], &mut c);
    match &v {
        Value::List(ts) => {
            assert_eq!(ts.len(), 2);
            assert!(matches!(ts[0].value, Value::Number(Numeric::Integer(1))));
            assert!(matches!(ts[1].value, Value::Boolean(false)));
        }
        _ => panic!("expected a list value"),
    }
}

#[test]
fn equality_ignores_ids() {
    let mut c = IdCounter::new();
    let t1 = Term::new(int_value(7), &mut c);
    let t2 = Term::new(int_value(7), &mut c);
    assert_ne!(t1.id, t2.id);
    assert!(t1.equals(&t2));
    let t3 = Term::new(int_value(8), &mut c);
    assert!(!t1.equals(&t3));
}

#[test]
fn equality_ignores_ids_in_nested_lists() {
    let mut c = IdCounter::new();
    let l1 = list_of_values(vec![int_value(1), int_value(2)], &mut c);
    let l2 = list_of_values(vec![int_value(1), int_value(2)], &mut c);
    let t1 = Term::new(l1, &mut c);
    let t2 = Term::new(l2, &mut c);
    assert_ne!(t1.id, t2.id);
    assert!(t1.equals(&t2));
    let l3 = list_of_values(vec![int_value(2), int_value(1)], &mut c);
    let t3 = Term::new(l3, &mut c);
    assert!(!t1.equals(&t3));
}

#[test]
fn float_equality_is_by_bit_pattern() {
    let zero_pos = Value::from_float_bits(0.0f64.to_bits());
    let zero_neg = Value::from_float_bits((-0.0f64).to_bits());
    let zero_pos_again = Value::from_float_bits(0.0f64.to_bits());
    assert!(zero_pos.equals(&zero_pos_again));
    assert!(!zero_pos.equals(&zero_neg));
}

#[test]
fn absent_kwargs_differ_from_empty_kwargs() {
    let plain = Call::new(sym("f"), vec![]);
    let with_empty = Call::with_kwargs(sym("f"), vec![], Dictionary::new());
    let plain_again = Call::new(sym("f"), vec![]);
    assert!(plain.equals(&plain_again));
    assert!(!plain.equals(&with_empty));
}

#[test]
fn external_instance_from_bare_id() {
    let handle = ExternalInstance::from(7u64);
    assert_eq!(handle.instance_id, 7);
    assert!(handle.constructor.is_none());
    assert!(handle.repr.is_none());
    assert!(handle.class_repr.is_none());
    assert!(handle.class_id.is_none());
}

#[test]
fn operator_eq_compares_terms_by_content() {
    let mut c = IdCounter::new();
    let t1 = Term::new(int_value(7), &mut c);
    let t2 = Term::new(int_value(7), &mut c);
    assert_ne!(t1.id, t2.id);
    assert!(t1 == t2);
    assert!(sym("a") == sym("a"));
    assert!(sym("a") != sym("b"));
}

#[test]
fn instance_literal_with_fields_keeps_them() {
    let mut c = IdCounter::new();
    let mut fields = Dictionary::new();
    fields.insert(sym("age"), Term::new(int_value(30), &mut c));
    let lit = InstanceLiteral::with_fields(sym("Person"), fields);
    assert_eq!(lit.tag.0, "Person");
    assert_eq!(lit.fields.len(), 1);
}

#[test]
fn allocated_ids_are_distinct() {
    let mut c = IdCounter::new();
    let mut ids: Vec<u64> = Vec::new();
    for i in 0..100i64 {
        ids.push(Term::new(int_value(i), &mut c).id);
    }
    for a in 0..ids.len() {
        for b in 0..ids.len() {
            if a != b {
                assert_ne!(ids[a], ids[b]);
            }
        }
    }
}
