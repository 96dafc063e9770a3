use technique_generator::condition::{Condition, Outcome};
use technique_generator::json_value::{JsonNumber, JsonValue};
use technique_generator::value::{Number, Value};

fn nested(depth: usize) -> Value {
    let mut v = Value::Null;
    for i in 0..depth {
        v = if i % 2 == 0 {
            Value::List(vec![Value::Bool(true), v])
        } else {
            Value::Record(vec![("k".to_string(), v), ("l".to_string(), Value::Null)])
        };
    }
    v
}

#[test]
fn finite_numbers_are_integers_and_decimals() {
    assert!(Number::Integer(0).is_finite());
    assert!(Number::Decimal { mantissa: 1, exponent: 2 }.is_finite());
    assert!(!Number::NotANumber.is_finite());
    assert!(!Number::PositiveInfinity.is_finite());
    assert!(!Number::NegativeInfinity.is_finite());
}

#[test]
fn numbers_lower_to_json_numbers() {
    assert_eq!(
        Number::Integer(-3).to_json(),
        Some(JsonValue::Number(JsonNumber::Integer(-3)))
    );
    assert_eq!(
        Number::Decimal { mantissa: 25, exponent: -2 }.to_json(),
        Some(JsonValue::Number(JsonNumber::Decimal { mantissa: 25, exponent: -2 }))
    );
    assert_eq!(Number::NotANumber.to_json(), None);
    assert_eq!(Number::PositiveInfinity.to_json(), None);
    assert_eq!(Number::NegativeInfinity.to_json(), None);
}

#[test]
fn depth_counts_lists_and_records() {
    assert!(Value::Null.within_depth(0));
    assert!(Value::Text("x".to_string()).within_depth(0));
    assert!(!Value::List(vec![]).within_depth(0));
    assert!(Value::List(vec![]).within_depth(1));
    assert!(!Value::Record(vec![]).within_depth(0));
    assert!(Value::Record(vec![]).within_depth(1));
    assert!(nested(3).within_depth(3));
    assert!(nested(3).within_depth(4));
    assert!(!nested(3).within_depth(2));
    let wide = Value::List(vec![nested(1), nested(4), nested(2)]);
    assert!(wide.within_depth(5));
    assert!(!wide.within_depth(4));
}

#[test]
fn a_value_is_finite_when_all_its_numbers_are() {
    assert!(Value::Null.is_finite());
    assert!(Value::Number(Number::Integer(1)).is_finite());
    assert!(!Value::Number(Number::NegativeInfinity).is_finite());
    assert!(Value::List(vec![]).is_finite());
    let bad = Value::Record(vec![
        ("a".to_string(), Value::Number(Number::Integer(1))),
        ("b".to_string(), Value::List(vec![Value::Null, Value::Number(Number::NotANumber)])),
    ]);
    assert!(!bad.is_finite());
    let good = Value::Record(vec![
        ("a".to_string(), Value::Number(Number::Integer(1))),
        ("b".to_string(), Value::List(vec![Value::Null, Value::Bool(false)])),
    ]);
    assert!(good.is_finite());
}

#[test]
fn values_lower_to_trees() {
    let v = Value::Record(vec![
        ("name".to_string(), Value::Text("nginx".to_string())),
        ("ports".to_string(), Value::List(vec![
            Value::Number(Number::Integer(80)),
            Value::Number(Number::Integer(443)),
        ])),
        ("ratio".to_string(), Value::Number(Number::Decimal { mantissa: 5, exponent: -1 })),
        ("tls".to_string(), Value::Bool(true)),
        ("owner".to_string(), Value::Null),
    ]);
    assert_eq!(
        v.to_json().unwrap().to_text(),
        r#"{"name":"nginx","ports":[80,443],"ratio":5e-1,"tls":true,"owner":null}"#
    );
}

#[test]
fn a_value_with_a_number_that_is_not_finite_has_no_tree() {
    assert_eq!(Value::Number(Number::PositiveInfinity).to_json(), None);
    let v = Value::List(vec![
        Value::Number(Number::Integer(1)),
        Value::Record(vec![("x".to_string(), Value::Number(Number::NegativeInfinity))]),
    ]);
    assert_eq!(v.to_json(), None);
}

#[test]
fn a_clone_of_a_value_is_equal_to_it() {
    let v = nested(5);
    assert_eq!(v.clone(), v);
    let w = Value::Record(vec![
        ("a".to_string(), Value::Text("x".to_string())),
        ("b".to_string(), Value::Number(Number::NotANumber)),
    ]);
    assert_eq!(w.clone(), w);
}

#[test]
fn outcome_labels() {
    assert_eq!(Outcome::Kept.label(), "kept");
    assert_eq!(Outcome::Repaired.label(), "repaired");
    assert_eq!(Outcome::Failed.label(), "failed");
}

#[test]
fn conditions_lower_to_nested_objects() {
    let fact = Condition::Fact("linux".to_string());
    assert_eq!(fact.to_json().to_text(), r#"{"fact":"linux"}"#);
    let call = Condition::Call { call: "c1".to_string(), outcome: Outcome::Repaired };
    assert_eq!(call.to_json().to_text(), r#"{"call":"c1","outcome":"repaired"}"#);
    let both = Condition::And(Box::new(fact.clone()), Box::new(call.clone()));
    assert_eq!(
        both.to_json().to_text(),
        r#"{"and":[{"fact":"linux"},{"call":"c1","outcome":"repaired"}]}"#
    );
    let either = Condition::Or(
        Box::new(Condition::Not(Box::new(fact))),
        Box::new(Condition::Call { call: "c2".to_string(), outcome: Outcome::Failed }),
    );
    assert_eq!(
        either.to_json().to_text(),
        r#"{"or":[{"not":{"fact":"linux"}},{"call":"c2","outcome":"failed"}]}"#
    );
    let not = Condition::Not(Box::new(both));
    assert_eq!(
        not.to_json().to_text(),
        r#"{"not":{"and":[{"fact":"linux"},{"call":"c1","outcome":"repaired"}]}}"#
    );
}

#[test]
fn a_clone_of_a_condition_is_equal_to_it() {
    let c = Condition::Or(
        Box::new(Condition::Not(Box::new(Condition::Fact("a\"b".to_string())))),
        Box::new(Condition::And(
            Box::new(Condition::Call { call: "c".to_string(), outcome: Outcome::Kept }),
            Box::new(Condition::Fact("x".to_string())),
        )),
    );
    assert_eq!(c.clone(), c);
}
