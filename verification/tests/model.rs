use technique_generator::condition::{Condition, Outcome};
use technique_generator::error::ConversionError;
use technique_generator::ir::{check_permutation, IrCall, IrParameter, IrTechnique, Span, Version};
use technique_generator::technique::conversion::check_call;
use technique_generator::technique::{Technique, MAX_NESTING_DEPTH};
use technique_generator::value::{Number, Value};

fn at(line: u32, column: u32) -> Span {
    Span { line, column }
}

fn text(name: &str, value: &str) -> IrParameter {
    IrParameter { name: name.to_string(), value: Value::Text(value.to_string()), span: at(1, 1) }
}

fn call(method: &str, parameters: Vec<IrParameter>) -> IrCall {
    IrCall { method: method.to_string(), parameters, condition: None, id: None, span: at(1, 1) }
}

fn ir(calls: Vec<IrCall>) -> IrTechnique {
    IrTechnique {
        id: "t1".to_string(),
        name: "Web server".to_string(),
        version: Version::new(2, 13),
        calls,
        order: None,
    }
}

fn nested(depth: usize) -> Value {
    let mut v = Value::Number(Number::Integer(0));
    for _ in 0..depth {
        v = Value::List(vec![v]);
    }
    v
}

fn methods(model: &Technique) -> Vec<String> {
    model.calls().iter().map(|c| c.method().to_string()).collect()
}

#[test]
fn versions_are_ordered_by_major_then_minor() {
    let v = Version::new(1, 9);
    assert_eq!(v.major, 1);
    assert_eq!(v.minor, 9);
    assert!(v.is_before(&Version::new(1, 10)));
    assert!(v.is_before(&Version::new(2, 0)));
    assert!(!v.is_before(&Version::new(1, 9)));
    assert!(!v.is_before(&Version::new(1, 8)));
    assert!(!v.is_before(&Version::new(0, 99)));
}

#[test]
fn version_text_is_major_dot_minor() {
    assert_eq!(Version::new(1, 0).to_text(), "1.0");
    assert_eq!(Version::new(0, 0).to_text(), "0.0");
    assert_eq!(Version::new(12, 345).to_text(), "12.345");
    assert_eq!(Version::new(u32::MAX, u32::MAX).to_text(), "4294967295.4294967295");
}

#[test]
fn permutations_name_each_position_once() {
    assert!(check_permutation(&vec![], 0));
    assert!(check_permutation(&vec![0], 1));
    assert!(check_permutation(&vec![2, 0, 1], 3));
    assert!(!check_permutation(&vec![0, 1], 3));
    assert!(!check_permutation(&vec![0, 1, 2, 3], 3));
    assert!(!check_permutation(&vec![0, 3, 1], 3));
    assert!(!check_permutation(&vec![0, 1, 1], 3));
    assert!(!check_permutation(&vec![], 1));
}

#[test]
fn the_model_holds_what_the_representation_means() {
    let mut source = ir(vec![
        call("pkg_install", vec![text("name", "nginx"), text("version", "latest")]),
        call("service_start", vec![text("name", "nginx")]),
    ]);
    source.calls[1].condition =
        Some(Condition::Call { call: "install".to_string(), outcome: Outcome::Repaired });
    source.calls[0].id = Some("install".to_string());
    let model = Technique::from_ir(&source).unwrap();
    assert_eq!(model.id(), "t1");
    assert_eq!(model.name(), "Web server");
    assert_eq!(model.version(), Version::new(2, 13));
    assert_eq!(model.calls().len(), 2);
    let first = &model.calls()[0];
    assert_eq!(first.method(), "pkg_install");
    assert_eq!(first.id(), Some("install"));
    assert_eq!(first.condition(), None);
    assert_eq!(first.parameters().len(), 2);
    assert_eq!(first.parameters()[0].name(), "name");
    assert_eq!(first.parameters()[0].value(), &Value::Text("nginx".to_string()));
    assert_eq!(first.parameters()[1].name(), "version");
    assert_eq!(first.parameters()[1].value(), &Value::Text("latest".to_string()));
    let second = &model.calls()[1];
    assert_eq!(second.method(), "service_start");
    assert_eq!(second.id(), None);
    assert_eq!(
        second.condition(),
        Some(&Condition::Call { call: "install".to_string(), outcome: Outcome::Repaired })
    );
}

#[test]
fn calls_keep_the_order_of_the_source_text() {
    let source = ir(vec![call("c", vec![]), call("a", vec![]), call("b", vec![])]);
    let model = Technique::from_ir(&source).unwrap();
    assert_eq!(methods(&model), vec!["c", "a", "b"]);
}

#[test]
fn a_reordering_directive_decides_the_order() {
    let mut source = ir(vec![call("c", vec![]), call("a", vec![]), call("b", vec![])]);
    source.order = Some(vec![1, 2, 0]);
    let model = Technique::from_ir(&source).unwrap();
    assert_eq!(methods(&model), vec!["a", "b", "c"]);
    source.order = Some(vec![0, 1, 2]);
    let model = Technique::from_ir(&source).unwrap();
    assert_eq!(methods(&model), vec!["c", "a", "b"]);
}

#[test]
fn a_directive_that_is_no_permutation_is_refused() {
    let mut source = ir(vec![call("c", vec![]), call("a", vec![])]);
    source.order = Some(vec![0]);
    assert_eq!(Technique::from_ir(&source).unwrap_err(), ConversionError::InvalidOrder);
    source.order = Some(vec![0, 2]);
    assert_eq!(Technique::from_ir(&source).unwrap_err(), ConversionError::InvalidOrder);
    source.order = Some(vec![1, 1]);
    assert_eq!(Technique::from_ir(&source).unwrap_err(), ConversionError::InvalidOrder);
    source.order = Some(vec![0, 1, 0]);
    assert_eq!(Technique::from_ir(&source).unwrap_err(), ConversionError::InvalidOrder);
    let mut empty = ir(vec![]);
    empty.order = Some(vec![]);
    assert!(Technique::from_ir(&empty).is_ok());
}

#[test]
fn a_value_at_the_limit_is_accepted_and_one_beyond_is_refused() {
    assert_eq!(MAX_NESTING_DEPTH, 16);
    let mut source = ir(vec![
        call("a", vec![text("x", "1")]),
        call("b", vec![text("x", "1"), IrParameter {
            name: "deep".to_string(),
            value: nested(MAX_NESTING_DEPTH),
            span: at(2, 2),
        }]),
    ]);
    assert!(Technique::from_ir(&source).is_ok());
    source.calls[1].parameters[1].value = nested(MAX_NESTING_DEPTH + 1);
    assert_eq!(
        Technique::from_ir(&source).unwrap_err(),
        ConversionError::NestingTooDeep { call: 1, parameter: 1 }
    );
}

#[test]
fn a_repeated_parameter_name_is_refused() {
    let source = ir(vec![
        call("a", vec![text("x", "1"), text("y", "2")]),
        call("b", vec![text("x", "1"), text("y", "2"), text("x", "3"), text("y", "4")]),
    ]);
    assert_eq!(
        Technique::from_ir(&source).unwrap_err(),
        ConversionError::DuplicateParameter { call: 1, parameter: 2 }
    );
}

#[test]
fn the_first_fault_is_reported() {
    let deep = IrParameter { name: "x".to_string(), value: nested(17), span: at(1, 1) };
    let source = ir(vec![
        call("a", vec![]),
        call("b", vec![text("y", "1"), text("x", "1"), deep.clone(), text("y", "2")]),
        call("c", vec![deep.clone()]),
    ]);
    assert_eq!(
        Technique::from_ir(&source).unwrap_err(),
        ConversionError::NestingTooDeep { call: 1, parameter: 2 }
    );
    assert_eq!(check_call(&source.calls[0], 0), None);
    assert_eq!(
        check_call(&source.calls[2], 7),
        Some(ConversionError::NestingTooDeep { call: 7, parameter: 0 })
    );
    let mut reordered = source.clone();
    reordered.order = Some(vec![2, 1, 0]);
    assert_eq!(
        Technique::from_ir(&reordered).unwrap_err(),
        ConversionError::NestingTooDeep { call: 1, parameter: 2 }
    );
    reordered.order = Some(vec![2, 1]);
    assert_eq!(Technique::from_ir(&reordered).unwrap_err(), ConversionError::InvalidOrder);
}

#[test]
fn where_a_construct_stood_does_not_change_the_model() {
    let mut a = ir(vec![
        call("pkg_install", vec![text("name", "nginx"), text("version", "latest")]),
        call("service_start", vec![text("name", "nginx")]),
    ]);
    a.calls[1].condition = Some(Condition::Fact("debian".to_string()));
    let mut b = a.clone();
    b.calls[0].span = at(10, 4);
    b.calls[0].parameters[0].span = at(11, 8);
    b.calls[0].parameters[1].span = at(12, 8);
    b.calls[1].span = at(40, 1);
    b.calls[1].parameters[0].span = at(40, 30);
    assert_ne!(a, b);
    assert_eq!(Technique::from_ir(&a).unwrap(), Technique::from_ir(&b).unwrap());
    b.calls[0].parameters[1].name = "version".to_string();
    b.calls[0].parameters[0].name = "version".to_string();
    a.calls[0].parameters[0].name = "version".to_string();
    assert_eq!(Technique::from_ir(&a).unwrap_err(), Technique::from_ir(&b).unwrap_err());
}

#[test]
fn conversion_errors_have_a_text() {
    assert_eq!(
        ConversionError::InvalidOrder.message(),
        "the reordering directive is not a permutation of the calls"
    );
    assert_eq!(
        ConversionError::NestingTooDeep { call: 3, parameter: 12 }.message(),
        "call 3, parameter 12: the value is nested too deeply"
    );
    assert_eq!(
        ConversionError::DuplicateParameter { call: 0, parameter: 1 }.message(),
        "call 0, parameter 1: the name is used twice"
    );
}
