use technique_generator::command::CommandResult;
use technique_generator::condition::{Condition, Outcome};
use technique_generator::error::{Fault, GenerationError};
use technique_generator::format::Format;
use technique_generator::generator::json::JSON;
use technique_generator::generator::Generator;
use technique_generator::ir::{IrCall, IrParameter, IrTechnique, Span, Version};
use technique_generator::technique::Technique;
use technique_generator::value::{Number, Value};

fn span() -> Span {
    Span { line: 1, column: 1 }
}

fn parameter(name: &str, value: Value) -> IrParameter {
    IrParameter { name: name.to_string(), value, span: span() }
}

fn call(method: &str, parameters: Vec<IrParameter>) -> IrCall {
    IrCall { method: method.to_string(), parameters, condition: None, id: None, span: span() }
}

fn technique(calls: Vec<IrCall>) -> Technique {
    let ir = IrTechnique {
        id: "t1".to_string(),
        name: "Install a package".to_string(),
        version: Version::new(1, 0),
        calls,
        order: None,
    };
    Technique::from_ir(&ir).unwrap()
}

fn only(results: Vec<CommandResult>) -> CommandResult {
    assert_eq!(results.len(), 1);
    results.into_iter().next().unwrap()
}

#[test]
fn one_call_gives_one_result_with_the_exact_text() {
    let model = technique(vec![call(
        "pkg_install",
        vec![parameter("name", Value::Text("nginx".to_string()))],
    )]);
    let result = only(JSON.generate(&model, "t1.rd", Some("out/t1.json"), false).unwrap());
    assert_eq!(result.format(), Format::JSON);
    assert_eq!(result.destination(), Some("out/t1.json"));
    assert_eq!(
        result.content(),
        Some(r#"{"id":"t1","version":"1.0","calls":[{"method":"pkg_install","params":{"name":"nginx"}}]}"#)
    );
}

#[test]
fn without_a_destination_the_result_has_none() {
    let model = technique(vec![call(
        "pkg_install",
        vec![parameter("name", Value::Text("nginx".to_string()))],
    )]);
    let result = only(JSON.generate(&model, "t1.rd", None, false).unwrap());
    assert_eq!(result.destination(), None);
    assert_eq!(
        result.content(),
        Some(r#"{"id":"t1","version":"1.0","calls":[{"method":"pkg_install","params":{"name":"nginx"}}]}"#)
    );
}

#[test]
fn empty_technique_is_rendered() {
    let model = technique(vec![]);
    let result = only(JSON.generate(&model, "t1.rd", None, false).unwrap());
    assert_eq!(result.content(), Some(r#"{"id":"t1","version":"1.0","calls":[]}"#));
}

#[test]
fn a_number_that_is_not_finite_is_an_error() {
    let model = technique(vec![
        call("pkg_install", vec![parameter("name", Value::Text("nginx".to_string()))]),
        call(
            "set_ratio",
            vec![
                parameter("label", Value::Text("x".to_string())),
                parameter("ratio", Value::List(vec![Value::Number(Number::NotANumber)])),
            ],
        ),
    ]);
    let error: GenerationError = JSON.generate(&model, "t1.rd", None, false).unwrap_err();
    assert_eq!(error.format, Format::JSON);
    assert_eq!(error.source, "t1.rd");
    assert_eq!(error.fault, Fault::Unrepresentable { call: 1, parameter: 1 });
}

#[test]
fn the_backend_produces_json() {
    assert_eq!(JSON.format(), Format::JSON);
    assert_eq!(Format::JSON.label(), "json");
    assert_eq!(Format::Script.label(), "script");
    assert_eq!(Format::Markdown.label(), "markdown");
}

#[test]
fn generating_twice_gives_the_same_text() {
    let model = technique(vec![
        call("pkg_install", vec![parameter("name", Value::Text("nginx".to_string()))]),
        call("file_mode", vec![parameter("mode", Value::Number(Number::Integer(420)))]),
    ]);
    let first = JSON.generate(&model, "t1.rd", Some("out"), true).unwrap();
    let second = JSON.generate(&model, "t1.rd", Some("out"), true).unwrap();
    assert_eq!(first, second);
    let failing = technique(vec![call(
        "x",
        vec![parameter("v", Value::Number(Number::PositiveInfinity))],
    )]);
    assert_eq!(
        JSON.generate(&failing, "t1.rd", None, false).unwrap_err(),
        JSON.generate(&failing, "t1.rd", None, false).unwrap_err()
    );
}

#[test]
fn calls_are_rendered_in_the_order_of_the_model() {
    let model = technique(vec![call("c", vec![]), call("a", vec![]), call("b", vec![])]);
    let result = only(JSON.generate(&model, "t1.rd", None, false).unwrap());
    assert_eq!(
        result.content(),
        Some(
            r#"{"id":"t1","version":"1.0","calls":[{"method":"c","params":{}},{"method":"a","params":{}},{"method":"b","params":{}}]}"#
        )
    );
}

#[test]
fn parameters_are_rendered_in_the_order_of_the_call() {
    let model = technique(vec![call(
        "file_content",
        vec![
            parameter("path", Value::Text("/etc/motd".to_string())),
            parameter("lines", Value::List(vec![
                Value::Text("hello".to_string()),
                Value::Text("a \"quoted\" word".to_string()),
            ])),
            parameter("enforce", Value::Bool(true)),
            parameter("mode", Value::Number(Number::Integer(-1))),
            parameter("owner", Value::Null),
            parameter("limits", Value::Record(vec![
                ("ratio".to_string(), Value::Number(Number::Decimal { mantissa: 75, exponent: -2 })),
            ])),
        ],
    )]);
    let result = only(JSON.generate(&model, "t1.rd", None, false).unwrap());
    assert_eq!(
        result.content(),
        Some(
            r#"{"id":"t1","version":"1.0","calls":[{"method":"file_content","params":{"path":"/etc/motd","lines":["hello","a \"quoted\" word"],"enforce":true,"mode":-1,"owner":null,"limits":{"ratio":75e-2}}}]}"#
        )
    );
}

#[test]
fn a_guard_condition_is_rendered_where_there_is_one() {
    let mut guarded = call("service_restart", vec![parameter("name", Value::Text("nginx".to_string()))]);
    guarded.condition = Some(Condition::And(
        Box::new(Condition::Call { call: "conf".to_string(), outcome: Outcome::Repaired }),
        Box::new(Condition::Not(Box::new(Condition::Fact("container".to_string())))),
    ));
    guarded.id = Some("restart".to_string());
    let model = technique(vec![guarded, call("noop", vec![])]);
    let result = only(JSON.generate(&model, "t1.rd", None, false).unwrap());
    assert_eq!(
        result.content(),
        Some(
            r#"{"id":"t1","version":"1.0","calls":[{"method":"service_restart","params":{"name":"nginx"},"condition":{"and":[{"call":"conf","outcome":"repaired"},{"not":{"fact":"container"}}]}},{"method":"noop","params":{}}]}"#
        )
    );
}

#[test]
fn metadata_is_embedded_when_asked_for() {
    let model = technique(vec![]);
    let with = only(JSON.generate(&model, "policies/t1.rd", None, true).unwrap());
    assert_eq!(
        with.content(),
        Some(
            r#"{"id":"t1","version":"1.0","calls":[],"metadata":{"source":"policies/t1.rd","name":"Install a package","version":"1.0"}}"#
        )
    );
    let without = only(JSON.generate(&model, "policies/t1.rd", None, false).unwrap());
    assert_eq!(without.content(), Some(r#"{"id":"t1","version":"1.0","calls":[]}"#));
}

#[test]
fn the_tree_of_a_technique() {
    let model = technique(vec![call("m", vec![parameter("p", Value::Null)])]);
    assert_eq!(
        model.to_json(None).unwrap().to_text(),
        r#"{"id":"t1","version":"1.0","calls":[{"method":"m","params":{"p":null}}]}"#
    );
    assert_eq!(
        model.to_json(Some("s")).unwrap().to_text(),
        r#"{"id":"t1","version":"1.0","calls":[{"method":"m","params":{"p":null}}],"metadata":{"source":"s","name":"Install a package","version":"1.0"}}"#
    );
    assert_eq!(
        model.calls()[0].to_json(0).unwrap().to_text(),
        r#"{"method":"m","params":{"p":null}}"#
    );
}

#[test]
fn the_first_value_that_cannot_be_represented_is_reported() {
    let model = technique(vec![
        call("a", vec![parameter("x", Value::Number(Number::Integer(1)))]),
        call("b", vec![
            parameter("x", Value::Null),
            parameter("y", Value::Null),
            parameter("z", Value::Record(vec![("k".to_string(), Value::Number(Number::NegativeInfinity))])),
            parameter("w", Value::Number(Number::NotANumber)),
        ]),
        call("c", vec![parameter("x", Value::Number(Number::PositiveInfinity))]),
    ]);
    assert_eq!(model.to_json(None), Err(Fault::Unrepresentable { call: 1, parameter: 2 }));
    assert_eq!(model.to_json(Some("s")), Err(Fault::Unrepresentable { call: 1, parameter: 2 }));
    assert_eq!(
        model.calls()[2].to_json(2),
        Err(Fault::Unrepresentable { call: 2, parameter: 0 })
    );
    let error = JSON.generate(&model, "t1.rd", Some("out"), true).unwrap_err();
    assert_eq!(error, GenerationError::new(Format::JSON, "t1.rd", Fault::Unrepresentable { call: 1, parameter: 2 }));
    assert_eq!(
        error.message(),
        "t1.rd: json: call 1, parameter 2: the value cannot be represented"
    );
    assert_eq!(error.clone(), error);
}

#[test]
fn faults_have_a_text() {
    assert_eq!(
        Fault::Unrepresentable { call: 10, parameter: 0 }.message(),
        "call 10, parameter 0: the value cannot be represented"
    );
    assert_eq!(Fault::Unsupported { call: 4 }.message(), "call 4: the call is not supported");
    assert_eq!(Fault::Io.message(), "the artifact could not be written");
    assert_eq!(Fault::NoBackend.message(), "no backend is registered");
    assert_eq!(
        GenerationError::new(Format::Script, "a/b.rd", Fault::Unsupported { call: 4 }).message(),
        "a/b.rd: script: call 4: the call is not supported"
    );
}

#[test]
fn a_result_holds_what_it_was_made_with() {
    let full = CommandResult::new(Format::Markdown, Some("doc.md".to_string()), Some("# t".to_string()));
    assert_eq!(full.format(), Format::Markdown);
    assert_eq!(full.destination(), Some("doc.md"));
    assert_eq!(full.content(), Some("# t"));
    let bare = CommandResult::new(Format::Script, None, None);
    assert_eq!(bare.format(), Format::Script);
    assert_eq!(bare.destination(), None);
    assert_eq!(bare.content(), None);
}
