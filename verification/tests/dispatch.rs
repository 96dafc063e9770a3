use technique_generator::command::CommandResult;
use technique_generator::error::{ConversionError, Fault, GenerationError};
use technique_generator::format::Format;
use technique_generator::generator::json::JSON;
use technique_generator::generator::Generator;
use technique_generator::ir::{IrCall, IrParameter, IrTechnique, Span, Version};
use technique_generator::registry::Registry;
use technique_generator::technique::Technique;
use technique_generator::value::Value;

/// A backend that cannot lower any call.
struct Refusing;

impl Generator for Refusing {
    fn format(&self) -> Format {
        Format::Script
    }

    fn generate(
        &self,
        _model: &Technique,
        source: &str,
        _destination: Option<&str>,
        _embed_metadata: bool,
    ) -> Result<Vec<CommandResult>, GenerationError> {
        Err(GenerationError::new(Format::Script, source, Fault::Unsupported { call: 0 }))
    }
}

/// A backend that lists the methods of the calls, one per line.
struct Listing;

impl Generator for Listing {
    fn format(&self) -> Format {
        Format::Markdown
    }

    fn generate(
        &self,
        model: &Technique,
        _source: &str,
        destination: Option<&str>,
        _embed_metadata: bool,
    ) -> Result<Vec<CommandResult>, GenerationError> {
        let mut text = String::new();
        for call in model.calls() {
            text.push_str("- ");
            text.push_str(call.method());
            text.push('\n');
        }
        Ok(vec![CommandResult::new(
            Format::Markdown,
            destination.map(|d| d.to_string()),
            Some(text),
        )])
    }
}

fn sample_ir() -> IrTechnique {
    IrTechnique {
        id: "t1".to_string(),
        name: "Install a package".to_string(),
        version: Version::new(1, 0),
        calls: vec![IrCall {
            method: "pkg_install".to_string(),
            parameters: vec![IrParameter {
                name: "name".to_string(),
                value: Value::Text("nginx".to_string()),
                span: Span { line: 3, column: 5 },
            }],
            condition: None,
            id: None,
            span: Span { line: 3, column: 1 },
        }],
        order: None,
    }
}

const JSON_TEXT: &str =
    r#"{"id":"t1","version":"1.0","calls":[{"method":"pkg_install","params":{"name":"nginx"}}]}"#;

#[test]
fn one_failing_backend_stops_no_other() {
    let registry = Registry::new().register(JSON).register(Refusing).register(Listing);
    let model = Technique::from_ir(&sample_ir()).unwrap();
    let report = registry.generate_all(
        &model,
        "t1.rd",
        None,
        false,
        &[Format::JSON, Format::Script, Format::Markdown],
    );
    assert_eq!(report.results.len(), 2);
    assert_eq!(report.results[0].format(), Format::JSON);
    assert_eq!(report.results[0].content(), Some(JSON_TEXT));
    assert_eq!(report.results[1].format(), Format::Markdown);
    assert_eq!(report.results[1].content(), Some("- pkg_install\n"));
    assert_eq!(report.errors.len(), 1);
    assert_eq!(report.errors[0].format, Format::Script);
    assert_eq!(report.errors[0].source, "t1.rd");
    assert_eq!(report.errors[0].fault, Fault::Unsupported { call: 0 });
}

#[test]
fn results_follow_the_order_of_the_request() {
    let registry = Registry::new().register(JSON).register(Listing);
    let model = Technique::from_ir(&sample_ir()).unwrap();
    let report =
        registry.generate_all(&model, "t1.rd", Some("out"), false, &[Format::Markdown, Format::JSON]);
    assert_eq!(report.errors.len(), 0);
    assert_eq!(report.results.len(), 2);
    assert_eq!(report.results[0].format(), Format::Markdown);
    assert_eq!(report.results[0].destination(), Some("out"));
    assert_eq!(report.results[1].format(), Format::JSON);
    assert_eq!(report.results[1].destination(), Some("out"));
}

#[test]
fn a_format_requested_twice_runs_once() {
    let registry = Registry::new().register(JSON).register(Refusing);
    let model = Technique::from_ir(&sample_ir()).unwrap();
    let report = registry.generate_all(
        &model,
        "t1.rd",
        None,
        false,
        &[Format::Script, Format::JSON, Format::Script, Format::JSON],
    );
    assert_eq!(report.results.len(), 1);
    assert_eq!(report.errors.len(), 1);
}

#[test]
fn a_format_without_a_backend_is_an_error() {
    let registry = Registry::new().register(JSON);
    assert!(registry.has(Format::JSON));
    assert!(!registry.has(Format::Markdown));
    let model = Technique::from_ir(&sample_ir()).unwrap();
    let report =
        registry.generate_all(&model, "t1.rd", None, false, &[Format::Markdown, Format::JSON]);
    assert_eq!(report.results.len(), 1);
    assert_eq!(report.results[0].format(), Format::JSON);
    assert_eq!(report.errors.len(), 1);
    assert_eq!(report.errors[0].format, Format::Markdown);
    assert_eq!(report.errors[0].fault, Fault::NoBackend);
    assert_eq!(report.errors[0].message(), "t1.rd: markdown: no backend is registered");
}

#[test]
fn an_empty_request_gives_an_empty_report() {
    let registry = Registry::new().register(JSON);
    let model = Technique::from_ir(&sample_ir()).unwrap();
    let report = registry.generate_all(&model, "t1.rd", None, false, &[]);
    assert!(report.results.is_empty());
    assert!(report.errors.is_empty());
}

#[test]
fn the_backend_registered_last_answers_for_its_format() {
    struct Other;
    impl Generator for Other {
        fn format(&self) -> Format {
            Format::JSON
        }

        fn generate(
            &self,
            _model: &Technique,
            _source: &str,
            _destination: Option<&str>,
            _embed_metadata: bool,
        ) -> Result<Vec<CommandResult>, GenerationError> {
            Ok(vec![])
        }
    }
    let registry = Registry::new().register(JSON).register(Other);
    let model = Technique::from_ir(&sample_ir()).unwrap();
    let report = registry.generate_all(&model, "t1.rd", None, false, &[Format::JSON]);
    assert!(report.results.is_empty());
    assert!(report.errors.is_empty());
}

#[test]
fn compile_builds_the_model_and_dispatches() {
    let registry = Registry::new().register(JSON).register(Refusing);
    let report = registry
        .compile(&sample_ir(), "t1.rd", Some("out/t1.json"), false, &[Format::JSON, Format::Script])
        .unwrap();
    assert_eq!(report.results.len(), 1);
    assert_eq!(report.results[0].destination(), Some("out/t1.json"));
    assert_eq!(report.results[0].content(), Some(JSON_TEXT));
    assert_eq!(report.errors.len(), 1);
}

#[test]
fn compile_stops_on_a_conversion_error() {
    let mut ir = sample_ir();
    ir.order = Some(vec![0, 0]);
    let registry = Registry::new().register(JSON);
    let outcome = registry.compile(&ir, "t1.rd", None, false, &[Format::JSON]);
    assert_eq!(outcome.unwrap_err(), ConversionError::InvalidOrder);
}
