use domain::lists_schema::{schema_verdict, SchemaViolation};
use domain::models::unified_model::{object_tracks, TimestepObjects};

fn step(declared: usize, names: &[&str]) -> TimestepObjects {
    TimestepObjects { declared, names: names.iter().map(|n| n.to_string()).collect() }
}

#[test]
fn follows_each_object_through_the_timesteps_that_hold_it() {
    let steps = vec![step(1, &["obj"]), step(2, &["obj", "far"]), step(1, &["obj"])];
    let tracks = object_tracks(&steps);
    assert_eq!(tracks.len(), 2);
    assert_eq!(tracks[0].name, "obj");
    assert_eq!(tracks[0].steps, vec![0, 1, 2]);
    assert_eq!(tracks[1].name, "far");
    assert_eq!(tracks[1].steps, vec![1]);
}

#[test]
fn declared_objects_without_data_get_numbered_names() {
    let steps = vec![step(3, &["a"])];
    let tracks = object_tracks(&steps);
    assert_eq!(tracks.len(), 3);
    assert_eq!(tracks[1].name, "object_2");
    assert_eq!(tracks[2].name, "object_3");
    assert!(tracks[2].steps.is_empty());
    assert!(object_tracks(&Vec::new()).is_empty());
}

#[test]
fn schema_verdict_reports_violations_line_by_line() {
    assert!(schema_verdict(true, &Vec::new()).is_ok());
    assert_eq!(
        schema_verdict(false, &Vec::new()).unwrap_err(),
        "Schema validation failed: JSON does not match the expected schema for lists"
    );
    let violations = vec![
        SchemaViolation { path: "/title".to_string(), message: "1 is not of type \"string\"".to_string() },
        SchemaViolation { path: "".to_string(), message: "\"properties\" is a required property".to_string() },
    ];
    assert_eq!(
        schema_verdict(false, &violations).unwrap_err(),
        "Schema validation failed:\n  • Path '/title': 1 is not of type \"string\"\n  • Path '': \"properties\" is a required property"
    );
}

use domain::lists_schema::{lists_check_answer, validate_lists_json, SchemaCheckError, LISTS_SCHEMA};

#[test]
fn wrapped_lists_documents_pass_the_schema_check() {
    let wrapped = r#"{
        "title": "Lists",
        "description": "Saved lists data",
        "properties": { "lists": [ { "name": "own", "lines": [
            { "element": "Button", "data": [ { "key": "label", "value": "ok", "unit": "" } ] }
        ] } ] }
    }"#;
    assert!(validate_lists_json(wrapped).is_ok());
}

#[test]
fn bare_lists_documents_fail_the_schema_check() {
    let legacy = r#"{ "lists": [ { "name": "own", "lines": [] } ] }"#;
    let message = validate_lists_json(legacy).unwrap_err();
    assert!(message.starts_with("Schema validation failed:\n  • Path ''"), "{message}");
    let broken = validate_lists_json("{ not json").unwrap_err();
    assert!(broken.starts_with("Failed to parse JSON: "), "{broken}");
}

#[test]
fn check_answers_name_the_failed_step() {
    assert_eq!(
        lists_check_answer(Err(SchemaCheckError::SchemaParse("eof".to_string()))).unwrap_err(),
        "Failed to parse schema: eof"
    );
    assert_eq!(
        lists_check_answer(Err(SchemaCheckError::SchemaCompile("bad".to_string()))).unwrap_err(),
        "Failed to compile schema: bad"
    );
    assert_eq!(
        lists_check_answer(Err(SchemaCheckError::JsonParse("x".to_string()))).unwrap_err(),
        "Failed to parse JSON: x"
    );
    assert!(lists_check_answer(Ok((true, Vec::new()))).is_ok());
}

#[test]
fn each_violation_gets_its_own_report_line() {
    let doc = r#"{ "title": 3, "description": "d", "properties": { "lists": [ { "name": 1, "lines": [] } ] } }"#;
    let schema: serde_json::Value = serde_json::from_str(LISTS_SCHEMA).unwrap();
    let validator = jsonschema::validator_for(&schema).unwrap();
    let instance: serde_json::Value = serde_json::from_str(doc).unwrap();
    let mut expected: Vec<String> = validator
        .iter_errors(&instance)
        .map(|e| format!("  • Path '{}': {}", e.instance_path(), e))
        .collect();
    assert_eq!(expected.len(), 2);
    let message = validate_lists_json(doc).unwrap_err();
    let body = message.strip_prefix("Schema validation failed:\n").unwrap();
    let mut lines: Vec<String> = body.split('\n').map(|l| l.to_string()).collect();
    lines.sort();
    expected.sort();
    assert_eq!(lines, expected);
}
