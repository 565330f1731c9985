use vstd::prelude::*;
use vstd::multiset::Multiset;

verus! {

/// A schema violation as the schema validator reports it: where in the document (a JSON pointer)
/// and what is wrong.
pub struct SchemaViolation {
    pub path: String,
    pub message: String,
}

/// The report line of one violation.
pub open spec fn violation_line(v: SchemaViolation) -> Seq<char> {
    "  • Path '"@ + v.path@ + "': "@ + v.message@
}

/// The report lines of `vs`, joined by line breaks.
pub open spec fn violation_lines(vs: Seq<SchemaViolation>) -> Seq<char>
    decreases vs.len(),
{
    if vs.len() == 0 {
        Seq::empty()
    } else if vs.len() == 1 {
        violation_line(vs[0])
    } else {
        violation_lines(vs.drop_last()) + "\n"@ + violation_line(vs.last())
    }
}

/// The message when a document breaks the schema with nothing more specific to say.
pub open spec fn generic_mismatch_message() -> Seq<char> {
    "Schema validation failed: JSON does not match the expected schema for lists"@
}

/// The verdict on a lists document: accepted when the schema validator found it valid; otherwise
/// the report of its violations, or a general message when there are none to show.
pub fn schema_verdict(valid: bool, violations: &Vec<SchemaViolation>) -> (r: Result<(), String>)
    ensures
        valid ==> r is Ok,
        !valid && violations@.len() == 0 ==> (r matches Err(m) && m@ == generic_mismatch_message()),
        !valid && violations@.len() > 0 ==> (r matches Err(m) && m@ == "Schema validation failed:\n"@
            + violation_lines(violations@)),
{
    if valid {
        return Ok(());
    }
    if violations.len() == 0 {
        return Err("Schema validation failed: JSON does not match the expected schema for lists".to_owned());
    }
    let mut out = "Schema validation failed:\n".to_owned();
    let ghost head = out@;
    let mut i: usize = 0;
    while i < violations.len()
        invariant
            i <= violations.len(),
            head == "Schema validation failed:\n"@,
            out@ == head + violation_lines(violations@.take(i as int)),
        decreases violations.len() - i,
    {
        let ghost before = out@;
        let ghost prefix = violations@.take(i as int);
        if i > 0 {
            out.append("\n");
        }
        out.append("  • Path '");
        out.append(violations[i].path.as_str());
        out.append("': ");
        out.append(violations[i].message.as_str());
        proof {
            let next = violations@.take(i + 1);
            assert(next.drop_last() =~= prefix);
            assert(next.last() == violations@[i as int]);
            if i == 0 {
                assert(next.len() == 1);
                assert(out@ =~= head + violation_lines(next));
            } else {
                assert(out@ =~= head + violation_lines(next));
            }
        }
        i += 1;
    }
    assert(violations@.take(i as int) =~= violations@);
    Err(out)
}

/// The JSON schema of a saved lists file.
pub const LISTS_SCHEMA: &'static str = r#"{
  "$schema": "http://json-schema.org/draft-07/schema#",
  "title": "Lists",
  "type": "object",
  "required": ["title", "description", "properties"],
  "properties": {
    "title": { "type": "string" },
    "description": { "type": "string" },
    "properties": {
      "type": "object",
      "required": ["lists"],
      "properties": {
        "lists": {
          "type": "array",
          "items": {
            "type": "object",
            "required": ["name", "lines"],
            "properties": {
              "name": { "type": "string" },
              "lines": {
                "type": "array",
                "items": {
                  "type": "object",
                  "required": ["element", "data"],
                  "properties": {
                    "element": { "type": "string" },
                    "data": {
                      "type": "array",
                      "items": {
                        "type": "object",
                        "required": ["key", "value", "unit"],
                        "properties": {
                          "key": { "type": "string" },
                          "value": { "type": "string" },
                          "unit": { "type": "string" }
                        }
                      }
                    }
                  }
                }
              }
            }
          }
        }
      }
    }
  }
}"#;

/// Why a document could not be checked against a schema: the schema text is not JSON,
/// it is not a valid schema, or the document text is not JSON; each with the message of
/// the step that failed.
pub enum SchemaCheckError {
    SchemaParse(String),
    SchemaCompile(String),
    JsonParse(String),
}

/// The texts of a [`SchemaCheckError`].
pub enum SchemaCheckErrorView {
    SchemaParse(Seq<char>),
    SchemaCompile(Seq<char>),
    JsonParse(Seq<char>),
}

impl View for SchemaCheckError {
    type V = SchemaCheckErrorView;

    open spec fn view(&self) -> SchemaCheckErrorView {
        match self {
            SchemaCheckError::SchemaParse(m) => SchemaCheckErrorView::SchemaParse(m@),
            SchemaCheckError::SchemaCompile(m) => SchemaCheckErrorView::SchemaCompile(m@),
            SchemaCheckError::JsonParse(m) => SchemaCheckErrorView::JsonParse(m@),
        }
    }
}

/// Whether the JSON text `json` conforms to the JSON schema given as text `schema`, or
/// the step at which checking it failed.
pub uninterp spec fn schema_check_outcome(schema: Seq<char>, json: Seq<char>) -> Result<bool, SchemaCheckErrorView>;

/// The violations that the schema validator reports for the JSON text `json` against the
/// JSON schema text `schema`, each as its instance path and its message, counted with
/// their repetitions; the order in which they are reported is left open.
pub uninterp spec fn schema_violations(schema: Seq<char>, json: Seq<char>) -> Multiset<(Seq<char>, Seq<char>)>;

/// The verdict part of a check's result.
pub open spec fn outcome_of(r: Result<(bool, Vec<SchemaViolation>), SchemaCheckError>) -> Result<
    bool,
    SchemaCheckErrorView,
> {
    match r {
        Ok((valid, _)) => Ok(valid),
        Err(e) => Err(e@),
    }
}

/// Checks the JSON text `json_str` against the JSON schema text `schema`
/// (`serde_json::from_str` for both texts, then `jsonschema::validator_for`, the
/// validator's `is_valid` and `iter_errors`): whether it conforms and the violations
/// found, or the step that failed with its message. Which violations are found depends on
/// the texts alone; the order in which they come does not (it follows how the validator
/// walks its property tables, which are seeded per process), so only their multiset is
/// named.
#[verifier::external_body]
fn check_against_schema(schema: &str, json_str: &str) -> (r: Result<(bool, Vec<SchemaViolation>), SchemaCheckError>)
    ensures
        outcome_of(r) == schema_check_outcome(schema@, json_str@),
        r matches Ok((_, vs)) ==> violations_view(vs@).to_multiset() == schema_violations(
            schema@,
            json_str@,
        ),
{
    let schema_value: serde_json::Value =
        serde_json::from_str(schema).map_err(|e| SchemaCheckError::SchemaParse(e.to_string()))?;
    let validator =
        jsonschema::validator_for(&schema_value).map_err(|e| SchemaCheckError::SchemaCompile(e.to_string()))?;
    let instance: serde_json::Value =
        serde_json::from_str(json_str).map_err(|e| SchemaCheckError::JsonParse(e.to_string()))?;
    let violations = validator
        .iter_errors(&instance)
        .map(|e| SchemaViolation { path: e.instance_path().to_string(), message: e.to_string() })
        .collect();
    Ok((validator.is_valid(&instance), violations))
}

/// The views of a sequence of violations.
pub open spec fn violations_view(v: Seq<SchemaViolation>) -> Seq<(Seq<char>, Seq<char>)> {
    Seq::new(v.len(), |i: int| (v[i].path@, v[i].message@))
}

/// The answer to a check of a lists document: each failed step with its message, else
/// the verdict on the violations found.
pub open spec fn check_answer(r: Result<(bool, Seq<SchemaViolation>), SchemaCheckErrorView>) -> Result<(), Seq<char>> {
    match r {
        Err(SchemaCheckErrorView::SchemaParse(m)) => Err("Failed to parse schema: "@ + m),
        Err(SchemaCheckErrorView::SchemaCompile(m)) => Err("Failed to compile schema: "@ + m),
        Err(SchemaCheckErrorView::JsonParse(m)) => Err("Failed to parse JSON: "@ + m),
        Ok((true, _)) => Ok(()),
        Ok((false, vs)) => if vs.len() == 0 {
            Err(generic_mismatch_message())
        } else {
            Err("Schema validation failed:\n"@ + violation_lines(vs))
        },
    }
}

/// The view of an answer.
pub open spec fn answer_view(r: Result<(), String>) -> Result<(), Seq<char>> {
    match r {
        Ok(()) => Ok(()),
        Err(m) => Err(m@),
    }
}

/// The check's result as the answer takes it.
pub open spec fn check_view(r: Result<(bool, Vec<SchemaViolation>), SchemaCheckError>) -> Result<
    (bool, Seq<SchemaViolation>),
    SchemaCheckErrorView,
> {
    match r {
        Ok((valid, vs)) => Ok((valid, vs@)),
        Err(e) => Err(e@),
    }
}

/// The answer for a check that ended in `outcome`, the validator having reported `vs`.
pub open spec fn answer_with(outcome: Result<bool, SchemaCheckErrorView>, vs: Seq<SchemaViolation>) -> Result<
    (),
    Seq<char>,
> {
    check_answer(
        match outcome {
            Ok(valid) => Ok((valid, vs)),
            Err(e) => Err(e),
        },
    )
}

/// The answer to a check of a lists document (see [`check_answer`]).
pub fn lists_check_answer(checked: Result<(bool, Vec<SchemaViolation>), SchemaCheckError>) -> (r: Result<
    (),
    String,
>)
    ensures
        answer_view(r) == check_answer(check_view(checked)),
{
    match checked {
        Err(SchemaCheckError::SchemaParse(m)) => {
            let mut out = "Failed to parse schema: ".to_owned();
            out.append(m.as_str());
            Err(out)
        },
        Err(SchemaCheckError::SchemaCompile(m)) => {
            let mut out = "Failed to compile schema: ".to_owned();
            out.append(m.as_str());
            Err(out)
        },
        Err(SchemaCheckError::JsonParse(m)) => {
            let mut out = "Failed to parse JSON: ".to_owned();
            out.append(m.as_str());
            Err(out)
        },
        Ok((valid, violations)) => schema_verdict(valid, &violations),
    }
}

/// Checks the text of a lists document against [`LISTS_SCHEMA`]: `Ok(())` exactly when
/// it conforms; otherwise the step that failed, or the report of the violations (see
/// [`check_answer`]), one `Path` line for each violation the validator reports.
pub fn validate_lists_json(json_str: &str) -> (r: Result<(), String>)
    ensures
        r is Ok <==> schema_check_outcome(LISTS_SCHEMA@, json_str@) == Ok::<bool, SchemaCheckErrorView>(true),
        exists|vs: Seq<SchemaViolation>|
            (schema_check_outcome(LISTS_SCHEMA@, json_str@) is Ok ==> violations_view(vs).to_multiset()
                == schema_violations(LISTS_SCHEMA@, json_str@)) && answer_view(r)
                == #[trigger] answer_with(schema_check_outcome(LISTS_SCHEMA@, json_str@), vs),
{
    let checked = check_against_schema(LISTS_SCHEMA, json_str);
    let ghost vs = match &checked {
        Ok((_, v)) => v@,
        Err(_) => Seq::empty(),
    };
    let r = lists_check_answer(checked);
    proof {
        assert(answer_view(r) == answer_with(schema_check_outcome(LISTS_SCHEMA@, json_str@), vs));
        assert(schema_check_outcome(LISTS_SCHEMA@, json_str@) is Ok ==> violations_view(vs).to_multiset()
            == schema_violations(LISTS_SCHEMA@, json_str@));
    }
    r
}

} // verus!
