use wasm2openapi::docs::{chars_of, split_docs, whitespace};
use wasm2openapi::endpoint::Endpoint;
use wasm2openapi::schema::SchemaNode;
use wasm2openapi::signature::{FunctionSignature, Results};
use wasm2openapi::types::TypeDescriptor;

/// The summary and description as the standard library's line splitting
/// gives them.
fn by_the_standard_library(docs: &str) -> (String, Option<String>) {
    let mut lines = docs.lines();
    let summary = lines.next().unwrap_or_default();
    let description =
        lines.skip_while(|line| line.trim().is_empty()).collect::<Vec<&str>>().join("\n");
    let description = if description.is_empty() { None } else { Some(description) };
    (summary.to_string(), description)
}

fn documented(docs: Option<&str>) -> Endpoint<()> {
    let prototype = FunctionSignature {
        name: "add".to_string(),
        params: vec![
            ("x".to_string(), TypeDescriptor::S32),
            ("y".to_string(), TypeDescriptor::S32),
        ],
        results: Results::Anon(TypeDescriptor::S32),
        docs: docs.map(|s| s.to_string()),
    };
    Endpoint::new("/root/add".to_string(), prototype, ())
}

#[test]
fn the_first_line_is_the_summary() {
    assert_eq!(split_docs("Adds two numbers."), ("Adds two numbers.".to_string(), None));
    assert_eq!(split_docs("Adds two numbers.\n"), ("Adds two numbers.".to_string(), None));
}

#[test]
fn what_follows_the_summary_is_the_description() {
    assert_eq!(
        split_docs("Adds two numbers.\n\nThe sum wraps.\nNothing else happens.\n"),
        (
            "Adds two numbers.".to_string(),
            Some("The sum wraps.\nNothing else happens.".to_string())
        )
    );
}

#[test]
fn blank_lines_after_the_summary_are_skipped_and_later_ones_kept() {
    assert_eq!(
        split_docs("Summary\n \t \n\u{2003}\nfirst\n\nsecond"),
        ("Summary".to_string(), Some("first\n\nsecond".to_string()))
    );
}

#[test]
fn carriage_returns_before_line_feeds_are_dropped() {
    assert_eq!(
        split_docs("Summary\r\n\r\nfirst\r\nsecond\r"),
        ("Summary".to_string(), Some("first\nsecond\r".to_string()))
    );
}

#[test]
fn an_empty_text_has_an_empty_summary_and_no_description() {
    assert_eq!(split_docs(""), (String::new(), None));
    assert_eq!(split_docs("\n"), (String::new(), None));
    assert_eq!(split_docs("\n\n  \n"), (String::new(), None));
    assert_eq!(split_docs("\nbody"), (String::new(), Some("body".to_string())));
}

#[test]
fn splitting_agrees_with_the_standard_library() {
    let pieces = ["", "a", " ", "\n", "\r\n", "\r", "b c", "\t", "\u{a0}", "é", "\n\n"];
    let mut texts: Vec<String> = pieces.iter().map(|p| p.to_string()).collect();
    for a in pieces {
        for b in pieces {
            texts.push(format!("{}{}", a, b));
            for c in pieces {
                texts.push(format!("{}{}{}", a, b, c));
                texts.push(format!("x{}{}{}y{}", a, b, c, a));
            }
        }
    }
    for text in texts {
        assert_eq!(split_docs(&text), by_the_standard_library(&text), "for {:?}", text);
    }
}

#[test]
fn white_space_is_what_the_standard_library_says() {
    for code in 0..=0x10ffffu32 {
        if let Some(c) = char::from_u32(code) {
            assert_eq!(whitespace(c), c.is_whitespace(), "for U+{:04X}", code);
        }
    }
}

#[test]
fn the_characters_of_a_string_come_one_by_one() {
    assert_eq!(chars_of("aé\n"), vec!['a', 'é', '\n']);
    assert_eq!(chars_of(""), Vec::<char>::new());
}

#[test]
fn an_endpoint_splits_the_docs_of_its_function() {
    assert_eq!(
        documented(Some("Adds.\n\nWith care.")).parse_function_docs(),
        ("Adds.".to_string(), Some("With care.".to_string()))
    );
    assert_eq!(documented(None).parse_function_docs(), (String::new(), None));
}

#[test]
fn the_request_body_is_a_json_object_of_the_parameters() {
    let body = documented(None).function_request_body();
    assert_eq!(body.content_type, "application/json");
    assert_eq!(
        body.schema,
        SchemaNode::Object {
            properties: vec![
                ("x".to_string(), SchemaNode::Integer { minimum: -2147483648, maximum: 2147483647 }),
                ("y".to_string(), SchemaNode::Integer { minimum: -2147483648, maximum: 2147483647 }),
            ],
            closed: false,
        }
    );
}

#[test]
fn the_result_schema_is_that_of_the_single_result_or_an_object_of_the_named_ones() {
    assert_eq!(
        documented(None).result_schema(),
        SchemaNode::Integer { minimum: -2147483648, maximum: 2147483647 }
    );
    let prototype = FunctionSignature {
        name: "f".to_string(),
        params: vec![],
        results: Results::Named(vec![("ok".to_string(), TypeDescriptor::Bool)]),
        docs: None,
    };
    assert_eq!(
        Endpoint::new("/w/f".to_string(), prototype, ()).result_schema(),
        SchemaNode::Object {
            properties: vec![("ok".to_string(), SchemaNode::Boolean)],
            closed: false
        }
    );
}

#[test]
fn the_operation_is_named_and_documented_after_the_function() {
    let endpoint = documented(Some("Adds two numbers.\n\nThe sum wraps."));
    let operation = endpoint.into_operation();
    assert_eq!(operation.operation_id, "add");
    assert_eq!(operation.summary, "Adds two numbers.");
    assert_eq!(operation.description, Some("The sum wraps.".to_string()));
    assert_eq!(operation.request_body, endpoint.function_request_body());
    assert_eq!(operation.response.status, 200);
    assert_eq!(operation.response.content_type, "application/json");
    assert_eq!(operation.response.schema, endpoint.result_schema());
}

#[test]
fn a_copy_of_a_signature_equals_it() {
    let endpoint = documented(Some("text"));
    assert_eq!(endpoint.prototype.clone(), endpoint.prototype);
}
