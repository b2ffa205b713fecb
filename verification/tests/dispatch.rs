use wasm2openapi::dispatch::{CallReport, Phase, Reply, Step};
use wasm2openapi::endpoint::Endpoint;
use wasm2openapi::error::{DispatchError, ErrorKind};
use wasm2openapi::json::{JsonValue, Number};
use wasm2openapi::signature::{FunctionSignature, Results};
use wasm2openapi::types::{Kind, TypeDescriptor};
use wasm2openapi::value::{Segment, TypeMismatch, Value};

fn number(n: u64) -> JsonValue {
    JsonValue::Number(Number::PosInt(n))
}

fn body(members: Vec<(&str, JsonValue)>) -> Vec<(String, JsonValue)> {
    members.into_iter().map(|(k, v)| (k.to_string(), v)).collect()
}

/// The signature `add(x: s32, y: s32) -> s32`.
fn add_signature() -> FunctionSignature {
    FunctionSignature {
        name: "add".to_string(),
        params: vec![
            ("x".to_string(), TypeDescriptor::S32),
            ("y".to_string(), TypeDescriptor::S32),
        ],
        results: Results::Anon(TypeDescriptor::S32),
        docs: None,
    }
}

/// What the component's `add` does.
fn add(args: Vec<Value>) -> CallReport {
    let outcome = match (&args[0], &args[1]) {
        (Value::S32(x), Value::S32(y)) => Ok(vec![Value::S32(x + y)]),
        _ => Err("the arguments are no two s32".to_string()),
    };
    CallReport { outcome, cleanup: Ok(()) }
}

fn add_endpoint() -> Endpoint<fn(Vec<Value>) -> CallReport> {
    Endpoint::new("/root/add".to_string(), add_signature(), add)
}

#[test]
fn add_of_two_and_three_is_five() {
    let reply = add_endpoint().call(&body(vec![("x", number(2)), ("y", number(3))]));
    assert_eq!(reply.result, Ok(number(5)));
    assert_eq!(reply.phase, Phase::Responded);
    assert_eq!(reply.cleanup_failure, None);
    assert_eq!(reply.status(), 200);
    assert_eq!(reply.body(), number(5));
}

#[test]
fn add_without_y_misses_the_parameter_y() {
    let reply = add_endpoint().call(&body(vec![("x", number(2))]));
    assert_eq!(reply.result, Err(DispatchError::MissingParameter("y".to_string())));
    assert_eq!(reply.phase, Phase::Failed(ErrorKind::MissingParameter));
    assert_eq!(reply.status(), 400);
}

#[test]
fn add_of_a_string_mismatches_at_x() {
    let reply = add_endpoint().call(&body(vec![
        ("x", JsonValue::String("2".to_string())),
        ("y", number(3)),
    ]));
    assert_eq!(
        reply.result,
        Err(DispatchError::TypeMismatch(TypeMismatch {
            path: vec![Segment::Key("x".to_string())],
            expected: Kind::S32,
        }))
    );
    assert_eq!(reply.phase, Phase::Failed(ErrorKind::TypeMismatch));
    assert_eq!(reply.status(), 400);
}

#[test]
fn the_first_parameter_that_fails_is_reported() {
    let endpoint = add_endpoint();
    let both_missing = endpoint.decode_parameters(&body(vec![]));
    assert_eq!(both_missing, Err(DispatchError::MissingParameter("x".to_string())));
    let both_wrong = endpoint.decode_parameters(&body(vec![
        ("y", JsonValue::Null),
        ("x", JsonValue::Bool(true)),
    ]));
    assert_eq!(
        both_wrong,
        Err(DispatchError::TypeMismatch(TypeMismatch {
            path: vec![Segment::Key("x".to_string())],
            expected: Kind::S32,
        }))
    );
    let missing_then_wrong = endpoint.decode_parameters(&body(vec![("y", JsonValue::Null)]));
    assert_eq!(missing_then_wrong, Err(DispatchError::MissingParameter("x".to_string())));
}

#[test]
fn arguments_come_in_the_order_of_the_parameters() {
    let arguments = add_endpoint().decode_parameters(&body(vec![
        ("y", number(3)),
        ("extra", JsonValue::Null),
        ("x", number(2)),
    ]));
    assert_eq!(arguments, Ok(vec![Value::S32(2), Value::S32(3)]));
}

#[test]
fn the_function_is_not_called_where_an_argument_fails() {
    let called = std::cell::Cell::new(0);
    let endpoint = Endpoint::new("/root/add".to_string(), add_signature(), |args: Vec<Value>| {
        called.set(called.get() + 1);
        add(args)
    });
    let _ = endpoint.call(&body(vec![("x", number(2))]));
    assert_eq!(called.get(), 0);
    let _ = endpoint.call(&body(vec![("x", number(2)), ("y", number(3))]));
    assert_eq!(called.get(), 1);
}

#[test]
fn a_failed_call_is_reported_once_as_call_failed() {
    let endpoint = Endpoint::new("/root/add".to_string(), add_signature(), |_args: Vec<Value>| {
        CallReport { outcome: Err("trap: unreachable".to_string()), cleanup: Ok(()) }
    });
    let reply = endpoint.call(&body(vec![("x", number(2)), ("y", number(3))]));
    assert_eq!(reply.result, Err(DispatchError::CallFailed("trap: unreachable".to_string())));
    assert_eq!(reply.phase, Phase::Failed(ErrorKind::CallFailed));
    assert_eq!(reply.status(), 500);
}

#[test]
fn a_failed_cleanup_does_not_change_the_answer() {
    let endpoint = Endpoint::new("/root/add".to_string(), add_signature(), |args: Vec<Value>| {
        CallReport { outcome: add(args).outcome, cleanup: Err("post-return failed".to_string()) }
    });
    let reply = endpoint.call(&body(vec![("x", number(2)), ("y", number(3))]));
    assert_eq!(reply.result, Ok(number(5)));
    assert_eq!(reply.phase, Phase::Responded);
    assert_eq!(
        reply.cleanup_failure,
        Some(DispatchError::CleanupFailed("post-return failed".to_string()))
    );
    assert_eq!(reply.status(), 200);
}

#[test]
fn a_failed_cleanup_after_a_failed_call_leaves_the_call_failure() {
    let report = CallReport {
        outcome: Err("trap".to_string()),
        cleanup: Err("post-return failed".to_string()),
    };
    let reply = add_endpoint().respond(report);
    assert_eq!(reply.result, Err(DispatchError::CallFailed("trap".to_string())));
    assert_eq!(
        reply.cleanup_failure,
        Some(DispatchError::CleanupFailed("post-return failed".to_string()))
    );
}

#[test]
fn named_results_become_an_object() {
    let signature = FunctionSignature {
        name: "divide".to_string(),
        params: vec![],
        results: Results::Named(vec![
            ("quotient".to_string(), TypeDescriptor::U8),
            ("remainder".to_string(), TypeDescriptor::U8),
        ]),
        docs: None,
    };
    let endpoint = Endpoint::new("/root/divide".to_string(), signature, |_args: Vec<Value>| {
        CallReport { outcome: Ok(vec![Value::U8(3), Value::U8(1)]), cleanup: Ok(()) }
    });
    let reply = endpoint.call(&body(vec![]));
    assert_eq!(
        reply.result,
        Ok(JsonValue::Object(body(vec![("quotient", number(3)), ("remainder", number(1))])))
    );
}

#[test]
fn a_wrong_number_of_results_is_a_failed_call() {
    let message =
        "the call gave a number of results that its signature does not announce".to_string();
    let endpoint = add_endpoint();
    assert_eq!(
        endpoint.encode_results(&vec![]),
        Err(DispatchError::CallFailed(message.clone()))
    );
    assert_eq!(
        endpoint.encode_results(&vec![Value::S32(1), Value::S32(2)]),
        Err(DispatchError::CallFailed(message))
    );
    assert_eq!(endpoint.encode_results(&vec![Value::S32(1)]), Ok(number(1)));
}

#[test]
fn errors_have_a_status_and_a_kind() {
    let missing = DispatchError::MissingParameter("p".to_string());
    let mismatch =
        DispatchError::TypeMismatch(TypeMismatch { path: vec![], expected: Kind::Bool });
    let failed = DispatchError::CallFailed("x".to_string());
    let cleanup = DispatchError::CleanupFailed("x".to_string());
    assert_eq!((missing.kind(), missing.status()), (ErrorKind::MissingParameter, 400));
    assert_eq!((mismatch.kind(), mismatch.status()), (ErrorKind::TypeMismatch, 400));
    assert_eq!((failed.kind(), failed.status()), (ErrorKind::CallFailed, 500));
    assert_eq!((cleanup.kind(), cleanup.status()), (ErrorKind::CleanupFailed, 500));
    assert_eq!(ErrorKind::CleanupFailed.status(), 500);
}

#[test]
fn errors_are_told_in_a_json_body() {
    let text = |s: &str| JsonValue::String(s.to_string());
    assert_eq!(
        DispatchError::MissingParameter("y".to_string()).to_json(),
        JsonValue::Object(body(vec![("error", text("missing_parameter")), ("parameter", text("y"))]))
    );
    assert_eq!(
        DispatchError::TypeMismatch(TypeMismatch {
            path: vec![Segment::Key("amount".to_string()), Segment::Index(2)],
            expected: Kind::U16,
        })
        .to_json(),
        JsonValue::Object(body(vec![
            ("error", text("type_mismatch")),
            ("path", JsonValue::Array(vec![text("amount"), number(2)])),
            ("expected", text("u16")),
        ]))
    );
    assert_eq!(
        DispatchError::CallFailed("trap".to_string()).to_json(),
        JsonValue::Object(body(vec![("error", text("call_failed")), ("detail", text("trap"))]))
    );
    assert_eq!(
        DispatchError::CleanupFailed("late".to_string()).to_json(),
        JsonValue::Object(body(vec![("error", text("cleanup_failed")), ("detail", text("late"))]))
    );
}

#[test]
fn the_body_of_a_failed_reply_tells_the_error() {
    let reply = Reply {
        phase: Phase::Failed(ErrorKind::MissingParameter),
        result: Err(DispatchError::MissingParameter("y".to_string())),
        cleanup_failure: None,
    };
    assert_eq!(reply.body(), DispatchError::MissingParameter("y".to_string()).to_json());
    assert_eq!(reply.status(), 400);
}

#[test]
fn kinds_have_the_names_of_the_interface_language() {
    let names: Vec<(Kind, &str)> = vec![
        (Kind::Bool, "bool"),
        (Kind::U8, "u8"),
        (Kind::U16, "u16"),
        (Kind::U32, "u32"),
        (Kind::U64, "u64"),
        (Kind::S8, "s8"),
        (Kind::S16, "s16"),
        (Kind::S32, "s32"),
        (Kind::S64, "s64"),
        (Kind::Float32, "float32"),
        (Kind::Float64, "float64"),
        (Kind::Char, "char"),
        (Kind::String, "string"),
        (Kind::List, "list"),
        (Kind::Record, "record"),
        (Kind::Tuple, "tuple"),
        (Kind::Variant, "variant"),
        (Kind::Enum, "enum"),
        (Kind::Option, "option"),
        (Kind::Result, "result"),
        (Kind::Flags, "flags"),
        (Kind::Resource, "resource"),
    ];
    for (kind, name) in names {
        assert_eq!(kind.name(), name);
    }
    assert_eq!(ErrorKind::TypeMismatch.name(), "type_mismatch");
}

#[test]
fn a_request_moves_through_its_phases() {
    let decoded = Phase::Decoding.advance(Step::Decoded);
    assert_eq!(decoded, Phase::Invoking);
    let returned = decoded.advance(Step::Returned);
    assert_eq!(returned, Phase::Encoding);
    assert_eq!(returned.advance(Step::Encoded), Phase::Responded);
    assert_eq!(
        Phase::Decoding.advance(Step::Rejected(ErrorKind::TypeMismatch)),
        Phase::Failed(ErrorKind::TypeMismatch)
    );
    assert_eq!(
        Phase::Encoding.advance(Step::Rejected(ErrorKind::CallFailed)),
        Phase::Failed(ErrorKind::CallFailed)
    );
}

#[test]
fn nothing_leaves_a_phase_that_is_final_and_invoking_does_not_fail() {
    let steps = [
        Step::Decoded,
        Step::Returned,
        Step::Encoded,
        Step::Rejected(ErrorKind::CallFailed),
    ];
    for step in steps {
        assert_eq!(Phase::Responded.advance(step), Phase::Responded);
        assert_eq!(
            Phase::Failed(ErrorKind::MissingParameter).advance(step),
            Phase::Failed(ErrorKind::MissingParameter)
        );
    }
    assert_eq!(
        Phase::Invoking.advance(Step::Rejected(ErrorKind::CallFailed)),
        Phase::Invoking
    );
    assert_eq!(Phase::Decoding.advance(Step::Encoded), Phase::Decoding);
}
