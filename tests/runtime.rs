use wasm_observe::model::{FunctionDescriptor, ModuleModel, ValueType};
use wasm_observe::runtime::{FCLogs, FunctionCall, FunctionNameIndex, HookError, Timestamp};
use wasm_observe::trace::{encode_record, trace_line};

fn ts(secs: u64, nanos: u32) -> Timestamp {
    Timestamp { secs, nanos }
}

fn index_of(names: &[Option<&str>]) -> FunctionNameIndex {
    let functions = names
        .iter()
        .enumerate()
        .map(|(i, n)| FunctionDescriptor {
            id: i as u32,
            name: n.map(|s| s.to_string()),
            params: vec![ValueType::I32],
            results: vec![],
        })
        .collect();
    FunctionNameIndex::from_model(&ModuleModel { functions, exports: vec![] })
}

#[test]
fn exit_on_empty_stack_is_reported() {
    let mut logs = FCLogs::new();
    assert_eq!(logs.exit(0, ts(1, 0)).err(), Some(HookError::EmptyStack));
    assert_eq!(logs.depth(), 0);
}

#[test]
fn enter_of_unknown_function_is_reported() {
    let index = index_of(&[Some("add"), None]);
    let mut logs = FCLogs::new();
    assert_eq!(logs.enter(&index, 1, ts(1, 0)).err(), Some(HookError::UnknownFunction(1)));
    assert_eq!(logs.enter(&index, 7, ts(1, 0)).err(), Some(HookError::UnknownFunction(7)));
    assert_eq!(logs.enter(&index, -1, ts(1, 0)).err(), Some(HookError::UnknownFunction(-1)));
    assert_eq!(logs.depth(), 0);
}

#[test]
fn enter_then_exit_records_one_call() {
    let index = index_of(&[Some("add"), Some("sub")]);
    let mut logs = FCLogs::new();
    let entered = logs.enter(&index, 1, ts(10, 5)).unwrap();
    assert_eq!(entered.index, 1);
    assert_eq!(entered.name, "sub");
    assert_eq!(entered.start, ts(10, 5));
    assert_eq!(entered.end, ts(10, 5));
    assert_eq!(logs.depth(), 1);
    let exited = logs.exit(1, ts(12, 7)).unwrap();
    assert_eq!(exited.index, 1);
    assert_eq!(exited.name, "sub");
    assert_eq!(exited.start, ts(10, 5));
    assert_eq!(exited.end, ts(12, 7));
    assert_eq!(logs.depth(), 0);
}

#[test]
fn nested_calls_pop_innermost_first() {
    let index = index_of(&[Some("outer"), Some("inner")]);
    let mut logs = FCLogs::new();
    logs.enter(&index, 0, ts(1, 0)).unwrap();
    logs.enter(&index, 1, ts(2, 0)).unwrap();
    assert_eq!(logs.depth(), 2);
    let first = logs.exit(1, ts(3, 0)).unwrap();
    assert_eq!(first.name, "inner");
    let second = logs.exit(0, ts(4, 0)).unwrap();
    assert_eq!(second.name, "outer");
    assert_eq!(second.start, ts(1, 0));
    assert_eq!(second.end, ts(4, 0));
    assert_eq!(logs.depth(), 0);
    assert_eq!(logs.exit(0, ts(5, 0)).err(), Some(HookError::EmptyStack));
}

#[test]
fn stack_is_empty_after_completed_calls() {
    let index = index_of(&[Some("a"), Some("b")]);
    let mut logs = FCLogs::new();
    for round in 0..5u64 {
        logs.enter(&index, 0, ts(round, 0)).unwrap();
        logs.enter(&index, 1, ts(round, 1)).unwrap();
        logs.exit(1, ts(round, 2)).unwrap();
        logs.exit(0, ts(round, 3)).unwrap();
        logs.enter(&index, 1, ts(round, 4)).unwrap();
        logs.exit(1, ts(round, 5)).unwrap();
    }
    assert_eq!(logs.depth(), 0);
}

#[test]
fn trace_line_is_one_json_object() {
    let call = FunctionCall { index: 3, name: "add".to_string(), start: ts(1, 2), end: ts(3, 4) };
    let line = trace_line(&call);
    assert_eq!(
        String::from_utf8(line).unwrap(),
        "{\"index\":3,\"name\":\"add\",\"start\":{\"secs_since_epoch\":1,\"nanos_since_epoch\":2},\"end\":{\"secs_since_epoch\":3,\"nanos_since_epoch\":4}}\n"
    );
}

#[test]
fn trace_line_escapes_the_name() {
    let call = FunctionCall { index: 0, name: "a\"b\\c".to_string(), start: ts(0, 0), end: ts(0, 0) };
    let line = String::from_utf8(trace_line(&call)).unwrap();
    assert!(line.contains("\"name\":\"a\\\"b\\\\c\","));
}

#[test]
fn encode_record_writes_extreme_values() {
    let call = FunctionCall {
        index: i32::MIN,
        name: String::new(),
        start: ts(u64::MAX, 999_999_999),
        end: ts(0, 0),
    };
    let line = encode_record(&call, &b"\"\"".to_vec());
    assert_eq!(
        String::from_utf8(line).unwrap(),
        "{\"index\":-2147483648,\"name\":\"\",\"start\":{\"secs_since_epoch\":18446744073709551615,\"nanos_since_epoch\":999999999},\"end\":{\"secs_since_epoch\":0,\"nanos_since_epoch\":0}}\n"
    );
}

#[test]
fn trace_line_matches_serde_json_of_the_record() {
    let call = FunctionCall { index: 42, name: "sub".to_string(), start: ts(5, 6), end: ts(7, 8) };
    let line = String::from_utf8(trace_line(&call)).unwrap();
    let value: serde_json::Value = serde_json::from_str(line.trim_end()).unwrap();
    assert_eq!(value["index"].as_i64(), Some(42));
    assert_eq!(value["name"].as_str(), Some("sub"));
    assert_eq!(value["start"]["secs_since_epoch"].as_u64(), Some(5));
    assert_eq!(value["end"]["nanos_since_epoch"].as_u64(), Some(8));
}

#[test]
fn trace_line_escapes_control_bytes() {
    let call = FunctionCall { index: 1, name: "a\nb\u{1}\u{1f}é".to_string(), start: ts(0, 0), end: ts(0, 0) };
    let line = String::from_utf8(trace_line(&call)).unwrap();
    assert!(line.contains("\"name\":\"a\\nb\\u0001\\u001fé\","));
}
