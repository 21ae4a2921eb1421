use wasm_observe::runtime::{FCLogs, FunctionNameIndex, HookError, Timestamp};
use wasm_observe::trace::trace_line;
use wasm_observe::wasm::instrument;
use wasmtime::{Caller, Engine, Linker, Module, Store};

const HEADER: [u8; 8] = [0x00, 0x61, 0x73, 0x6d, 0x01, 0x00, 0x00, 0x00];

/// `add` and `sub` over `(i32, i32) -> i32`, and `twice_add(a, b)` which
/// calls `add` and adds its result to itself; all exported and named.
fn nested_module() -> Vec<u8> {
    let mut m = HEADER.to_vec();
    m.extend_from_slice(&[0x01, 0x07, 0x01, 0x60, 0x02, 0x7f, 0x7f, 0x01, 0x7f]);
    m.extend_from_slice(&[0x03, 0x04, 0x03, 0x00, 0x00, 0x00]);
    m.extend_from_slice(&[
        0x07, 0x19, 0x03, 0x03, b'a', b'd', b'd', 0x00, 0x00, 0x03, b's', b'u', b'b', 0x00, 0x01,
        0x09, b't', b'w', b'i', b'c', b'e', b'_', b'a', b'd', b'd', 0x00, 0x02,
    ]);
    // twice_add: call add, then double the result through a local.
    m.extend_from_slice(&[
        0x0a, 0x21, 0x03, 0x07, 0x00, 0x20, 0x00, 0x20, 0x01, 0x6a, 0x0b, 0x07, 0x00, 0x20, 0x00,
        0x20, 0x01, 0x6b, 0x0b, 0x0f, 0x01, 0x01, 0x7f, 0x20, 0x00, 0x20, 0x01, 0x10, 0x00, 0x22,
        0x02, 0x20, 0x02, 0x6a, 0x0b,
    ]);
    m.extend_from_slice(&[
        0x00, 0x1d, 0x04, b'n', b'a', b'm', b'e', 0x01, 0x16, 0x03, 0x00, 0x03, b'a', b'd', b'd',
        0x01, 0x03, b's', b'u', b'b', 0x02, 0x09, b't', b'w', b'i', b'c', b'e', b'_', b'a', b'd',
        b'd',
    ]);
    m
}

/// `add(i32, i32) -> i32`, and `outer(a, b)`, which returns what the
/// imported `env.call_back(a, b)` returns; both exported and named.
fn reentrant_module() -> Vec<u8> {
    let mut m = HEADER.to_vec();
    m.extend_from_slice(&[0x01, 0x07, 0x01, 0x60, 0x02, 0x7f, 0x7f, 0x01, 0x7f]);
    m.extend_from_slice(&[
        0x02, 0x11, 0x01, 0x03, b'e', b'n', b'v', 0x09, b'c', b'a', b'l', b'l', b'_', b'b', b'a',
        b'c', b'k', 0x00, 0x00,
    ]);
    m.extend_from_slice(&[0x03, 0x03, 0x02, 0x00, 0x00]);
    m.extend_from_slice(&[
        0x07, 0x0f, 0x02, 0x03, b'a', b'd', b'd', 0x00, 0x01, 0x05, b'o', b'u', b't', b'e', b'r',
        0x00, 0x02,
    ]);
    m.extend_from_slice(&[
        0x0a, 0x12, 0x02, 0x07, 0x00, 0x20, 0x00, 0x20, 0x01, 0x6a, 0x0b, 0x08, 0x00, 0x20, 0x00,
        0x20, 0x01, 0x10, 0x00, 0x0b,
    ]);
    m.extend_from_slice(&[
        0x00, 0x14, 0x04, b'n', b'a', b'm', b'e', 0x01, 0x0d, 0x02, 0x01, 0x03, b'a', b'd', b'd',
        0x02, 0x05, b'o', b'u', b't', b'e', b'r',
    ]);
    m
}

struct Host {
    logs: FCLogs,
    index: FunctionNameIndex,
    clock: u64,
    events: Vec<(bool, i32)>,
    lines: Vec<String>,
    errors: Vec<HookError>,
}

fn run_with_hooks(calls: &[(&str, i32, i32)]) -> (Vec<i32>, Host) {
    run_module_with_hooks(&nested_module(), calls)
}

fn run_module_with_hooks(source: &[u8], calls: &[(&str, i32, i32)]) -> (Vec<i32>, Host) {
    let out = instrument(source).expect("instruments");
    let index = FunctionNameIndex::from_model(&out.source);
    let engine = Engine::default();
    let module = Module::new(&engine, &out.wasm).expect("wasmtime accepts the output");
    let mut linker: Linker<Host> = Linker::new(&engine);
    linker
        .func_wrap("", "instrument_enter", |mut caller: Caller<'_, Host>, id: i32| {
            let host = caller.data_mut();
            host.clock += 1;
            host.events.push((true, id));
            match host.logs.enter(&host.index, id, Timestamp { secs: host.clock, nanos: 0 }) {
                Ok(call) => host.lines.push(String::from_utf8(trace_line(&call)).unwrap()),
                Err(e) => host.errors.push(e),
            }
        })
        .unwrap();
    linker
        .func_wrap("", "instrument_exit", |mut caller: Caller<'_, Host>, id: i32| {
            let host = caller.data_mut();
            host.clock += 1;
            host.events.push((false, id));
            match host.logs.exit(id, Timestamp { secs: host.clock, nanos: 0 }) {
                Ok(call) => host.lines.push(String::from_utf8(trace_line(&call)).unwrap()),
                Err(e) => host.errors.push(e),
            }
        })
        .unwrap();
    linker
        .func_wrap("env", "call_back", |mut caller: Caller<'_, Host>, a: i32, b: i32| -> i32 {
            let add = caller.get_export("add").unwrap().into_func().unwrap();
            let add = add.typed::<(i32, i32), i32>(&caller).unwrap();
            add.call(&mut caller, (a, b)).unwrap()
        })
        .unwrap();
    let host = Host { logs: FCLogs::new(), index, clock: 0, events: vec![], lines: vec![], errors: vec![] };
    let mut store = Store::new(&engine, host);
    let instance = linker.instantiate(&mut store, &module).expect("instantiates");
    let mut results = vec![];
    for (name, a, b) in calls {
        let f = instance.get_typed_func::<(i32, i32), i32>(&mut store, name).expect("export");
        results.push(f.call(&mut store, (*a, *b)).expect("call"));
    }
    (results, store.into_data())
}

#[test]
fn add_returns_sum_and_traces_two_records() {
    let (results, host) = run_with_hooks(&[("add", 2, 3)]);
    assert_eq!(results, vec![5]);
    assert_eq!(host.lines.len(), 2);
    for line in &host.lines {
        assert!(line.starts_with("{\"index\":0,\"name\":\"add\","));
    }
    assert_eq!(host.events, vec![(true, 0), (false, 0)]);
    assert!(host.errors.is_empty());
}

#[test]
fn results_match_uninstrumented_module() {
    let engine = Engine::default();
    let plain = Module::new(&engine, nested_module()).unwrap();
    let mut store = Store::new(&engine, ());
    let instance = Linker::new(&engine).instantiate(&mut store, &plain).unwrap();
    let inputs = [("add", 2, 3), ("sub", 5, 3), ("add", i32::MAX, 1), ("sub", i32::MIN, 1), ("twice_add", 4, -9)];
    let mut expected = vec![];
    for (name, a, b) in inputs {
        let f = instance.get_typed_func::<(i32, i32), i32>(&mut store, name).unwrap();
        expected.push(f.call(&mut store, (a, b)).unwrap());
    }
    let (results, host) = run_with_hooks(&inputs);
    assert_eq!(results, expected);
    assert_eq!(results[1], 2);
    assert_eq!(host.logs.depth(), 0);
}

#[test]
fn internal_calls_reach_the_wrapped_function() {
    let (results, host) = run_with_hooks(&[("twice_add", 1, 2)]);
    assert_eq!(results, vec![6]);
    // twice_add calls add by index, which still names the unwrapped function.
    assert_eq!(host.events, vec![(true, 2), (false, 2)]);
    assert_eq!(host.logs.depth(), 0);
}

#[test]
fn nested_instrumented_calls_nest_their_hooks() {
    let (results, host) = run_module_with_hooks(&reentrant_module(), &[("outer", 2, 3)]);
    assert_eq!(results, vec![5]);
    assert_eq!(host.events, vec![(true, 2), (true, 1), (false, 1), (false, 2)]);
    assert_eq!(host.lines.len(), 4);
    assert!(host.lines[0].starts_with("{\"index\":2,\"name\":\"outer\","));
    assert!(host.lines[2].starts_with("{\"index\":1,\"name\":\"add\","));
    assert_eq!(host.logs.depth(), 0);
    assert!(host.errors.is_empty());
}

#[test]
fn each_call_fires_one_enter_and_one_exit() {
    let (_, host) = run_with_hooks(&[("add", 1, 1), ("sub", 1, 1), ("add", 0, 0)]);
    assert_eq!(host.events, vec![(true, 0), (false, 0), (true, 1), (false, 1), (true, 0), (false, 0)]);
    assert_eq!(host.lines.len(), 6);
    assert_eq!(host.logs.depth(), 0);
    assert!(host.errors.is_empty());
}

