use wasm_observe::model::{ExportEntry, ExportTarget, FunctionDescriptor, ModuleModel, ValueType};
use wasm_observe::rewrite::instrument_model;
use wasm_observe::runtime::FunctionNameIndex;
use wasm_observe::shim::{shim_body, Instr};
use wasm_observe::wasm::{instrument, name_index, read_module, InstrumentError};

const HEADER: [u8; 8] = [0x00, 0x61, 0x73, 0x6d, 0x01, 0x00, 0x00, 0x00];

/// `add(i32, i32) -> i32` and `sub(i32, i32) -> i32`, exported and named.
fn add_sub_module() -> Vec<u8> {
    let mut m = HEADER.to_vec();
    m.extend_from_slice(&[0x01, 0x07, 0x01, 0x60, 0x02, 0x7f, 0x7f, 0x01, 0x7f]);
    m.extend_from_slice(&[0x03, 0x03, 0x02, 0x00, 0x00]);
    m.extend_from_slice(&[
        0x07, 0x0d, 0x02, 0x03, b'a', b'd', b'd', 0x00, 0x00, 0x03, b's', b'u', b'b', 0x00, 0x01,
    ]);
    m.extend_from_slice(&[
        0x0a, 0x11, 0x02, 0x07, 0x00, 0x20, 0x00, 0x20, 0x01, 0x6a, 0x0b, 0x07, 0x00, 0x20, 0x00,
        0x20, 0x01, 0x6b, 0x0b,
    ]);
    m.extend_from_slice(&[
        0x00, 0x12, 0x04, b'n', b'a', b'm', b'e', 0x01, 0x0b, 0x02, 0x00, 0x03, b'a', b'd', b'd',
        0x01, 0x03, b's', b'u', b'b',
    ]);
    m
}

/// `add`, `sub` and `mul`, all exported; only `add` and `sub` are named.
fn add_sub_unnamed_mul_module() -> Vec<u8> {
    let mut m = HEADER.to_vec();
    m.extend_from_slice(&[0x01, 0x07, 0x01, 0x60, 0x02, 0x7f, 0x7f, 0x01, 0x7f]);
    m.extend_from_slice(&[0x03, 0x04, 0x03, 0x00, 0x00, 0x00]);
    m.extend_from_slice(&[
        0x07, 0x13, 0x03, 0x03, b'a', b'd', b'd', 0x00, 0x00, 0x03, b's', b'u', b'b', 0x00, 0x01,
        0x03, b'm', b'u', b'l', 0x00, 0x02,
    ]);
    m.extend_from_slice(&[
        0x0a, 0x19, 0x03, 0x07, 0x00, 0x20, 0x00, 0x20, 0x01, 0x6a, 0x0b, 0x07, 0x00, 0x20, 0x00,
        0x20, 0x01, 0x6b, 0x0b, 0x07, 0x00, 0x20, 0x00, 0x20, 0x01, 0x6c, 0x0b,
    ]);
    m.extend_from_slice(&[
        0x00, 0x12, 0x04, b'n', b'a', b'm', b'e', 0x01, 0x0b, 0x02, 0x00, 0x03, b'a', b'd', b'd',
        0x01, 0x03, b's', b'u', b'b',
    ]);
    m
}

/// One named function `id(i32) -> i32`, not exported.
fn no_export_module() -> Vec<u8> {
    let mut m = HEADER.to_vec();
    m.extend_from_slice(&[0x01, 0x06, 0x01, 0x60, 0x01, 0x7f, 0x01, 0x7f]);
    m.extend_from_slice(&[0x03, 0x02, 0x01, 0x00]);
    m.extend_from_slice(&[0x0a, 0x06, 0x01, 0x04, 0x00, 0x20, 0x00, 0x0b]);
    m.extend_from_slice(&[
        0x00, 0x0d, 0x04, b'n', b'a', b'm', b'e', 0x01, 0x06, 0x01, 0x00, 0x03, b'i', b'd', b'x',
    ]);
    m
}

fn i32x2_to_i32(id: u32, name: Option<&str>) -> FunctionDescriptor {
    FunctionDescriptor {
        id,
        name: name.map(|s| s.to_string()),
        params: vec![ValueType::I32, ValueType::I32],
        results: vec![ValueType::I32],
    }
}

fn export_names(m: &ModuleModel) -> Vec<String> {
    m.exports.iter().map(|e| e.name.clone()).collect()
}

fn exported_signature(m: &ModuleModel, name: &str) -> (Vec<ValueType>, Vec<ValueType>) {
    let e = m.exports.iter().find(|e| e.name == name).expect("export present");
    match e.target {
        ExportTarget::Function(f) => {
            let fd = &m.functions[f as usize];
            (fd.params.clone(), fd.results.clone())
        }
        ExportTarget::Other => panic!("not a function export"),
    }
}

#[test]
fn shim_body_follows_template() {
    let body = shim_body(0, 2, 3, 2, 1);
    assert_eq!(
        body,
        vec![
            Instr::I32Const(0),
            Instr::Call(2),
            Instr::LocalGet(0),
            Instr::LocalGet(1),
            Instr::Call(0),
            Instr::LocalSet(2),
            Instr::I32Const(0),
            Instr::Call(3),
            Instr::LocalGet(2),
        ]
    );
}

#[test]
fn shim_body_sets_results_last_first() {
    let body = shim_body(5, 7, 8, 1, 3);
    assert_eq!(
        body,
        vec![
            Instr::I32Const(5),
            Instr::Call(7),
            Instr::LocalGet(0),
            Instr::Call(5),
            Instr::LocalSet(3),
            Instr::LocalSet(2),
            Instr::LocalSet(1),
            Instr::I32Const(5),
            Instr::Call(8),
            Instr::LocalGet(1),
            Instr::LocalGet(2),
            Instr::LocalGet(3),
        ]
    );
}

#[test]
fn model_rewrite_wraps_named_exports() {
    let m = ModuleModel {
        functions: vec![i32x2_to_i32(0, Some("add")), i32x2_to_i32(1, Some("sub"))],
        exports: vec![
            ExportEntry { name: "add".to_string(), target: ExportTarget::Function(0) },
            ExportEntry { name: "memory".to_string(), target: ExportTarget::Other },
            ExportEntry { name: "sub".to_string(), target: ExportTarget::Function(1) },
        ],
    };
    assert!(m.check_well_formed());
    let r = instrument_model(&m);
    assert_eq!(r.enter, 2);
    assert_eq!(r.exit, 3);
    assert_eq!(r.shims.len(), 2);
    assert_eq!(r.shims[0].wrapped, 0);
    assert_eq!(r.shims[1].wrapped, 1);
    assert_eq!(r.shims[1].body, shim_body(1, 2, 3, 2, 1));
    assert_eq!(r.model.functions.len(), 6);
    assert_eq!(r.model.functions[2].params, vec![ValueType::I32]);
    assert!(r.model.functions[2].results.is_empty());
    assert_eq!(export_names(&r.model), vec!["memory", "add", "sub"]);
    assert_eq!(r.model.exports[1].target, ExportTarget::Function(4));
    assert_eq!(r.model.exports[2].target, ExportTarget::Function(5));
    assert_eq!(exported_signature(&r.model, "add"), (vec![ValueType::I32, ValueType::I32], vec![ValueType::I32]));
}

#[test]
fn model_rewrite_leaves_unnamed_exports() {
    let m = ModuleModel {
        functions: vec![i32x2_to_i32(0, Some("add")), i32x2_to_i32(1, None)],
        exports: vec![
            ExportEntry { name: "add".to_string(), target: ExportTarget::Function(0) },
            ExportEntry { name: "anon".to_string(), target: ExportTarget::Function(1) },
        ],
    };
    let r = instrument_model(&m);
    assert_eq!(r.shims.len(), 1);
    assert_eq!(r.shims[0].wrapped, 0);
    assert_eq!(export_names(&r.model), vec!["anon", "add"]);
    assert_eq!(r.model.exports[0].target, ExportTarget::Function(1));
    assert_eq!(r.model.exports[1].target, ExportTarget::Function(4));
}

#[test]
fn ill_formed_models_are_detected() {
    let bad_id = ModuleModel { functions: vec![i32x2_to_i32(1, Some("f"))], exports: vec![] };
    assert!(!bad_id.check_well_formed());
    let bad_export = ModuleModel {
        functions: vec![i32x2_to_i32(0, Some("f"))],
        exports: vec![ExportEntry { name: "g".to_string(), target: ExportTarget::Function(1) }],
    };
    assert!(!bad_export.check_well_formed());
}

#[test]
fn read_module_sees_functions_and_exports() {
    let m = read_module(&add_sub_module()).expect("module parses");
    assert_eq!(m.functions.len(), 2);
    assert_eq!(m.functions[0].name.as_deref(), Some("add"));
    assert_eq!(m.functions[1].name.as_deref(), Some("sub"));
    assert_eq!(m.functions[1].params, vec![ValueType::I32, ValueType::I32]);
    assert_eq!(m.functions[1].results, vec![ValueType::I32]);
    assert_eq!(export_names(&m), vec!["add", "sub"]);
    assert_eq!(m.exports[1].target, ExportTarget::Function(1));
}

#[test]
fn malformed_bytes_are_rejected() {
    assert_eq!(read_module(&[1, 2, 3]).err(), Some(InstrumentError::Malformed));
    assert_eq!(instrument(&[0x00, 0x61, 0x73]).err(), Some(InstrumentError::Malformed));
    assert!(name_index(&[]).is_err());
}

#[test]
fn instrumented_module_keeps_export_signatures() {
    let src = add_sub_module();
    let out = instrument(&src).expect("instruments");
    let before = read_module(&src).unwrap();
    let after = read_module(&out.wasm).expect("output parses");
    for name in ["add", "sub"] {
        assert_eq!(exported_signature(&before, name), exported_signature(&after, name));
    }
    assert_eq!(after.functions.len(), 6);
    assert_eq!(out.result.shims.len(), 2);
    assert_eq!(out.result.shims[0].body, shim_body(0, 2, 3, 2, 1));
}

#[test]
fn instrumented_module_imports_both_hooks() {
    let out = instrument(&add_sub_module()).unwrap();
    let module = walrus::Module::from_buffer(&out.wasm).unwrap();
    let imports: Vec<(String, String)> =
        module.imports.iter().map(|i| (i.module.clone(), i.name.clone())).collect();
    assert_eq!(
        imports,
        vec![
            (String::new(), "instrument_enter".to_string()),
            (String::new(), "instrument_exit".to_string())
        ]
    );
}

#[test]
fn module_without_exports_only_gains_imports() {
    let src = no_export_module();
    let out = instrument(&src).unwrap();
    assert!(out.result.shims.is_empty());
    let after = read_module(&out.wasm).unwrap();
    assert!(after.exports.is_empty());
    assert_eq!(after.functions.len(), 3);
    let module = walrus::Module::from_buffer(&out.wasm).unwrap();
    assert_eq!(module.imports.iter().count(), 2);
    assert_eq!(module.funcs.iter_local().count(), 1);
}

#[test]
fn unnamed_function_gets_no_wrapper() {
    let src = add_sub_unnamed_mul_module();
    let out = instrument(&src).unwrap();
    let wrapped: Vec<u32> = out.result.shims.iter().map(|s| s.wrapped).collect();
    assert_eq!(wrapped, vec![0, 1]);
    let index = name_index(&src).unwrap();
    assert_eq!(index.lookup(0).as_deref(), Some("add"));
    assert_eq!(index.lookup(1).as_deref(), Some("sub"));
    assert_eq!(index.lookup(2), None);
    for shim in &out.result.shims {
        for instr in &shim.body {
            assert_ne!(*instr, Instr::I32Const(2));
        }
    }
    let after = read_module(&out.wasm).unwrap();
    assert_eq!(export_names(&after).len(), 3);
}

#[test]
fn name_index_from_model() {
    let m = ModuleModel {
        functions: vec![i32x2_to_i32(0, None), i32x2_to_i32(1, Some("f"))],
        exports: vec![],
    };
    let index = FunctionNameIndex::from_model(&m);
    assert_eq!(index.lookup(0), None);
    assert_eq!(index.lookup(1).as_deref(), Some("f"));
    assert_eq!(index.lookup(-1), None);
    assert_eq!(index.lookup(2), None);
}

#[test]
fn empty_model_gains_only_the_hooks() {
    let m = ModuleModel { functions: vec![], exports: vec![] };
    let r = instrument_model(&m);
    assert_eq!(r.enter, 0);
    assert_eq!(r.exit, 1);
    assert!(r.shims.is_empty());
    assert_eq!(r.model.functions.len(), 2);
    assert_eq!(r.model.functions[1].id, 1);
    assert!(r.model.exports.is_empty());
}

#[test]
fn function_exported_twice_gets_two_shims() {
    let m = ModuleModel {
        functions: vec![i32x2_to_i32(0, Some("add"))],
        exports: vec![
            ExportEntry { name: "add".to_string(), target: ExportTarget::Function(0) },
            ExportEntry { name: "plus".to_string(), target: ExportTarget::Function(0) },
        ],
    };
    let r = instrument_model(&m);
    assert_eq!(r.shims.len(), 2);
    assert_eq!(r.shims[0].body, r.shims[1].body);
    assert_eq!(export_names(&r.model), vec!["add", "plus"]);
    assert_eq!(r.model.exports[0].target, ExportTarget::Function(3));
    assert_eq!(r.model.exports[1].target, ExportTarget::Function(4));
}
