use multi_value_gen::parse;
use multi_value_gen::types::{Error, ValueType};

/// A module with one memory, a tagged mutable i32 stack-pointer global, an
/// exported function `f(ptr: i32)` that writes 42 through its return
/// pointer, and an unrelated exported function `g`.
fn build_test_module() -> Vec<u8> {
    let mut m = walrus::Module::default();
    let mem = m.memories.add_local(false, false, 1, None, None);
    let sp = m.globals.add_local(
        walrus::ValType::I32,
        true,
        false,
        walrus::ConstExpr::Value(walrus::ir::Value::I32(1024)),
    );
    m.globals.get_mut(sp).name = Some("__stack_pointer".to_string());

    let mut fb = walrus::FunctionBuilder::new(&mut m.types, &[walrus::ValType::I32], &[]);
    let p = m.locals.add(walrus::ValType::I32);
    fb.func_body().local_get(p).i32_const(42).store(
        mem,
        walrus::ir::StoreKind::I32 { atomic: false },
        walrus::ir::MemArg { align: 4, offset: 0 },
    );
    let f = fb.finish(vec![p], &mut m.funcs);
    m.funcs.get_mut(f).name = Some("f".to_string());
    m.exports.add("f", f);

    let mut gb = walrus::FunctionBuilder::new(&mut m.types, &[], &[]);
    gb.func_body().i32_const(7).drop();
    let g = gb.finish(vec![], &mut m.funcs);
    m.exports.add("g", g);

    m.emit_wasm()
}

fn exported_function_type(m: &walrus::Module, name: &str) -> (Vec<walrus::ValType>, Vec<walrus::ValType>) {
    let e = m.exports.iter().find(|e| e.name == name).unwrap();
    let fid = match e.item {
        walrus::ExportItem::Function(f) => f,
        _ => panic!("export {} is not a function", name),
    };
    let (params, results) = m.types.params_results(m.funcs.get(fid).ty());
    (params.to_vec(), results.to_vec())
}

#[test]
fn converts_single_i32_result() {
    let wasm = build_test_module();
    let funcs = vec![(b"f".to_vec(), vec![ValueType::I32])];
    let out = parse(wasm, funcs).unwrap();
    let m = walrus::Module::from_buffer(&out).unwrap();
    let (params, results) = exported_function_type(&m, "f");
    assert!(params.is_empty());
    assert_eq!(results, vec![walrus::ValType::I32]);
}

#[test]
fn other_exports_are_untouched() {
    let wasm = build_test_module();
    let before = walrus::Module::from_buffer(&wasm).unwrap();
    let (gp_before, gr_before) = exported_function_type(&before, "g");

    let out = parse(wasm, vec![(b"f".to_vec(), vec![ValueType::I32])]).unwrap();
    let after = walrus::Module::from_buffer(&out).unwrap();
    assert_eq!(after.exports.iter().count(), 2);
    let (gp_after, gr_after) = exported_function_type(&after, "g");
    assert_eq!(gp_before, gp_after);
    assert_eq!(gr_before, gr_after);
}

#[test]
fn original_function_stays_in_module() {
    let wasm = build_test_module();
    let before = walrus::Module::from_buffer(&wasm).unwrap();
    let n_before = before.funcs.iter().count();
    let out = parse(wasm, vec![(b"f".to_vec(), vec![ValueType::I32])]).unwrap();
    let after = walrus::Module::from_buffer(&out).unwrap();
    // the original is unexported but still present, plus the trampoline
    assert_eq!(after.funcs.iter().count(), n_before + 1);
    assert!(after
        .funcs
        .iter()
        .any(|f| f.name.as_deref() == Some("f_wrapper")));
}

#[test]
fn every_alias_export_is_rebound() {
    // one function exported under two names: requesting one name must
    // repoint both entries at the trampoline (spec: each matching entry)
    let mut m = walrus::Module::default();
    m.memories.add_local(false, false, 1, None, None);
    let sp = m.globals.add_local(
        walrus::ValType::I32,
        true,
        false,
        walrus::ConstExpr::Value(walrus::ir::Value::I32(1024)),
    );
    m.globals.get_mut(sp).name = Some("__stack_pointer".to_string());
    let mut fb = walrus::FunctionBuilder::new(&mut m.types, &[walrus::ValType::I32], &[]);
    let p = m.locals.add(walrus::ValType::I32);
    fb.func_body().local_get(p).drop();
    let f = fb.finish(vec![p], &mut m.funcs);
    m.exports.add("f", f);
    m.exports.add("f_alias", f);
    let wasm = m.emit_wasm();
    let out = parse(wasm, vec![(b"f".to_vec(), vec![ValueType::I32])]).unwrap();
    let after = walrus::Module::from_buffer(&out).unwrap();
    let (p1, r1) = exported_function_type(&after, "f");
    let (p2, r2) = exported_function_type(&after, "f_alias");
    assert!(p1.is_empty() && p2.is_empty());
    assert_eq!(r1, vec![walrus::ValType::I32]);
    assert_eq!(r2, vec![walrus::ValType::I32]);
}

#[test]
fn empty_request_set_is_rejected() {
    let wasm = build_test_module();
    assert_eq!(parse(wasm, vec![]), Err(Error::NoFunctionsRequested));
}

#[test]
fn module_without_memory_is_rejected_first() {
    let mut m = walrus::Module::default();
    // even a perfectly requestable function does not get as far as a check:
    let mut fb = walrus::FunctionBuilder::new(&mut m.types, &[walrus::ValType::I32], &[]);
    let p = m.locals.add(walrus::ValType::I32);
    fb.func_body().local_get(p).drop();
    let f = fb.finish(vec![p], &mut m.funcs);
    m.exports.add("f", f);
    let wasm = m.emit_wasm();
    let r = parse(wasm, vec![(b"f".to_vec(), vec![ValueType::I32])]);
    assert_eq!(r, Err(Error::NoMemory));
}

#[test]
fn module_without_stack_pointer_is_rejected() {
    let mut m = walrus::Module::default();
    m.memories.add_local(false, false, 1, None, None);
    let wasm = m.emit_wasm();
    let r = parse(wasm, vec![(b"f".to_vec(), vec![ValueType::I32])]);
    assert_eq!(r, Err(Error::NoStackPointer));
}

#[test]
fn untagged_index_zero_mutable_i32_global_is_accepted_as_stack_pointer() {
    // the documented (and deliberately kept) detection heuristic
    let mut m = walrus::Module::default();
    m.memories.add_local(false, false, 1, None, None);
    m.globals.add_local(
        walrus::ValType::I32,
        true,
        false,
        walrus::ConstExpr::Value(walrus::ir::Value::I32(0)),
    );
    let wasm = m.emit_wasm();
    // validation proceeds past the stack pointer and fails on the export
    let r = parse(wasm, vec![(b"missing".to_vec(), vec![ValueType::I32])]);
    assert_eq!(r, Err(Error::ExportNotFound));
}

#[test]
fn mistyped_tagged_stack_pointer_is_rejected() {
    let mut m = walrus::Module::default();
    m.memories.add_local(false, false, 1, None, None);
    let sp = m.globals.add_local(
        walrus::ValType::I64,
        true,
        false,
        walrus::ConstExpr::Value(walrus::ir::Value::I64(0)),
    );
    m.globals.get_mut(sp).name = Some("__stack_pointer".to_string());
    let wasm = m.emit_wasm();
    let r = parse(wasm, vec![(b"f".to_vec(), vec![ValueType::I32])]);
    assert_eq!(r, Err(Error::InvalidStackPointerType));
}

#[test]
fn function_with_results_is_rejected() {
    let mut m = walrus::Module::default();
    m.memories.add_local(false, false, 1, None, None);
    let sp = m.globals.add_local(
        walrus::ValType::I32,
        true,
        false,
        walrus::ConstExpr::Value(walrus::ir::Value::I32(0)),
    );
    m.globals.get_mut(sp).name = Some("__stack_pointer".to_string());
    let mut fb = walrus::FunctionBuilder::new(
        &mut m.types,
        &[walrus::ValType::I32],
        &[walrus::ValType::I32],
    );
    let p = m.locals.add(walrus::ValType::I32);
    fb.func_body().local_get(p);
    let f = fb.finish(vec![p], &mut m.funcs);
    m.exports.add("f", f);
    let wasm = m.emit_wasm();
    let r = parse(wasm, vec![(b"f".to_vec(), vec![ValueType::I32])]);
    assert_eq!(r, Err(Error::AlreadyHasResults));
}

#[test]
fn function_without_parameters_misses_return_pointer() {
    let mut m = walrus::Module::default();
    m.memories.add_local(false, false, 1, None, None);
    let sp = m.globals.add_local(
        walrus::ValType::I32,
        true,
        false,
        walrus::ConstExpr::Value(walrus::ir::Value::I32(0)),
    );
    m.globals.get_mut(sp).name = Some("__stack_pointer".to_string());
    let mut fb = walrus::FunctionBuilder::new(&mut m.types, &[], &[]);
    fb.func_body().i32_const(1).drop();
    let f = fb.finish(vec![], &mut m.funcs);
    m.exports.add("f", f);
    let wasm = m.emit_wasm();
    let r = parse(wasm, vec![(b"f".to_vec(), vec![ValueType::I32])]);
    assert_eq!(r, Err(Error::MissingReturnPointer));
}

#[test]
fn wrong_return_pointer_type_is_rejected() {
    let mut m = walrus::Module::default();
    m.memories.add_local(false, false, 1, None, None);
    let sp = m.globals.add_local(
        walrus::ValType::I32,
        true,
        false,
        walrus::ConstExpr::Value(walrus::ir::Value::I32(0)),
    );
    m.globals.get_mut(sp).name = Some("__stack_pointer".to_string());
    let mut fb = walrus::FunctionBuilder::new(&mut m.types, &[walrus::ValType::F64], &[]);
    let p = m.locals.add(walrus::ValType::F64);
    fb.func_body().local_get(p).drop();
    let f = fb.finish(vec![p], &mut m.funcs);
    m.exports.add("f", f);
    let wasm = m.emit_wasm();
    let r = parse(wasm, vec![(b"f".to_vec(), vec![ValueType::I32])]);
    assert_eq!(r, Err(Error::WrongReturnPointerType));
}

#[test]
fn unsupported_requested_type_is_rejected() {
    let wasm = build_test_module();
    let r = parse(wasm, vec![(b"f".to_vec(), vec![ValueType::V128])]);
    assert_eq!(r, Err(Error::UnsupportedType));
}

#[test]
fn undecodable_bytes_are_a_codec_error() {
    let r = parse(
        vec![1, 2, 3, 4],
        vec![(b"f".to_vec(), vec![ValueType::I32])],
    );
    assert_eq!(r, Err(Error::Codec));
}

#[test]
fn converts_three_results_with_padding() {
    // f(ptr) writing an i64, an i32 and an f64 aggregate: the converted
    // export must carry exactly those native results in request order
    let mut m = walrus::Module::default();
    let mem = m.memories.add_local(false, false, 1, None, None);
    let sp = m.globals.add_local(
        walrus::ValType::I32,
        true,
        false,
        walrus::ConstExpr::Value(walrus::ir::Value::I32(1024)),
    );
    m.globals.get_mut(sp).name = Some("__stack_pointer".to_string());
    let mut fb = walrus::FunctionBuilder::new(&mut m.types, &[walrus::ValType::I32], &[]);
    let p = m.locals.add(walrus::ValType::I32);
    fb.func_body().local_get(p).i64_const(1).store(
        mem,
        walrus::ir::StoreKind::I64 { atomic: false },
        walrus::ir::MemArg { align: 8, offset: 0 },
    );
    let f = fb.finish(vec![p], &mut m.funcs);
    m.exports.add("f", f);
    let wasm = m.emit_wasm();
    let out = parse(
        wasm,
        vec![(
            b"f".to_vec(),
            vec![ValueType::I64, ValueType::I32, ValueType::F64],
        )],
    )
    .unwrap();
    let m2 = walrus::Module::from_buffer(&out).unwrap();
    let (params, results) = exported_function_type(&m2, "f");
    assert!(params.is_empty());
    assert_eq!(
        results,
        vec![walrus::ValType::I64, walrus::ValType::I32, walrus::ValType::F64]
    );
}
