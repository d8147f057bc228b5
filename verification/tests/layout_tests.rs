use multi_value_gen::instr::{build_trampoline_body, load_value, Instr};
use multi_value_gen::layout::{calculate_layout, calculate_size};
use multi_value_gen::types::ValueType;

#[test]
fn size_i64_i32_f64_is_24() {
    let tys = vec![ValueType::I64, ValueType::I32, ValueType::F64];
    assert_eq!(calculate_size(&tys), 24);
}

#[test]
fn offsets_i64_i32_f64() {
    let tys = vec![ValueType::I64, ValueType::I32, ValueType::F64];
    let (size, offsets) = calculate_layout(&tys);
    assert_eq!(size, 24);
    assert_eq!(offsets, vec![0, 8, 16]);
}

#[test]
fn offsets_i32_i32_no_padding() {
    let tys = vec![ValueType::I32, ValueType::I32];
    let (size, offsets) = calculate_layout(&tys);
    assert_eq!(size, 8);
    assert_eq!(offsets, vec![0, 4]);
}

#[test]
fn empty_layout_is_zero() {
    let tys: Vec<ValueType> = vec![];
    let (size, offsets) = calculate_layout(&tys);
    assert_eq!(size, 0);
    assert!(offsets.is_empty());
}

#[test]
fn f32_then_i64_pads_to_eight() {
    let tys = vec![ValueType::F32, ValueType::I64];
    let (size, offsets) = calculate_layout(&tys);
    assert_eq!(size, 16);
    assert_eq!(offsets, vec![0, 8]);
}

#[test]
fn vector_pads_to_sixteen() {
    let tys = vec![ValueType::I32, ValueType::V128];
    let (size, offsets) = calculate_layout(&tys);
    assert_eq!(size, 32);
    assert_eq!(offsets, vec![0, 16]);
}

#[test]
fn load_value_advances_cursor_with_alignment() {
    let mut body: Vec<Instr> = Vec::new();
    let mut offset: u32 = 0;
    load_value(&mut body, ValueType::I64, &mut offset);
    assert_eq!(offset, 8);
    load_value(&mut body, ValueType::I32, &mut offset);
    assert_eq!(offset, 12);
    load_value(&mut body, ValueType::F64, &mut offset);
    assert_eq!(offset, 24);
    assert_eq!(
        body,
        vec![
            Instr::LocalGetScratch,
            Instr::Load(ValueType::I64, 0),
            Instr::LocalGetScratch,
            Instr::Load(ValueType::I32, 8),
            Instr::LocalGetScratch,
            Instr::Load(ValueType::F64, 16),
        ]
    );
}

#[test]
fn trailing_return_pointer_is_reinserted_at_its_position() {
    // A wrapped function with three parameters whose return pointer was the
    // trailing one: the scratch pointer must be pushed last.
    let body = build_trampoline_body(2, 2, &[ValueType::I32]);
    // prologue is five instructions; then the three argument pushes
    assert_eq!(body[5], Instr::LocalGetParam(0));
    assert_eq!(body[6], Instr::LocalGetParam(1));
    assert_eq!(body[7], Instr::LocalGetScratch);
    assert_eq!(body[8], Instr::CallTarget);
}

#[test]
fn leading_return_pointer_is_reinserted_first() {
    let body = build_trampoline_body(2, 0, &[ValueType::I32]);
    assert_eq!(body[5], Instr::LocalGetScratch);
    assert_eq!(body[6], Instr::LocalGetParam(0));
    assert_eq!(body[7], Instr::LocalGetParam(1));
    assert_eq!(body[8], Instr::CallTarget);
}

#[test]
fn trampoline_body_shape_single_result() {
    let body = build_trampoline_body(0, 0, &[ValueType::I32]);
    assert_eq!(
        body,
        vec![
            Instr::GlobalGetSp,
            Instr::I32Const(4),
            Instr::I32Sub,
            Instr::LocalTeeScratch,
            Instr::GlobalSetSp,
            Instr::LocalGetScratch,
            Instr::CallTarget,
            Instr::LocalGetScratch,
            Instr::Load(ValueType::I32, 0),
            Instr::LocalGetScratch,
            Instr::I32Const(4),
            Instr::I32Add,
            Instr::GlobalSetSp,
        ]
    );
}
