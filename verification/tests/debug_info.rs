use std::collections::HashMap;

use midenc::debug_info::{
    build_local_debug_info, build_location_schedule, fixed_location_expression, is_supported_location_expression,
    local_index_from_expression, should_fill_debug_attr_location, wasm_stack_value_from_expression, DebugVariable,
    Expression, ExpressionOp, LocalDebugInfo, LocationDescriptor, LocationScheduleEntry, Subprogram, VariableStorage,
};
use midenc::dwarf::DwarfLocalData;

fn expr(ops: Vec<ExpressionOp>) -> Expression {
    Expression::with_ops(ops)
}

fn descriptor(start: u64, end: Option<u64>, ops: Vec<ExpressionOp>) -> LocationDescriptor {
    LocationDescriptor { start, end, storage: expr(ops) }
}

fn variable(name: &str) -> DebugVariable {
    DebugVariable { name: name.to_string(), file: "f.rs".to_string(), line: 1, column: None, arg_index: None, ty: None }
}

fn info(name: &str, locations: Vec<LocationDescriptor>) -> Option<LocalDebugInfo> {
    Some(LocalDebugInfo { attr: variable(name), locations, expression: None })
}

#[test]
fn storage_as_local_and_expression_op() {
    assert_eq!(VariableStorage::Local(3).as_local(), Some(3));
    assert_eq!(VariableStorage::Global(3).as_local(), None);
    assert_eq!(VariableStorage::Stack(2).to_expression_op(), ExpressionOp::WasmStack(2));
    assert_eq!(
        VariableStorage::FrameBase { global_index: 1, byte_offset: -8 }.to_expression_op(),
        ExpressionOp::FrameBase { global_index: 1, byte_offset: -8 }
    );
    assert_eq!(VariableStorage::Unsupported.to_expression_op(), ExpressionOp::Unsupported("unsupported"));
}

#[test]
fn first_local_and_stack_slot_are_found() {
    let e = expr(vec![ExpressionOp::WasmStack(1), ExpressionOp::WasmLocal(7), ExpressionOp::WasmLocal(8)]);
    assert_eq!(local_index_from_expression(&e), Some(7));
    assert_eq!(local_index_from_expression(&expr(vec![ExpressionOp::ConstU64(1)])), None);
    // Slots count from the top of the stack, its last element.
    assert_eq!(wasm_stack_value_from_expression(&e, &[10u32, 20, 30]), Some(20));
    assert_eq!(wasm_stack_value_from_expression(&expr(vec![ExpressionOp::WasmStack(3)]), &[10u32, 20, 30]), None);
}

#[test]
fn supported_locations_need_a_location_and_no_piece() {
    assert!(is_supported_location_expression(&expr(vec![ExpressionOp::WasmLocal(0), ExpressionOp::StackValue])));
    assert!(!is_supported_location_expression(&expr(vec![ExpressionOp::StackValue])));
    assert!(!is_supported_location_expression(&expr(vec![])));
    assert!(!is_supported_location_expression(&expr(vec![ExpressionOp::WasmLocal(0), ExpressionOp::Piece(4)])));
}

#[test]
fn fixed_location_needs_exactly_one_descriptor() {
    let one = vec![descriptor(0, None, vec![ExpressionOp::WasmLocal(2)])];
    assert_eq!(fixed_location_expression(&one), Some(expr(vec![ExpressionOp::WasmLocal(2)])));
    assert_eq!(fixed_location_expression(&[]), None);
    let two = vec![descriptor(0, Some(4), vec![ExpressionOp::WasmLocal(2)]), descriptor(4, None, vec![])];
    assert_eq!(fixed_location_expression(&two), None);
}

#[test]
fn debug_attr_fill_skips_prologue_spans() {
    assert!(should_fill_debug_attr_location(0, None, 12, Some(3)));
    assert!(!should_fill_debug_attr_location(5, None, 12, Some(3)));
    assert!(!should_fill_debug_attr_location(0, Some(1), 12, Some(3)));
    assert!(!should_fill_debug_attr_location(0, None, 0, Some(3)));
    assert!(!should_fill_debug_attr_location(0, None, 1, Some(1)));
    assert!(!should_fill_debug_attr_location(0, None, 1, None));
    assert!(should_fill_debug_attr_location(0, None, 1, Some(2)));
}

#[test]
fn schedule_orders_by_offset_with_ends_first() {
    let locals = vec![
        info("a", vec![descriptor(10, Some(20), vec![ExpressionOp::WasmLocal(0)])]),
        None,
        info(
            "b",
            vec![
                descriptor(0, Some(10), vec![ExpressionOp::ConstU64(1)]),
                descriptor(5, None, vec![ExpressionOp::Piece(8)]),
            ],
        ),
    ];
    let schedule = build_location_schedule(&locals);
    let view: Vec<(u64, usize, bool)> = schedule.iter().map(|e| (e.offset, e.var_index, e.storage.is_some())).collect();
    assert_eq!(view, vec![(0, 2, true), (10, 2, false), (10, 0, true), (20, 0, false)]);
    assert_eq!(
        schedule[2],
        LocationScheduleEntry { offset: 10, var_index: 0, storage: Some(expr(vec![ExpressionOp::WasmLocal(0)])) }
    );
}

#[test]
fn schedule_keeps_original_order_for_equal_keys() {
    let locals = vec![
        info("a", vec![descriptor(4, None, vec![ExpressionOp::WasmLocal(0)])]),
        info("b", vec![descriptor(4, None, vec![ExpressionOp::WasmLocal(1)])]),
    ];
    let schedule = build_location_schedule(&locals);
    assert_eq!(schedule.iter().map(|e| e.var_index).collect::<Vec<_>>(), vec![0, 1]);
}

fn subprogram() -> Subprogram {
    Subprogram { name: "f".to_string(), file: "src/f.rs".to_string(), line: 7, column: Some(2), is_definition: true }
}

fn dwarf(name: Option<&str>, line: Option<u32>, column: Option<u32>, locations: Vec<LocationDescriptor>) -> DwarfLocalData {
    DwarfLocalData {
        name: name.map(str::to_string),
        decl_file: None,
        locations,
        decl_line: line,
        decl_column: column,
    }
}

#[test]
fn locals_without_dwarf_are_named_by_position() {
    let names = HashMap::new();
    let locals = build_local_debug_info(&[ty("i32"), ty("i64")], &[(1, ty("felt")), (2, None)], &names, &subprogram(), None, None);
    assert_eq!(locals.len(), 5);
    let attr = &locals[1].as_ref().unwrap().attr;
    assert_eq!(attr.name, "arg1");
    assert_eq!(attr.arg_index, Some(1));
    assert_eq!((attr.file.as_str(), attr.line, attr.column), ("src/f.rs", 7, Some(2)));
    let local = &locals[4].as_ref().unwrap().attr;
    assert_eq!(local.name, "local4");
    assert_eq!(local.arg_index, None);
    // Each local takes the type of the declaration it comes from.
    assert_eq!(locals[0].as_ref().unwrap().attr.ty, ty("i32"));
    assert_eq!(attr.ty, ty("i64"));
    assert_eq!(locals[2].as_ref().unwrap().attr.ty, ty("felt"));
    assert_eq!(locals[3].as_ref().unwrap().attr.ty, None);
    assert_eq!(local.ty, None);
}

fn ty(name: &str) -> Option<String> {
    Some(name.to_string())
}

#[test]
fn dwarf_refines_names_and_lines() {
    let mut names = HashMap::new();
    names.insert(0u32, "from_names".to_string());
    names.insert(3u32, "named_local".to_string());
    let mut dwarf_locals = HashMap::new();
    dwarf_locals.insert(
        0u32,
        dwarf(Some("x"), Some(0), Some(4), vec![descriptor(0, None, vec![ExpressionOp::WasmLocal(0)])]),
    );
    dwarf_locals.insert(2u32, dwarf(None, Some(30), None, vec![]));
    let locals = build_local_debug_info(&[ty("i32")], &[(3, ty("i32"))], &names, &subprogram(), Some(&dwarf_locals), None);
    assert_eq!(locals.len(), 4);
    let p = locals[0].as_ref().unwrap();
    assert_eq!(p.attr.name, "x");
    // A zero declaration line keeps the subprogram's line; a known column replaces it.
    assert_eq!((p.attr.line, p.attr.column), (7, Some(4)));
    assert_eq!(p.expression, Some(expr(vec![ExpressionOp::WasmLocal(0)])));
    // With DWARF variables, a local known to neither DWARF nor the name section is skipped.
    assert!(locals[1].is_none());
    let l2 = locals[2].as_ref().unwrap();
    assert_eq!((l2.attr.name.as_str(), l2.attr.line), ("local2", 30));
    assert_eq!(l2.expression, None);
    assert_eq!(locals[3].as_ref().unwrap().attr.name, "named_local");
    assert_eq!(l2.attr.ty, ty("i32"));
}

#[test]
fn scheduled_variables_follow_the_locals() {
    let names = HashMap::new();
    let scheduled = vec![
        dwarf(None, None, None, vec![descriptor(0, Some(4), vec![ExpressionOp::ConstU64(1)])]),
        dwarf(Some("s"), Some(9), Some(5), vec![]),
    ];
    let locals = build_local_debug_info(&[None], &[], &names, &subprogram(), None, Some(&scheduled));
    assert_eq!(locals.len(), 3);
    let first = locals[1].as_ref().unwrap();
    assert_eq!(first.attr.name, "?");
    // A scheduled variable takes its own column, even an unknown one.
    assert_eq!((first.attr.line, first.attr.column), (7, None));
    assert_eq!(first.expression, Some(expr(vec![ExpressionOp::ConstU64(1)])));
    let second = locals[2].as_ref().unwrap();
    assert_eq!((second.attr.name.as_str(), second.attr.line, second.attr.column), ("s", 9, Some(5)));
    assert_eq!(second.attr.ty, None);
}
