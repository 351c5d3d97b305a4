use std::collections::HashMap;

use midenc::debug_info::{DebugVariable, Expression, ExpressionOp, LocalDebugInfo, LocationDescriptor, LocationScheduleEntry};
use midenc::debug_tracking::{
    build_function_debug_info, emit_dbg_value_for_var, emit_debug_values_for_wasm_local, emit_scheduled_dbg_value,
    ActiveLocalVars, DebugAction, FunctionDebugInfo, SourceLocation,
};
use midenc::dwarf::DwarfLocalData;

fn expr(ops: Vec<ExpressionOp>) -> Expression {
    Expression::with_ops(ops)
}

fn entry(offset: u64, var_index: usize, storage: Option<Vec<ExpressionOp>>) -> LocationScheduleEntry {
    LocationScheduleEntry { offset, var_index, storage: storage.map(expr) }
}

fn local(name: &str, line: u32, locations: Vec<LocationDescriptor>) -> Option<LocalDebugInfo> {
    Some(LocalDebugInfo {
        attr: DebugVariable { name: name.to_string(), file: "src/a.rs".to_string(), line, column: None, arg_index: None, ty: None },
        locations,
        expression: None,
    })
}

fn function(locals: Vec<Option<LocalDebugInfo>>, schedule: Vec<LocationScheduleEntry>) -> FunctionDebugInfo {
    let mut info = build_function_debug_info("f", "src/a.rs".to_string(), None, 3, None, &[], &[], &HashMap::new(), None, None);
    info.locals = locals;
    info.location_schedule = schedule;
    info
}

#[test]
fn due_events_are_taken_in_order_once() {
    let mut info = function(
        vec![],
        vec![entry(0, 0, Some(vec![])), entry(4, 1, None), entry(4, 2, None), entry(10, 0, None)],
    );
    assert_eq!(info.take_due_location_events(4).iter().map(|e| e.var_index).collect::<Vec<_>>(), vec![0, 1, 2]);
    assert_eq!(info.next_location_event, 3);
    assert!(info.take_due_location_events(5).is_empty());
    assert_eq!(info.take_due_location_events(20).len(), 1);
    assert_eq!(info.next_location_event, 4);
    assert!(info.take_due_location_events(30).is_empty());
}

#[test]
fn no_events_are_taken_past_the_end_of_the_schedule() {
    let mut info = function(vec![], vec![entry(0, 0, None)]);
    info.next_location_event = 7;
    assert!(info.take_due_location_events(100).is_empty());
    assert_eq!(info.next_location_event, 7);
}

#[test]
fn a_variable_lives_in_one_local_at_a_time() {
    let mut active = ActiveLocalVars::new();
    active.set(1, 0);
    active.set(1, 2);
    active.set(3, 0);
    assert_eq!(active.get(1), vec![2]);
    assert_eq!(active.get(3), vec![0]);
    active.set(3, 0);
    assert_eq!(active.get(3), vec![0]);
    active.remove(2);
    assert!(active.get(1).is_empty());
    assert_eq!(active.get(3), vec![0]);
}

fn kind(action: &Option<DebugAction<u32>>) -> &'static str {
    match action {
        None => "none",
        Some(DebugAction::Value { .. }) => "value",
        Some(DebugAction::Declare { .. }) => "declare",
        Some(DebugAction::Kill { .. }) => "kill",
    }
}

#[test]
fn scheduled_changes_decide_their_operation() {
    let info = function(vec![local("x", 0, vec![]), None], vec![]);
    let mut active = ActiveLocalVars::new();
    let at = Some(SourceLocation { file: "src/b.rs".to_string(), line: 8, column: Some(2) });
    let stack = [10u32, 20, 30];

    let declared = emit_scheduled_dbg_value(&info, &mut active, entry(0, 0, Some(vec![ExpressionOp::WasmLocal(5)])), &at, &stack);
    match &declared {
        Some(DebugAction::Declare { attr, expression }) => {
            assert_eq!((attr.file.as_str(), attr.line, attr.column), ("src/b.rs", 8, Some(2)));
            assert_eq!(expression, &expr(vec![ExpressionOp::WasmLocal(5)]));
        }
        _ => panic!("expected a declaration"),
    }
    assert_eq!(active.get(5), vec![0]);

    let value = emit_scheduled_dbg_value(&info, &mut active, entry(1, 0, Some(vec![ExpressionOp::WasmStack(0)])), &at, &stack);
    match value {
        Some(DebugAction::Value { value, expression, .. }) => {
            assert_eq!(value, 30);
            assert!(expression.is_none());
        }
        _ => panic!("expected a value"),
    }

    let killed = emit_scheduled_dbg_value(&info, &mut active, entry(2, 0, None), &None, &stack);
    assert_eq!(kind(&killed), "kill");
    assert!(active.get(5).is_empty());

    assert_eq!(kind(&emit_scheduled_dbg_value(&info, &mut active, entry(3, 0, Some(vec![])), &at, &stack)), "none");
    assert_eq!(kind(&emit_scheduled_dbg_value(&info, &mut active, entry(3, 1, None), &at, &stack)), "none");
    assert_eq!(
        kind(&emit_scheduled_dbg_value(&info, &mut active, entry(3, 0, Some(vec![ExpressionOp::ConstU64(4)])), &at, &stack)),
        "declare"
    );
}

#[test]
fn variable_values_use_their_wasm_local() {
    let scheduled = LocationDescriptor { start: 0, end: None, storage: expr(vec![ExpressionOp::WasmLocal(0)]) };
    let info = function(vec![local("x", 4, vec![]), local("y", 4, vec![scheduled])], vec![]);
    match emit_dbg_value_for_var(&info, 0, 99u32, &None) {
        Some(DebugAction::Value { value, attr, expression }) => {
            assert_eq!(value, 99);
            assert_eq!(attr.name, "x");
            assert_eq!(expression, Some(expr(vec![ExpressionOp::WasmLocal(0)])));
        }
        _ => panic!("expected a value"),
    }
    assert!(emit_dbg_value_for_var(&info, 1, 99u32, &None).is_none());
    assert!(emit_dbg_value_for_var(&info, 7, 99u32, &None).is_none());
}

#[test]
fn local_values_reach_their_attached_variables() {
    let info = function(vec![local("x", 4, vec![]), None, local("z", 4, vec![])], vec![]);
    let mut active = ActiveLocalVars::new();
    active.set(2, 0);
    active.set(2, 1);
    active.set(2, 2);
    let attrs = emit_debug_values_for_wasm_local(&info, &active, 2, &None);
    assert_eq!(attrs.iter().map(|(i, a)| (*i, a.name.clone())).collect::<Vec<_>>(), vec![(0, "x".to_string()), (2, "z".to_string())]);
    assert!(emit_debug_values_for_wasm_local(&info, &active, 9, &None).is_empty());
}

#[test]
fn function_debug_info_assembles_locals_and_schedule() {
    let mut dwarf = HashMap::new();
    dwarf.insert(
        0u32,
        DwarfLocalData {
            name: Some("n".to_string()),
            decl_file: None,
            locations: vec![
                LocationDescriptor { start: 0, end: Some(8), storage: expr(vec![ExpressionOp::WasmLocal(0)]) },
                LocationDescriptor { start: 8, end: None, storage: expr(vec![ExpressionOp::ConstU64(1)]) },
            ],
            decl_line: Some(2),
            decl_column: None,
        },
    );
    let info = build_function_debug_info("g", "src/g.rs".to_string(), Some("src".to_string()), 5, Some(1), &[None], &[], &HashMap::new(), Some(&dwarf), None);
    assert_eq!(info.compile_unit.language, "wasm");
    assert_eq!(info.compile_unit.producer.as_deref(), Some("midenc-frontend-wasm"));
    assert_eq!((info.subprogram.name.as_str(), info.subprogram.line), ("g", 5));
    assert_eq!(info.locals.len(), 1);
    assert_eq!(info.locals[0].as_ref().unwrap().attr.name, "n");
    let offsets: Vec<(u64, bool)> = info.location_schedule.iter().map(|e| (e.offset, e.storage.is_some())).collect();
    assert_eq!(offsets, vec![(0, true), (8, false), (8, true)]);
    assert_eq!(info.next_location_event, 0);
}
