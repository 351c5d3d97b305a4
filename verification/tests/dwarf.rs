use std::collections::HashMap;

use midenc::debug_info::{Expression, ExpressionOp};
use midenc::dwarf::{
    decode_storage_from_expression, decode_variable_entry, visit_variable_node, DieTag, DwarfLocalData,
    DwarfOp, DwarfReadError, LocationAttr, LocationList, LocationListEntry, VariableAttr,
};

fn ops(e: &Expression) -> Vec<ExpressionOp> {
    e.operations.clone()
}

#[test]
fn wasm_local_location_decodes_to_local_op() {
    let r = decode_storage_from_expression(&[DwarfOp::WasmLocal { index: 3 }, DwarfOp::StackValue], None)
        .unwrap()
        .unwrap();
    assert_eq!(ops(&r), vec![ExpressionOp::WasmLocal(3), ExpressionOp::StackValue]);
}

#[test]
fn frame_offset_needs_a_frame_base() {
    let with_base =
        decode_storage_from_expression(&[DwarfOp::FrameOffset { offset: -16 }], Some(0)).unwrap().unwrap();
    assert_eq!(ops(&with_base), vec![ExpressionOp::FrameBase { global_index: 0, byte_offset: -16 }]);
    // Without a frame base nothing is translated, and an empty expression describes no storage.
    assert_eq!(decode_storage_from_expression(&[DwarfOp::FrameOffset { offset: -16 }], None), Ok(None));
}

#[test]
fn unknown_operation_makes_expression_unrepresentable() {
    let r = decode_storage_from_expression(
        &[DwarfOp::WasmLocal { index: 1 }, DwarfOp::Other, DwarfOp::Unreadable],
        None,
    );
    assert_eq!(r, Ok(None));
}

#[test]
fn unreadable_operation_is_an_error() {
    let r = decode_storage_from_expression(&[DwarfOp::WasmGlobal { index: 1 }, DwarfOp::Unreadable], None);
    assert_eq!(r, Err(DwarfReadError));
}

#[test]
fn piece_and_registers_translate_to_their_ops() {
    let r = decode_storage_from_expression(
        &[
            DwarfOp::Piece { size_in_bits: 32, bit_offset: None },
            DwarfOp::Register,
            DwarfOp::RegisterOffset,
            DwarfOp::Address { address: 9 },
            DwarfOp::SignedConstant { value: -1 },
            DwarfOp::UnsignedConstant { value: 2 },
            DwarfOp::PlusConstant { value: 4 },
            DwarfOp::WasmStack { index: 0 },
        ],
        None,
    )
    .unwrap()
    .unwrap();
    assert_eq!(
        ops(&r),
        vec![
            ExpressionOp::BitPiece { size: 32, offset: 0 },
            ExpressionOp::Unsupported("DW_OP_breg(N)"),
            ExpressionOp::Unsupported("DW_OP_bregx"),
            ExpressionOp::Address { address: 9 },
            ExpressionOp::ConstS64(-1),
            ExpressionOp::ConstU64(2),
            ExpressionOp::PlusUConst(4),
            ExpressionOp::WasmStack(0),
        ]
    );
}

fn named(name: &str, location: LocationAttr) -> Vec<VariableAttr> {
    vec![
        VariableAttr::Name(name.to_string()),
        VariableAttr::DeclFile(Some("src/lib.rs".to_string())),
        VariableAttr::DeclLine(12),
        VariableAttr::DeclColumn(9),
        VariableAttr::Location(location),
    ]
}

#[test]
fn variable_in_wasm_local_is_attached_to_that_local() {
    let mut scheduled = Vec::new();
    let attrs = named("x", LocationAttr::Expression(vec![DwarfOp::WasmLocal { index: 4 }]));
    let (index, data) = decode_variable_entry(&attrs, 100, Some(200), None, Some(0), &mut scheduled)
        .unwrap()
        .unwrap();
    assert_eq!(index, 4);
    assert_eq!(data.name.as_deref(), Some("x"));
    assert_eq!(data.decl_file.as_deref(), Some("src/lib.rs"));
    assert_eq!(data.decl_line, Some(12));
    assert_eq!(data.decl_column, Some(9));
    assert_eq!(data.locations.len(), 1);
    assert_eq!(data.locations[0].start, 100);
    assert_eq!(data.locations[0].end, Some(200));
    assert_eq!(ops(&data.locations[0].storage), vec![ExpressionOp::WasmLocal(4)]);
    assert!(scheduled.is_empty());
}

#[test]
fn frame_relative_parameter_falls_back_to_its_position() {
    let mut scheduled = Vec::new();
    let attrs = named("p", LocationAttr::Expression(vec![DwarfOp::FrameOffset { offset: 8 }]));
    let (index, _) =
        decode_variable_entry(&attrs, 0, None, Some(5), Some(2), &mut scheduled).unwrap().unwrap();
    assert_eq!(index, 2);
    assert!(scheduled.is_empty());
}

#[test]
fn frame_relative_variable_is_scheduled() {
    let mut scheduled = Vec::new();
    let attrs = named("v", LocationAttr::Expression(vec![DwarfOp::FrameOffset { offset: 8 }]));
    let r = decode_variable_entry(&attrs, 0, None, Some(5), None, &mut scheduled).unwrap();
    assert!(r.is_none());
    assert_eq!(scheduled.len(), 1);
    assert_eq!(scheduled[0].name.as_deref(), Some("v"));
    assert_eq!(
        ops(&scheduled[0].locations[0].storage),
        vec![ExpressionOp::FrameBase { global_index: 5, byte_offset: 8 }]
    );
}

#[test]
fn unsupported_variable_without_local_is_dropped() {
    let mut scheduled = Vec::new();
    let attrs = named(
        "v",
        LocationAttr::Expression(vec![DwarfOp::Piece { size_in_bits: 8, bit_offset: Some(1) }]),
    );
    assert!(decode_variable_entry(&attrs, 0, None, None, None, &mut scheduled).unwrap().is_none());
    assert!(scheduled.is_empty());
}

#[test]
fn missing_location_gives_nothing() {
    let mut scheduled = Vec::new();
    let attrs = vec![VariableAttr::Name("x".to_string())];
    assert!(decode_variable_entry(&attrs, 0, None, None, Some(0), &mut scheduled).unwrap().is_none());
    let other = vec![VariableAttr::Location(LocationAttr::Other)];
    assert!(decode_variable_entry(&other, 0, None, None, Some(0), &mut scheduled).unwrap().is_none());
    assert!(scheduled.is_empty());
}

fn list(read_failed: bool) -> LocationAttr {
    LocationAttr::List(LocationList {
        entries: vec![
            LocationListEntry { begin: 10, end: 20, ops: vec![DwarfOp::WasmLocal { index: 1 }] },
            LocationListEntry { begin: 20, end: 30, ops: vec![DwarfOp::Other] },
            LocationListEntry { begin: 30, end: 40, ops: vec![DwarfOp::UnsignedConstant { value: 7 }] },
        ],
        read_failed,
    })
}

#[test]
fn location_list_keeps_supported_ranges() {
    let mut scheduled = Vec::new();
    let attrs = named("y", list(false));
    assert!(decode_variable_entry(&attrs, 0, None, None, None, &mut scheduled).unwrap().is_none());
    assert_eq!(scheduled.len(), 1);
    let locs = &scheduled[0].locations;
    assert_eq!(locs.len(), 2);
    assert_eq!((locs[0].start, locs[0].end), (10, Some(20)));
    assert_eq!((locs[1].start, locs[1].end), (30, Some(40)));
    assert_eq!(ops(&locs[1].storage), vec![ExpressionOp::ConstU64(7)]);
}

#[test]
fn parameter_location_list_stays_on_its_local() {
    let mut scheduled = Vec::new();
    let attrs = named("y", list(false));
    let (index, data) =
        decode_variable_entry(&attrs, 0, None, None, Some(3), &mut scheduled).unwrap().unwrap();
    assert_eq!(index, 3);
    assert_eq!(data.locations.len(), 2);
    assert!(scheduled.is_empty());
}

#[test]
fn failed_location_list_is_an_error() {
    let mut scheduled = Vec::new();
    let attrs = named("y", list(true));
    assert_eq!(
        decode_variable_entry(&attrs, 0, None, None, None, &mut scheduled).err(),
        Some(DwarfReadError)
    );
    assert!(scheduled.is_empty());
}

#[test]
fn last_attribute_wins_and_lines_truncate() {
    let mut scheduled = Vec::new();
    let attrs = vec![
        VariableAttr::Name("first".to_string()),
        VariableAttr::Name("second".to_string()),
        VariableAttr::DeclLine(0x1_0000_0005),
        VariableAttr::Location(LocationAttr::Expression(vec![DwarfOp::WasmLocal { index: 0 }])),
    ];
    let (_, data) = decode_variable_entry(&attrs, 0, None, None, None, &mut scheduled).unwrap().unwrap();
    assert_eq!(data.name.as_deref(), Some("second"));
    assert_eq!(data.decl_line, Some(5));
    assert_eq!(data.decl_column, None);
}

#[test]
fn visiting_merges_entries_of_the_same_local() {
    let mut locals: HashMap<u32, DwarfLocalData> = HashMap::new();
    let mut scheduled = Vec::new();
    let mut counter = 0u32;
    let first = named("a", LocationAttr::Expression(vec![DwarfOp::WasmLocal { index: 2 }]));
    let second = vec![
        VariableAttr::Name("b".to_string()),
        VariableAttr::DeclLine(40),
        VariableAttr::Location(LocationAttr::Expression(vec![DwarfOp::WasmLocal { index: 2 }])),
    ];
    assert_eq!(
        visit_variable_node(DieTag::Variable, &first, 0, Some(8), None, &mut locals, &mut scheduled, &mut counter),
        Ok(true)
    );
    assert_eq!(
        visit_variable_node(DieTag::Variable, &second, 8, Some(16), None, &mut locals, &mut scheduled, &mut counter),
        Ok(true)
    );
    let merged = &locals[&2];
    assert_eq!(merged.name.as_deref(), Some("a"));
    assert_eq!(merged.decl_line, Some(12));
    assert_eq!(merged.locations.len(), 2);
    assert_eq!(merged.locations[1].start, 8);
    assert_eq!(counter, 0);
}

#[test]
fn visiting_counts_parameters_and_skips_inlined_subroutines() {
    let mut locals: HashMap<u32, DwarfLocalData> = HashMap::new();
    let mut scheduled = Vec::new();
    let mut counter = 0u32;
    let param = named("p", LocationAttr::Expression(vec![DwarfOp::FrameOffset { offset: 4 }]));
    for _ in 0..2 {
        assert_eq!(
            visit_variable_node(
                DieTag::FormalParameter,
                &param,
                0,
                None,
                Some(1),
                &mut locals,
                &mut scheduled,
                &mut counter
            ),
            Ok(true)
        );
    }
    assert_eq!(counter, 2);
    assert!(locals.contains_key(&0) && locals.contains_key(&1));
    assert_eq!(
        visit_variable_node(DieTag::InlinedSubroutine, &[], 0, None, None, &mut locals, &mut scheduled, &mut counter),
        Ok(false)
    );
    assert_eq!(
        visit_variable_node(DieTag::Other, &[], 0, None, None, &mut locals, &mut scheduled, &mut counter),
        Ok(true)
    );
    assert_eq!(locals.len(), 2);
}

#[test]
fn visiting_an_unreadable_entry_fails_without_changes() {
    let mut locals: HashMap<u32, DwarfLocalData> = HashMap::new();
    let mut scheduled = Vec::new();
    let mut counter = 0u32;
    let bad = named("x", LocationAttr::Expression(vec![DwarfOp::Unreadable]));
    assert_eq!(
        visit_variable_node(DieTag::Variable, &bad, 0, None, None, &mut locals, &mut scheduled, &mut counter),
        Err(DwarfReadError)
    );
    assert!(locals.is_empty() && scheduled.is_empty());
}

use midenc::dwarf::{resolve_subprogram_target, FrameBase, SubprogramAttr, SubprogramInfo};

fn functions() -> Vec<(String, u32)> {
    vec![("main".to_string(), 3), ("helper".to_string(), 4), ("main".to_string(), 5)]
}

#[test]
fn subprogram_resolves_by_name_first() {
    let attrs = vec![
        SubprogramAttr::LinkageName("_ZN4main".to_string()),
        SubprogramAttr::Name("main".to_string()),
        SubprogramAttr::LowPc(0x40),
        SubprogramAttr::HighPcSize(0x10),
        SubprogramAttr::FrameBaseExpr(vec![DwarfOp::WasmLocal { index: 2 }, DwarfOp::StackValue]),
    ];
    let info = resolve_subprogram_target(&attrs, &functions(), &[], 0).unwrap();
    // The last function of that name wins.
    assert_eq!(
        info,
        SubprogramInfo { func_index: 5, low_pc: 0x40, high_pc: Some(0x50), frame_base: Some(FrameBase::Local(2)) }
    );
}

#[test]
fn subprogram_falls_back_to_its_low_pc() {
    let attrs = vec![
        SubprogramAttr::Name("unknown".to_string()),
        SubprogramAttr::LowPc(0x20),
        SubprogramAttr::HighPcAddr(0x30),
        SubprogramAttr::FrameBaseExpr(vec![DwarfOp::WasmGlobal { index: 0 }, DwarfOp::Unreadable, DwarfOp::WasmLocal { index: 9 }]),
    ];
    let bodies = vec![(0x110u64, 7u32), (0x120, 8)];
    let info = resolve_subprogram_target(&attrs, &functions(), &bodies, 0x100).unwrap();
    assert_eq!(
        info,
        SubprogramInfo { func_index: 8, low_pc: 0x20, high_pc: Some(0x30), frame_base: Some(FrameBase::Global(0)) }
    );
    assert!(resolve_subprogram_target(&[SubprogramAttr::LowPc(0x99)], &functions(), &bodies, 0x100).is_none());
    assert!(resolve_subprogram_target(&[], &functions(), &bodies, 0x100).is_none());
}

#[test]
fn linkage_name_is_used_without_a_name_and_sizes_saturate() {
    let attrs = vec![
        SubprogramAttr::HighPcSize(4),
        SubprogramAttr::LinkageName("helper".to_string()),
        SubprogramAttr::LowPc(u64::MAX - 1),
        SubprogramAttr::HighPcSize(8),
    ];
    let info = resolve_subprogram_target(&attrs, &functions(), &[], 0).unwrap();
    assert_eq!(info.func_index, 4);
    assert_eq!(info.high_pc, Some(u64::MAX));
    assert_eq!(info.frame_base, None);
}
