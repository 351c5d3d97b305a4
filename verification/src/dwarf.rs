//! Decoding DWARF variable descriptions into variable locations.
//!
//! The DWARF sections are read elsewhere; here the operations of a DWARF location expression are
//! given as [`DwarfOp`] values, and the decisions of how a variable's location attribute maps to
//! Wasm storage are made and proved.

use vstd::prelude::*;

use std::collections::HashMap;

use crate::debug_info::{
    is_supported_location_expression, local_index_from_expression, DescriptorView, Expression,
    ExpressionOp, LocationDescriptor,
};

verus! {

broadcast use vstd::std_specs::hash::group_hash_axioms;

/// One operation of a DWARF location expression, as read from the DWARF sections.
#[derive(Clone, Copy, Debug, PartialEq, Eq)]
#[allow(inconsistent_fields)]
pub enum DwarfOp {
    /// `DW_OP_WASM_location` naming a Wasm local.
    WasmLocal {
        /// The local index.
        index: u32,
    },
    /// `DW_OP_WASM_location` naming a Wasm global.
    WasmGlobal {
        /// The global index.
        index: u32,
    },
    /// `DW_OP_WASM_location` naming a Wasm operand-stack slot.
    WasmStack {
        /// The slot, counted from the top of the stack.
        index: u32,
    },
    /// An unsigned constant.
    UnsignedConstant {
        /// The constant.
        value: u64,
    },
    /// A signed constant.
    SignedConstant {
        /// The constant.
        value: i64,
    },
    /// `DW_OP_plus_uconst`.
    PlusConstant {
        /// The constant added.
        value: u64,
    },
    /// `DW_OP_stack_value`.
    StackValue,
    /// `DW_OP_fbreg`: an offset from the frame base.
    FrameOffset {
        /// The byte offset.
        offset: i64,
    },
    /// `DW_OP_addr`.
    Address {
        /// The address.
        address: u64,
    },
    /// `DW_OP_piece` / `DW_OP_bit_piece`.
    Piece {
        /// The size of the piece in bits.
        size_in_bits: u64,
        /// The bit offset of the piece, if given.
        bit_offset: Option<u64>,
    },
    /// `DW_OP_reg`: a machine register.
    Register,
    /// `DW_OP_breg`: an offset from a machine register.
    RegisterOffset,
    /// Any other operation.
    Other,
    /// Bytes that could not be read as an operation; nothing after them is read.
    Unreadable,
}

/// An error reading DWARF data.
#[derive(Clone, Copy, Debug, PartialEq, Eq)]
pub struct DwarfReadError;


/// The location operations one DWARF operation translates to, or `None` for an operation that
/// makes the whole expression unrepresentable. A frame-base offset translates to nothing when the
/// function has no known frame base.
pub open spec fn spec_translate_op(op: DwarfOp, frame_base_global: Option<u32>) -> Option<
    Seq<ExpressionOp>,
> {
    match op {
        DwarfOp::WasmLocal { index } => Some(seq![ExpressionOp::WasmLocal(index)]),
        DwarfOp::WasmGlobal { index } => Some(seq![ExpressionOp::WasmGlobal(index)]),
        DwarfOp::WasmStack { index } => Some(seq![ExpressionOp::WasmStack(index)]),
        DwarfOp::UnsignedConstant { value } => Some(seq![ExpressionOp::ConstU64(value)]),
        DwarfOp::SignedConstant { value } => Some(seq![ExpressionOp::ConstS64(value)]),
        DwarfOp::PlusConstant { value } => Some(seq![ExpressionOp::PlusUConst(value)]),
        DwarfOp::StackValue => Some(seq![ExpressionOp::StackValue]),
        DwarfOp::FrameOffset { offset } => match frame_base_global {
            Some(global_index) => Some(
                seq![ExpressionOp::FrameBase { global_index, byte_offset: offset }],
            ),
            None => Some(Seq::empty()),
        },
        DwarfOp::Address { address } => Some(seq![ExpressionOp::Address { address }]),
        DwarfOp::Piece { size_in_bits, bit_offset } => Some(
            seq![
                ExpressionOp::BitPiece {
                    size: size_in_bits,
                    offset: match bit_offset {
                        Some(o) => o,
                        None => 0,
                    },
                },
            ],
        ),
        DwarfOp::Register => Some(seq![ExpressionOp::Unsupported("DW_OP_breg(N)")]),
        DwarfOp::RegisterOffset => Some(seq![ExpressionOp::Unsupported("DW_OP_bregx")]),
        DwarfOp::Other | DwarfOp::Unreadable => None,
    }
}

/// The outcome of translating a DWARF expression, operation by operation: `Err` when an
/// unreadable operation comes before any operation that cannot be represented, `Ok(None)` when an
/// operation that cannot be represented comes first, and otherwise the translated operations.
pub open spec fn spec_translate_ops(ops: Seq<DwarfOp>, frame_base_global: Option<u32>) -> Result<
    Option<Seq<ExpressionOp>>,
    (),
>
    decreases ops.len(),
{
    if ops.len() == 0 {
        Ok(Some(Seq::empty()))
    } else {
        match spec_translate_ops(ops.drop_last(), frame_base_global) {
            Ok(Some(a)) => if ops.last() is Unreadable {
                Err(())
            } else {
                match spec_translate_op(ops.last(), frame_base_global) {
                    Some(b) => Ok(Some(a + b)),
                    None => Ok(None),
                }
            },
            other => other,
        }
    }
}

/// The storage a DWARF expression describes: its translation, where an empty translation
/// describes no storage.
pub open spec fn spec_decode_storage(ops: Seq<DwarfOp>, frame_base_global: Option<u32>) -> Result<
    Option<Seq<ExpressionOp>>,
    (),
> {
    match spec_translate_ops(ops, frame_base_global) {
        Ok(Some(s)) => if s.len() == 0 {
            Ok(None)
        } else {
            Ok(Some(s))
        },
        other => other,
    }
}

/// The plain-value view of a decoded storage.
pub open spec fn storage_result_view(r: Result<Option<Expression>, DwarfReadError>) -> Result<
    Option<Seq<ExpressionOp>>,
    (),
> {
    match r {
        Ok(Some(e)) => Ok(Some(e@)),
        Ok(None) => Ok(None),
        Err(_) => Err(()),
    }
}

/// Once a prefix of an expression stops the translation, the whole expression stops there too.
proof fn lemma_translate_stop_persists(ops: Seq<DwarfOp>, fbg: Option<u32>, k: int)
    requires
        0 <= k <= ops.len(),
        !(spec_translate_ops(ops.take(k), fbg) is Ok && spec_translate_ops(ops.take(k), fbg)->Ok_0 is Some),
    ensures
        spec_translate_ops(ops, fbg) == spec_translate_ops(ops.take(k), fbg),
    decreases ops.len() - k,
{
    if k < ops.len() {
        assert(ops.take(k + 1).drop_last() =~= ops.take(k));
        lemma_translate_stop_persists(ops, fbg, k + 1);
    } else {
        assert(ops.take(k) =~= ops);
    }
}

/// Decodes the storage a DWARF location expression describes, given as its operations.
///
/// Returns `Ok(None)` when the expression holds an operation that cannot be represented before
/// any unreadable one, or when it describes no location at all; an error when an operation
/// cannot be read.
pub fn decode_storage_from_expression(ops: &[DwarfOp], frame_base_global: Option<u32>) -> (r:
    Result<Option<Expression>, DwarfReadError>)
    ensures
        storage_result_view(r) == spec_decode_storage(ops@, frame_base_global),
{
    let mut storage: Vec<ExpressionOp> = Vec::new();
    let mut i: usize = 0;
    assert(ops@.take(0) =~= Seq::<DwarfOp>::empty());
    while i < ops.len()
        invariant
            i <= ops@.len(),
            spec_translate_ops(ops@.take(i as int), frame_base_global) == Ok::<
                Option<Seq<ExpressionOp>>,
                (),
            >(Some(storage@)),
        decreases ops@.len() - i,
    {
        assert(ops@.take(i + 1).drop_last() =~= ops@.take(i as int));
        assert(ops@.take(i + 1).last() == ops@[i as int]);
        let ghost before = storage@;
        match ops[i] {
            DwarfOp::WasmLocal { index } => storage.push(ExpressionOp::WasmLocal(index)),
            DwarfOp::WasmGlobal { index } => storage.push(ExpressionOp::WasmGlobal(index)),
            DwarfOp::WasmStack { index } => storage.push(ExpressionOp::WasmStack(index)),
            DwarfOp::UnsignedConstant { value } => storage.push(ExpressionOp::ConstU64(value)),
            DwarfOp::SignedConstant { value } => storage.push(ExpressionOp::ConstS64(value)),
            DwarfOp::PlusConstant { value } => storage.push(ExpressionOp::PlusUConst(value)),
            DwarfOp::StackValue => storage.push(ExpressionOp::StackValue),
            DwarfOp::FrameOffset { offset } => {
                // DW_OP_fbreg(offset): the variable is at frame_base + offset in linear memory.
                if let Some(global_index) = frame_base_global {
                    storage.push(ExpressionOp::FrameBase { global_index, byte_offset: offset });
                }
            },
            DwarfOp::Address { address } => storage.push(ExpressionOp::Address { address }),
            DwarfOp::Piece { size_in_bits, bit_offset } => {
                let offset = match bit_offset {
                    Some(o) => o,
                    None => 0,
                };
                storage.push(ExpressionOp::BitPiece { size: size_in_bits, offset });
            },
            DwarfOp::Register => storage.push(ExpressionOp::Unsupported("DW_OP_breg(N)")),
            DwarfOp::RegisterOffset => storage.push(ExpressionOp::Unsupported("DW_OP_bregx")),
            DwarfOp::Other => {
                // Bail on unhandled operations: the expression cannot be represented.
                proof {
                    lemma_translate_stop_persists(ops@, frame_base_global, i + 1);
                }
                return Ok(None);
            },
            DwarfOp::Unreadable => {
                proof {
                    lemma_translate_stop_persists(ops@, frame_base_global, i + 1);
                }
                return Err(DwarfReadError);
            },
        }
        assert(storage@ =~= before + spec_translate_op(ops@[i as int], frame_base_global)->Some_0);
        i += 1;
    }
    assert(ops@.take(ops@.len() as int) =~= ops@);
    if storage.len() == 0 {
        Ok(None)
    } else {
        Ok(Some(Expression::with_ops(storage)))
    }
}

/// The location attribute (`DW_AT_location`) of a variable entry, as read.
pub enum LocationAttr {
    /// A single location expression, given by its operations.
    Expression(Vec<DwarfOp>),
    /// A reference to a location list, with the entries that were read from it.
    List(LocationList),
    /// Any other form of the attribute.
    Other,
}

/// One entry of a location list: a code range and the location expression valid over it.
pub struct LocationListEntry {
    /// Inclusive start of the range.
    pub begin: u64,
    /// Exclusive end of the range.
    pub end: u64,
    /// The operations of the location expression.
    pub ops: Vec<DwarfOp>,
}

/// A location list as read: its entries, and whether reading failed after them.
pub struct LocationList {
    /// The entries that were read, in order.
    pub entries: Vec<LocationListEntry>,
    /// Whether reading the list failed after `entries`.
    pub read_failed: bool,
}

/// An attribute of a variable or formal-parameter entry, as read. Attributes that play no part
/// in decoding a variable are left out.
pub enum VariableAttr {
    /// `DW_AT_name`, when its string could be read.
    Name(String),
    /// `DW_AT_location`.
    Location(LocationAttr),
    /// `DW_AT_decl_file` with a file index: the file's path when the index resolves to one.
    DeclFile(Option<String>),
    /// `DW_AT_decl_line` with a constant value.
    DeclLine(u64),
    /// `DW_AT_decl_column` with a constant value.
    DeclColumn(u64),
}

/// What the DWARF data says of one source variable.
pub struct DwarfLocalData {
    /// The variable's source name.
    pub name: Option<String>,
    /// The file declaring the variable.
    pub decl_file: Option<String>,
    /// The variable's locations over the function's code.
    pub locations: Vec<LocationDescriptor>,
    /// The declaration line.
    pub decl_line: Option<u32>,
    /// The declaration column.
    pub decl_column: Option<u32>,
}

/// [`DwarfLocalData`] as plain values.
pub struct LocalDataView {
    /// The variable's source name.
    pub name: Option<String>,
    /// The file declaring the variable.
    pub decl_file: Option<String>,
    /// The variable's locations.
    pub locations: Seq<DescriptorView>,
    /// The declaration line.
    pub decl_line: Option<u32>,
    /// The declaration column.
    pub decl_column: Option<u32>,
}

impl View for DwarfLocalData {
    type V = LocalDataView;

    open spec fn view(&self) -> LocalDataView {
        LocalDataView {
            name: self.name,
            decl_file: self.decl_file,
            locations: crate::debug_info::descriptors_view(self.locations@),
            decl_line: self.decl_line,
            decl_column: self.decl_column,
        }
    }
}

/// The plain-value views of a sequence of variables.
pub open spec fn local_data_views(s: Seq<DwarfLocalData>) -> Seq<LocalDataView> {
    s.map_values(|d: DwarfLocalData| d@)
}

/// The name given by the last `DW_AT_name` attribute.
pub open spec fn spec_attr_name(attrs: Seq<VariableAttr>) -> Option<String>
    decreases attrs.len(),
{
    if attrs.len() == 0 {
        None
    } else {
        match attrs.last() {
            VariableAttr::Name(n) => Some(n),
            _ => spec_attr_name(attrs.drop_last()),
        }
    }
}

/// The file given by the last `DW_AT_decl_file` attribute.
pub open spec fn spec_attr_decl_file(attrs: Seq<VariableAttr>) -> Option<String>
    decreases attrs.len(),
{
    if attrs.len() == 0 {
        None
    } else {
        match attrs.last() {
            VariableAttr::DeclFile(f) => f,
            _ => spec_attr_decl_file(attrs.drop_last()),
        }
    }
}

/// The line given by the last `DW_AT_decl_line` attribute, truncated to 32 bits.
pub open spec fn spec_attr_decl_line(attrs: Seq<VariableAttr>) -> Option<u32>
    decreases attrs.len(),
{
    if attrs.len() == 0 {
        None
    } else {
        match attrs.last() {
            VariableAttr::DeclLine(l) => Some(l as u32),
            _ => spec_attr_decl_line(attrs.drop_last()),
        }
    }
}

/// The column given by the last `DW_AT_decl_column` attribute, truncated to 32 bits.
pub open spec fn spec_attr_decl_column(attrs: Seq<VariableAttr>) -> Option<u32>
    decreases attrs.len(),
{
    if attrs.len() == 0 {
        None
    } else {
        match attrs.last() {
            VariableAttr::DeclColumn(c) => Some(c as u32),
            _ => spec_attr_decl_column(attrs.drop_last()),
        }
    }
}

/// The last `DW_AT_location` attribute.
pub open spec fn spec_attr_location(attrs: Seq<VariableAttr>) -> Option<LocationAttr>
    decreases attrs.len(),
{
    if attrs.len() == 0 {
        None
    } else {
        match attrs.last() {
            VariableAttr::Location(l) => Some(l),
            _ => spec_attr_location(attrs.drop_last()),
        }
    }
}

/// The data of a variable with the given locations, described by `attrs`.
pub open spec fn spec_entry_data(attrs: Seq<VariableAttr>, locations: Seq<DescriptorView>) -> LocalDataView {
    LocalDataView {
        name: spec_attr_name(attrs),
        decl_file: spec_attr_decl_file(attrs),
        locations,
        decl_line: spec_attr_decl_line(attrs),
        decl_column: spec_attr_decl_column(attrs),
    }
}

/// The supported locations of a location list, entry by entry; `Err` when an entry's expression
/// cannot be read.
pub open spec fn spec_list_locations(entries: Seq<LocationListEntry>, frame_base_global: Option<
    u32,
>) -> Result<Seq<DescriptorView>, ()>
    decreases entries.len(),
{
    if entries.len() == 0 {
        Ok(Seq::empty())
    } else {
        match spec_list_locations(entries.drop_last(), frame_base_global) {
            Ok(ls) => {
                let e = entries.last();
                match spec_decode_storage(e.ops@, frame_base_global) {
                    Err(()) => Err(()),
                    Ok(Some(s)) => if crate::debug_info::spec_is_supported_location(s) {
                        Ok(ls.push((e.begin, Some(e.end), s)))
                    } else {
                        Ok(ls)
                    },
                    Ok(None) => Ok(ls),
                }
            },
            Err(()) => Err(()),
        }
    }
}

/// What decoding a variable entry gives: the Wasm local the variable is attached to, with its
/// data; or the data of a variable to be scheduled by its explicit locations; or neither. `Err`
/// when DWARF data cannot be read.
///
/// A single location expression attaches the variable to the first Wasm local it names, else to
/// `fallback_index` (a formal parameter's position); without either it is scheduled when its
/// location is supported. A location list keeps its supported locations; when it has any, the
/// variable is attached to `fallback_index` if given and scheduled otherwise.
pub open spec fn spec_decode_variable(
    attrs: Seq<VariableAttr>,
    low_pc: u64,
    high_pc: Option<u64>,
    frame_base_global: Option<u32>,
    fallback_index: Option<u32>,
) -> Result<(Option<(u32, LocalDataView)>, Option<LocalDataView>), ()> {
    match spec_attr_location(attrs) {
        Some(LocationAttr::Expression(ops)) => match spec_decode_storage(ops@, frame_base_global) {
            Err(()) => Err(()),
            Ok(None) => Ok((None, None)),
            Ok(Some(s)) => {
                let d = spec_entry_data(attrs, seq![(low_pc, high_pc, s)]);
                match crate::debug_info::spec_first_local(s) {
                    Some(i) => Ok((Some((i, d)), None)),
                    None => match fallback_index {
                        Some(i) => Ok((Some((i, d)), None)),
                        None => if crate::debug_info::spec_is_supported_location(s) {
                            Ok((None, Some(d)))
                        } else {
                            Ok((None, None))
                        },
                    },
                }
            },
        },
        Some(LocationAttr::List(list)) => match spec_list_locations(list.entries@, frame_base_global) {
            Err(()) => Err(()),
            Ok(ls) => if list.read_failed {
                Err(())
            } else if ls.len() == 0 {
                Ok((None, None))
            } else {
                let d = spec_entry_data(attrs, ls);
                match fallback_index {
                    Some(i) => Ok((Some((i, d)), None)),
                    None => Ok((None, Some(d))),
                }
            },
        },
        _ => Ok((None, None)),
    }
}

/// An error in one entry of a location list is the error of the whole list.
proof fn lemma_list_error_persists(entries: Seq<LocationListEntry>, fbg: Option<u32>, k: int)
    requires
        0 <= k <= entries.len(),
        spec_list_locations(entries.take(k), fbg) is Err,
    ensures
        spec_list_locations(entries, fbg) is Err,
    decreases entries.len() - k,
{
    if k < entries.len() {
        assert(entries.take(k + 1).drop_last() =~= entries.take(k));
        lemma_list_error_persists(entries, fbg, k + 1);
    } else {
        assert(entries.take(k) =~= entries);
    }
}

/// Copies an optional string.
fn clone_opt_string(s: &Option<String>) -> (r: Option<String>)
    ensures
        r == *s,
{
    match s {
        Some(x) => Some(x.clone()),
        None => None,
    }
}

/// Decodes a variable or formal-parameter entry from its attributes.
///
/// Returns the Wasm local the variable is attached to with its data; a variable that is tracked
/// by its explicit locations instead is pushed onto `scheduled_vars`. `low_pc` and `high_pc` are
/// the code range of the enclosing function, `frame_base_global` its frame base, and
/// `fallback_index` the position of a formal parameter.
pub fn decode_variable_entry(
    attrs: &[VariableAttr],
    low_pc: u64,
    high_pc: Option<u64>,
    frame_base_global: Option<u32>,
    fallback_index: Option<u32>,
    scheduled_vars: &mut Vec<DwarfLocalData>,
) -> (r: Result<Option<(u32, DwarfLocalData)>, DwarfReadError>)
    ensures
        match spec_decode_variable(attrs@, low_pc, high_pc, frame_base_global, fallback_index) {
            Err(()) => r is Err && final(scheduled_vars)@ == old(scheduled_vars)@,
            Ok((attached, scheduled)) => {
                &&& r is Ok
                &&& match attached {
                    Some((i, d)) => r->Ok_0 is Some && r->Ok_0->Some_0.0 == i && r->Ok_0->Some_0.1@
                        == d,
                    None => r->Ok_0 is None,
                }
                &&& match scheduled {
                    Some(d) => local_data_views(final(scheduled_vars)@) == local_data_views(
                        old(scheduled_vars)@,
                    ).push(d),
                    None => final(scheduled_vars)@ == old(scheduled_vars)@,
                }
            },
        },
{
    let mut name: Option<String> = None;
    let mut decl_file: Option<String> = None;
    let mut location_attr: Option<&LocationAttr> = None;
    let mut decl_line: Option<u32> = None;
    let mut decl_column: Option<u32> = None;
    let mut i: usize = 0;
    while i < attrs.len()
        invariant
            i <= attrs@.len(),
            name == spec_attr_name(attrs@.take(i as int)),
            decl_file == spec_attr_decl_file(attrs@.take(i as int)),
            decl_line == spec_attr_decl_line(attrs@.take(i as int)),
            decl_column == spec_attr_decl_column(attrs@.take(i as int)),
            match location_attr {
                Some(l) => spec_attr_location(attrs@.take(i as int)) == Some(*l),
                None => spec_attr_location(attrs@.take(i as int)) is None,
            },
        decreases attrs@.len() - i,
    {
        assert(attrs@.take(i + 1).drop_last() =~= attrs@.take(i as int));
        assert(attrs@.take(i + 1).last() == attrs@[i as int]);
        match &attrs[i] {
            VariableAttr::Name(text) => name = Some(text.clone()),
            VariableAttr::Location(l) => location_attr = Some(l),
            VariableAttr::DeclFile(f) => decl_file = clone_opt_string(f),
            VariableAttr::DeclLine(line) => decl_line = Some(*line as u32),
            VariableAttr::DeclColumn(column) => decl_column = Some(*column as u32),
        }
        i += 1;
    }
    assert(attrs@.take(attrs@.len() as int) =~= attrs@);
    match location_attr {
        None => Ok(None),
        Some(LocationAttr::Other) => Ok(None),
        Some(LocationAttr::Expression(ops)) => {
            let storage = match decode_storage_from_expression(ops.as_slice(), frame_base_global) {
                Err(e) => {
                    return Err(e);
                },
                Ok(None) => {
                    return Ok(None);
                },
                Ok(Some(storage)) => storage,
            };
            // The Wasm local holding the variable; a frame-base location falls back to the
            // parameter position, since formal parameters are the leading Wasm locals.
            let local_index = match local_index_from_expression(&storage) {
                Some(index) => Some(index),
                None => fallback_index,
            };
            let supported = is_supported_location_expression(&storage);
            let mut locations: Vec<LocationDescriptor> = Vec::new();
            locations.push(LocationDescriptor { start: low_pc, end: high_pc, storage });
            let data = DwarfLocalData { name, decl_file, locations, decl_line, decl_column };
            assert(data@.locations =~= seq![(low_pc, high_pc, data.locations@[0].storage@)]);
            match local_index {
                Some(index) => Ok(Some((index, data))),
                None => {
                    if supported {
                        // Variables with no fixed Wasm local are emitted from their explicit
                        // location expression instead of being dropped.
                        let ghost before = scheduled_vars@;
                        scheduled_vars.push(data);
                        assert(local_data_views(scheduled_vars@) =~= local_data_views(before).push(
                            data@,
                        ));
                    }
                    Ok(None)
                },
            }
        },
        Some(LocationAttr::List(list)) => {
            let mut locations: Vec<LocationDescriptor> = Vec::new();
            let mut j: usize = 0;
            assert(list.entries@.take(0) =~= Seq::<LocationListEntry>::empty());
            assert(crate::debug_info::descriptors_view(locations@) =~= Seq::<DescriptorView>::empty());
            while j < list.entries.len()
                invariant
                    j <= list.entries@.len(),
                    spec_attr_location(attrs@) == Some(LocationAttr::List(*list)),
                    scheduled_vars@ == old(scheduled_vars)@,
                    spec_list_locations(list.entries@.take(j as int), frame_base_global) == Ok::<
                        Seq<DescriptorView>,
                        (),
                    >(crate::debug_info::descriptors_view(locations@)),
                decreases list.entries@.len() - j,
            {
                let e = &list.entries[j];
                assert(list.entries@.take(j + 1).drop_last() =~= list.entries@.take(j as int));
                assert(list.entries@.take(j + 1).last() == *e);
                match decode_storage_from_expression(e.ops.as_slice(), frame_base_global) {
                    Err(err) => {
                        proof {
                            lemma_list_error_persists(list.entries@, frame_base_global, j + 1);
                        }
                        return Err(err);
                    },
                    Ok(Some(storage)) => {
                        if is_supported_location_expression(&storage) {
                            let ghost before = locations@;
                            let d = LocationDescriptor { start: e.begin, end: Some(e.end), storage };
                            locations.push(d);
                            assert(crate::debug_info::descriptors_view(locations@) =~= crate::debug_info::descriptors_view(
                                before,
                            ).push(d@));
                        }
                    },
                    Ok(None) => {},
                }
                j += 1;
            }
            assert(list.entries@.take(list.entries@.len() as int) =~= list.entries@);
            if list.read_failed {
                return Err(DwarfReadError);
            }
            if locations.len() == 0 {
                return Ok(None);
            }
            let data = DwarfLocalData { name, decl_file, locations, decl_line, decl_column };
            match fallback_index {
                // Formal parameters map one-to-one to the leading Wasm locals: the whole
                // location list stays on that local.
                Some(index) => Ok(Some((index, data))),
                None => {
                    let ghost before = scheduled_vars@;
                    scheduled_vars.push(data);
                    assert(local_data_views(scheduled_vars@) =~= local_data_views(before).push(
                        data@,
                    ));
                    Ok(None)
                },
            }
        },
    }
}

/// The kind of a debugging-information entry met under a subprogram, as far as collecting its
/// variables is concerned.
#[derive(Clone, Copy, Debug, PartialEq, Eq)]
pub enum DieTag {
    /// `DW_TAG_formal_parameter`.
    FormalParameter,
    /// `DW_TAG_variable`.
    Variable,
    /// `DW_TAG_inlined_subroutine`.
    InlinedSubroutine,
    /// Any other entry.
    Other,
}

/// `a` if it is set, else `b`.
pub open spec fn or_else<T>(a: Option<T>, b: Option<T>) -> Option<T> {
    match a {
        Some(x) => Some(x),
        None => b,
    }
}

/// The data of a local after merging `d` into what was known of it: fields already known are
/// kept, missing ones are taken from `d`, and the locations of `d` are appended.
pub open spec fn spec_merge_local(existing: Option<LocalDataView>, d: LocalDataView) -> LocalDataView {
    match existing {
        Some(e) => LocalDataView {
            name: or_else(e.name, d.name),
            decl_file: or_else(e.decl_file, d.decl_file),
            locations: e.locations + d.locations,
            decl_line: or_else(e.decl_line, d.decl_line),
            decl_column: or_else(e.decl_column, d.decl_column),
        },
        None => d,
    }
}

/// The plain-value view of a map of locals.
pub open spec fn local_map_view(m: Map<u32, DwarfLocalData>) -> Map<u32, LocalDataView> {
    m.map_values(|d: DwarfLocalData| d@)
}

/// What is known of a local in a map, if anything.
pub open spec fn spec_known_local(m: Map<u32, DwarfLocalData>, index: u32) -> Option<LocalDataView> {
    if m.contains_key(index) {
        Some(m[index]@)
    } else {
        None
    }
}

/// Merges `data` into what `locals` knows of the local `local_index`.
fn merge_local_data(locals: &mut HashMap<u32, DwarfLocalData>, local_index: u32, data: DwarfLocalData)
    ensures
        local_map_view(final(locals)@) == local_map_view(old(locals)@).insert(
            local_index,
            spec_merge_local(spec_known_local(old(locals)@, local_index), data@),
        ),
{
    let mut data = data;
    let ghost dv = data@;
    match locals.remove(&local_index) {
        Some(mut entry) => {
            let ghost ev = entry@;
            if entry.name.is_none() {
                entry.name = data.name;
            }
            if entry.decl_file.is_none() {
                entry.decl_file = data.decl_file;
            }
            if entry.decl_line.is_none() {
                entry.decl_line = data.decl_line;
            }
            if entry.decl_column.is_none() {
                entry.decl_column = data.decl_column;
            }
            if data.locations.len() != 0 {
                entry.locations.append(&mut data.locations);
            }
            proof {
                assert(crate::debug_info::descriptors_view(entry.locations@) =~= ev.locations
                    + dv.locations);
            }
            locals.insert(local_index, entry);
        },
        None => {
            locals.insert(local_index, data);
        },
    }
    proof {
        assert(local_map_view(locals@) =~= local_map_view(old(locals)@).insert(
            local_index,
            spec_merge_local(spec_known_local(old(locals)@, local_index), dv),
        ));
    }
}

/// The fallback local of an entry: a formal parameter's position among the parameters.
pub open spec fn spec_fallback_index(tag: DieTag, param_counter: u32) -> Option<u32> {
    if tag is FormalParameter {
        Some(param_counter)
    } else {
        None
    }
}

/// The variables scheduled by one decoded entry.
pub open spec fn spec_scheduled_seq(scheduled: Option<LocalDataView>) -> Seq<LocalDataView> {
    match scheduled {
        Some(d) => seq![d],
        None => Seq::empty(),
    }
}

/// Records one entry met while walking the entries below a subprogram, and returns whether the
/// entries below it are to be walked too (they are not for an inlined subroutine).
///
/// A formal parameter or variable is decoded (a formal parameter falling back to its position
/// among the parameters, counted by `param_counter`); a variable attached to a Wasm local is
/// merged into `locals`, and one tracked by its explicit locations is appended to `scheduled`.
pub fn visit_variable_node(
    tag: DieTag,
    attrs: &[VariableAttr],
    low_pc: u64,
    high_pc: Option<u64>,
    frame_base_global: Option<u32>,
    locals: &mut HashMap<u32, DwarfLocalData>,
    scheduled: &mut Vec<DwarfLocalData>,
    param_counter: &mut u32,
) -> (r: Result<bool, DwarfReadError>)
    requires
        tag is FormalParameter ==> *old(param_counter) < u32::MAX,
    ensures
        *final(param_counter) == if tag is FormalParameter {
            *old(param_counter) + 1
        } else {
            *old(param_counter) as int
        },
        !(tag is FormalParameter || tag is Variable) ==> {
            &&& r == Ok::<bool, DwarfReadError>(!(tag is InlinedSubroutine))
            &&& final(locals)@ == old(locals)@
            &&& final(scheduled)@ == old(scheduled)@
        },
        (tag is FormalParameter || tag is Variable) ==> match spec_decode_variable(
            attrs@,
            low_pc,
            high_pc,
            frame_base_global,
            spec_fallback_index(tag, *old(param_counter)),
        ) {
            Err(()) => {
                &&& r is Err
                &&& final(locals)@ == old(locals)@
                &&& final(scheduled)@ == old(scheduled)@
            },
            Ok((attached, sched)) => {
                &&& r == Ok::<bool, DwarfReadError>(true)
                &&& local_map_view(final(locals)@) == match attached {
                    Some((i, d)) => local_map_view(old(locals)@).insert(
                        i,
                        spec_merge_local(spec_known_local(old(locals)@, i), d),
                    ),
                    None => local_map_view(old(locals)@),
                }
                &&& local_data_views(final(scheduled)@) == local_data_views(old(scheduled)@)
                    + spec_scheduled_seq(sched)
            },
        },
{
    match tag {
        DieTag::InlinedSubroutine => Ok(false),
        DieTag::Other => Ok(true),
        DieTag::FormalParameter | DieTag::Variable => {
            // A formal parameter's Wasm local is its position: parameters are the leading
            // Wasm locals.
            let fallback_index = if matches!(tag, DieTag::FormalParameter) {
                let index = *param_counter;
                *param_counter += 1;
                Some(index)
            } else {
                None
            };
            let ghost before = scheduled@;
            match decode_variable_entry(
                attrs,
                low_pc,
                high_pc,
                frame_base_global,
                fallback_index,
                scheduled,
            ) {
                Err(e) => Err(e),
                Ok(attached) => {
                    proof {
                        assert(local_data_views(scheduled@) =~= local_data_views(before)
                            + spec_scheduled_seq(
                            spec_decode_variable(
                                attrs@,
                                low_pc,
                                high_pc,
                                frame_base_global,
                                fallback_index,
                            )->Ok_0.1,
                        ));
                    }
                    if let Some((local_index, data)) = attached {
                        merge_local_data(locals, local_index, data);
                    }
                    Ok(true)
                },
            }
        },
    }
}

/// The location holding a function's frame base.
#[derive(Clone, Copy, Debug, PartialEq, Eq)]
pub enum FrameBase {
    /// A Wasm global.
    Global(u32),
    /// A Wasm local.
    Local(u32),
}

/// An attribute of a subprogram entry, as read. Attributes that play no part in resolving the
/// subprogram are left out.
#[derive(Debug)]
pub enum SubprogramAttr {
    /// `DW_AT_name`, when its string could be read.
    Name(String),
    /// `DW_AT_linkage_name`, when its string could be read.
    LinkageName(String),
    /// `DW_AT_low_pc` as an address or a constant.
    LowPc(u64),
    /// `DW_AT_high_pc` as an address.
    HighPcAddr(u64),
    /// `DW_AT_high_pc` as a size from the low pc.
    HighPcSize(u64),
    /// `DW_AT_frame_base` as a location expression, given by its operations.
    FrameBaseExpr(Vec<DwarfOp>),
}

/// The Wasm function a subprogram entry describes, with its code range and frame base.
#[derive(Clone, Copy, Debug, PartialEq, Eq)]
pub struct SubprogramInfo {
    /// The function's index.
    pub func_index: u32,
    /// The start of the function's code.
    pub low_pc: u64,
    /// The end of the function's code, if known.
    pub high_pc: Option<u64>,
    /// The location of the function's frame base, if known.
    pub frame_base: Option<FrameBase>,
}

/// The frame base a frame-base expression names, starting from `current`: the last Wasm local
/// or global it names before any unreadable operation.
pub open spec fn spec_frame_base_of(ops: Seq<DwarfOp>, current: Option<FrameBase>) -> Option<FrameBase>
    decreases ops.len(),
{
    if ops.len() == 0 {
        current
    } else {
        match ops[0] {
            DwarfOp::Unreadable => current,
            DwarfOp::WasmLocal { index } => spec_frame_base_of(ops.drop_first(), Some(FrameBase::Local(index))),
            DwarfOp::WasmGlobal { index } => spec_frame_base_of(ops.drop_first(), Some(FrameBase::Global(index))),
            _ => spec_frame_base_of(ops.drop_first(), current),
        }
    }
}

/// `a - b`, or zero when `b` is larger.
pub open spec fn spec_saturating_sub(a: u64, b: u64) -> u64 {
    if a >= b {
        (a - b) as u64
    } else {
        0
    }
}

/// What the attributes of a subprogram entry say, attribute by attribute: a name replaces any
/// earlier one, a linkage name is taken only while there is no name, and a high pc given as a
/// size counts from the low pc read before it (saturating).
pub open spec fn spec_subprogram_attrs(attrs: Seq<SubprogramAttr>) -> (
    Option<Seq<char>>,
    Option<u64>,
    Option<u64>,
    Option<FrameBase>,
)
    decreases attrs.len(),
{
    if attrs.len() == 0 {
        (None, None, None, None)
    } else {
        let (name, low, high, fb) = spec_subprogram_attrs(attrs.drop_last());
        match attrs.last() {
            SubprogramAttr::Name(n) => (Some(n@), low, high, fb),
            SubprogramAttr::LinkageName(n) => (
                if name is None {
                    Some(n@)
                } else {
                    name
                },
                low,
                high,
                fb,
            ),
            SubprogramAttr::LowPc(a) => (name, Some(a), high, fb),
            SubprogramAttr::HighPcAddr(a) => (name, low, Some(a), fb),
            SubprogramAttr::HighPcSize(size) => (
                name,
                low,
                match low {
                    Some(base) => Some(
                        if base + size > u64::MAX {
                            u64::MAX
                        } else {
                            (base + size) as u64
                        },
                    ),
                    None => high,
                },
                fb,
            ),
            SubprogramAttr::FrameBaseExpr(ops) => (name, low, high, spec_frame_base_of(ops@, fb)),
        }
    }
}

/// The index of the last function named `name`.
pub open spec fn spec_function_named(functions: Seq<(String, u32)>, name: Seq<char>) -> Option<u32>
    decreases functions.len(),
{
    if functions.len() == 0 {
        None
    } else if functions.last().0@ == name {
        Some(functions.last().1)
    } else {
        spec_function_named(functions.drop_last(), name)
    }
}

/// The index of the last function whose body starts at `low_pc` within the code section.
pub open spec fn spec_function_at(bodies: Seq<(u64, u32)>, code_section_offset: u64, low_pc: u64) -> Option<
    u32,
>
    decreases bodies.len(),
{
    if bodies.len() == 0 {
        None
    } else if spec_saturating_sub(bodies.last().0, code_section_offset) == low_pc {
        Some(bodies.last().1)
    } else {
        spec_function_at(bodies.drop_last(), code_section_offset, low_pc)
    }
}

/// The function a subprogram entry describes: the function with its name when there is one,
/// else the function whose body starts at its low pc.
pub open spec fn spec_resolve_subprogram(
    attrs: Seq<SubprogramAttr>,
    functions: Seq<(String, u32)>,
    bodies: Seq<(u64, u32)>,
    code_section_offset: u64,
) -> Option<SubprogramInfo> {
    let (name, low, high, fb) = spec_subprogram_attrs(attrs);
    let by_name = match name {
        Some(n) => spec_function_named(functions, n),
        None => None,
    };
    match by_name {
        Some(f) => Some(
            SubprogramInfo {
                func_index: f,
                low_pc: match low {
                    Some(l) => l,
                    None => 0,
                },
                high_pc: high,
                frame_base: fb,
            },
        ),
        None => match low {
            Some(base) => match spec_function_at(bodies, code_section_offset, base) {
                Some(f) => Some(
                    SubprogramInfo { func_index: f, low_pc: base, high_pc: high, frame_base: fb },
                ),
                None => None,
            },
            None => None,
        },
    }
}

/// The frame base named by a frame-base expression, starting from `current`.
fn frame_base_of(ops: &[DwarfOp], current: Option<FrameBase>) -> (r: Option<FrameBase>)
    ensures
        r == spec_frame_base_of(ops@, current),
{
    let mut frame_base = current;
    let mut i: usize = 0;
    assert(ops@.skip(0) =~= ops@);
    while i < ops.len()
        invariant
            i <= ops@.len(),
            spec_frame_base_of(ops@, current) == spec_frame_base_of(ops@.skip(i as int), frame_base),
        decreases ops@.len() - i,
    {
        assert(ops@.skip(i as int).drop_first() =~= ops@.skip(i + 1));
        assert(ops@.skip(i as int)[0] == ops@[i as int]);
        match ops[i] {
            DwarfOp::Unreadable => {
                return frame_base;
            },
            DwarfOp::WasmLocal { index } => frame_base = Some(FrameBase::Local(index)),
            DwarfOp::WasmGlobal { index } => frame_base = Some(FrameBase::Global(index)),
            _ => {},
        }
        i += 1;
    }
    assert(ops@.skip(ops@.len() as int) =~= Seq::<DwarfOp>::empty());
    frame_base
}

/// Resolves the Wasm function a subprogram entry describes, from its attributes, the names of
/// the module's functions (with their indices, later entries taking precedence), and the code
/// offsets of the defined functions' bodies (with their indices, later entries taking
/// precedence) relative to `code_section_offset`.
pub fn resolve_subprogram_target(
    attrs: &[SubprogramAttr],
    functions: &[(String, u32)],
    bodies: &[(u64, u32)],
    code_section_offset: u64,
) -> (r: Option<SubprogramInfo>)
    ensures
        r == spec_resolve_subprogram(attrs@, functions@, bodies@, code_section_offset),
{
    let mut name: Option<&String> = None;
    let mut low_pc: Option<u64> = None;
    let mut high_pc: Option<u64> = None;
    let mut frame_base: Option<FrameBase> = None;
    let mut i: usize = 0;
    assert(attrs@.take(0) =~= Seq::<SubprogramAttr>::empty());
    while i < attrs.len()
        invariant
            i <= attrs@.len(),
            ({
                let (n, l, h, f) = spec_subprogram_attrs(attrs@.take(i as int));
                &&& match name {
                    Some(x) => n == Some(x@),
                    None => n is None,
                }
                &&& low_pc == l
                &&& high_pc == h
                &&& frame_base == f
            }),
        decreases attrs@.len() - i,
    {
        assert(attrs@.take(i + 1).drop_last() =~= attrs@.take(i as int));
        assert(attrs@.take(i + 1).last() == attrs@[i as int]);
        match &attrs[i] {
            SubprogramAttr::Name(n) => name = Some(n),
            SubprogramAttr::LinkageName(n) => {
                if name.is_none() {
                    name = Some(n);
                }
            },
            SubprogramAttr::LowPc(a) => low_pc = Some(*a),
            SubprogramAttr::HighPcAddr(a) => high_pc = Some(*a),
            SubprogramAttr::HighPcSize(size) => {
                if let Some(base) = low_pc {
                    high_pc = Some(
                        if base > u64::MAX - *size {
                            u64::MAX
                        } else {
                            base + *size
                        },
                    );
                }
            },
            SubprogramAttr::FrameBaseExpr(ops) => {
                // The frame base is a Wasm local (Rust-generated Wasm commonly uses one as the
                // frame pointer) or a Wasm global (such as `__stack_pointer`).
                frame_base = frame_base_of(ops.as_slice(), frame_base);
            },
        }
        i += 1;
    }
    assert(attrs@.take(attrs@.len() as int) =~= attrs@);
    let ghost name_view: Option<Seq<char>> = match name {
        Some(x) => Some(x@),
        None => None,
    };
    assert(spec_subprogram_attrs(attrs@) == (name_view, low_pc, high_pc, frame_base));
    if let Some(n) = name {
        let mut k = functions.len();
        assert(functions@.take(k as int) =~= functions@);
        while k > 0
            invariant
                k <= functions@.len(),
                name_view == Some(n@),
                spec_subprogram_attrs(attrs@) == (name_view, low_pc, high_pc, frame_base),
                spec_function_named(functions@, n@) == spec_function_named(
                    functions@.take(k as int),
                    n@,
                ),
            decreases k,
        {
            assert(functions@.take(k as int).drop_last() =~= functions@.take(k - 1));
            assert(functions@.take(k as int).last() == functions@[k - 1]);
            if functions[k - 1].0 == *n {
                let f = functions[k - 1].1;
                let low = match low_pc {
                    Some(l) => l,
                    None => 0,
                };
                return Some(SubprogramInfo { func_index: f, low_pc: low, high_pc, frame_base });
            }
            k -= 1;
        }
        assert(functions@.take(0) =~= Seq::<(String, u32)>::empty());
    }
    if let Some(base) = low_pc {
        let mut k = bodies.len();
        assert(bodies@.take(k as int) =~= bodies@);
        while k > 0
            invariant
                k <= bodies@.len(),
                low_pc == Some(base),
                spec_subprogram_attrs(attrs@) == (name_view, low_pc, high_pc, frame_base),
                match name_view {
                    Some(nv) => spec_function_named(functions@, nv) is None,
                    None => true,
                },
                spec_function_at(bodies@, code_section_offset, base) == spec_function_at(
                    bodies@.take(k as int),
                    code_section_offset,
                    base,
                ),
            decreases k,
        {
            assert(bodies@.take(k as int).drop_last() =~= bodies@.take(k - 1));
            assert(bodies@.take(k as int).last() == bodies@[k - 1]);
            let (offset, f) = bodies[k - 1];
            let adjusted = if offset >= code_section_offset {
                offset - code_section_offset
            } else {
                0
            };
            if adjusted == base {
                return Some(SubprogramInfo { func_index: f, low_pc: base, high_pc, frame_base });
            }
            k -= 1;
        }
        assert(bodies@.take(0) =~= Seq::<(u64, u32)>::empty());
    }
    None
}

} // verus!
