//! Debug information gathered from a Wasm module's DWARF sections: where source variables live
//! (Wasm locals, globals, operand-stack slots, constants, or frame-relative memory) and when
//! those locations change during a function.

use vstd::prelude::*;

use std::collections::HashMap;

use crate::dwarf::DwarfLocalData;

verus! {

broadcast use vstd::std_specs::hash::group_hash_axioms;

/// One operation of a variable-location expression.
#[derive(Clone, Copy, Debug, PartialEq, Eq)]
pub enum ExpressionOp {
    /// The value is in the given Wasm local.
    WasmLocal(u32),
    /// The value is in the given Wasm global.
    WasmGlobal(u32),
    /// The value is in the given Wasm operand-stack slot (counted from the top).
    WasmStack(u32),
    /// An unsigned constant.
    ConstU64(u64),
    /// A signed constant.
    ConstS64(i64),
    /// Adds an unsigned constant to the value on top of the expression stack.
    PlusUConst(u64),
    /// Subtraction of the two top values.
    Minus,
    /// Addition of the two top values.
    Plus,
    /// Dereference of the address on top of the expression stack.
    Deref,
    /// The value on top of the expression stack is the variable's value (not its address).
    StackValue,
    /// Frame base plus a byte offset.
    FrameBase {
        /// The Wasm global (or encoded Wasm local) holding the frame base.
        global_index: u32,
        /// The byte offset from the frame base.
        byte_offset: i64,
    },
    /// A fixed address.
    Address {
        /// The address.
        address: u64,
    },
    /// A piece of the variable, in bytes.
    Piece(u64),
    /// A piece of the variable, in bits.
    BitPiece {
        /// The size of the piece in bits.
        size: u64,
        /// The bit offset of the piece.
        offset: u64,
    },
    /// An operation that cannot be represented, with the name of the source operation.
    Unsupported(&'static str),
}

/// A variable-location expression: a sequence of operations.
#[derive(Debug, PartialEq, Eq)]
pub struct Expression {
    /// The operations, in order.
    pub operations: Vec<ExpressionOp>,
}

impl View for Expression {
    type V = Seq<ExpressionOp>;

    open spec fn view(&self) -> Seq<ExpressionOp> {
        self.operations@
    }
}

impl Clone for Expression {
    fn clone(&self) -> (r: Self)
        ensures
            r@ == self@,
    {
        let operations = self.operations.clone();
        proof {
            assert(operations@ =~= self.operations@);
        }
        Expression { operations }
    }
}

impl Expression {
    /// Creates an expression from its operations.
    pub fn with_ops(operations: Vec<ExpressionOp>) -> (r: Self)
        ensures
            r@ == operations@,
    {
        Expression { operations }
    }
}

/// Where a variable is stored.
#[derive(Clone, Debug, PartialEq, Eq)]
pub enum VariableStorage {
    /// A Wasm local.
    Local(u32),
    /// A Wasm global.
    Global(u32),
    /// A Wasm operand-stack slot.
    Stack(u32),
    /// A constant value.
    ConstU64(u64),
    /// Frame base + byte offset — from DW_OP_fbreg.
    ///
    /// For Wasm-global frame bases, `global_index` is the Wasm global index.
    /// For Wasm-local frame bases, it is the encoded Wasm local index.
    FrameBase {
        /// The frame base location.
        global_index: u32,
        /// The byte offset from the frame base.
        byte_offset: i64,
    },
    /// A storage that cannot be represented.
    Unsupported,
}

impl VariableStorage {
    /// The Wasm local holding the variable, if that is where it is stored.
    pub fn as_local(&self) -> (r: Option<u32>)
        ensures
            r == (match *self {
                VariableStorage::Local(index) => Some(index),
                _ => None,
            }),
    {
        match self {
            VariableStorage::Local(index) => Some(*index),
            _ => None,
        }
    }

    /// The location-expression operation describing this storage.
    pub fn to_expression_op(&self) -> (r: ExpressionOp)
        ensures
            r == spec_storage_op(*self),
    {
        match self {
            VariableStorage::Local(idx) => ExpressionOp::WasmLocal(*idx),
            VariableStorage::Global(idx) => ExpressionOp::WasmGlobal(*idx),
            VariableStorage::Stack(idx) => ExpressionOp::WasmStack(*idx),
            VariableStorage::ConstU64(val) => ExpressionOp::ConstU64(*val),
            VariableStorage::FrameBase { global_index, byte_offset } => ExpressionOp::FrameBase {
                global_index: *global_index,
                byte_offset: *byte_offset,
            },
            VariableStorage::Unsupported => ExpressionOp::Unsupported("unsupported"),
        }
    }
}

/// The location-expression operation of a storage; an unsupported storage maps to an
/// unsupported operation named "unsupported".
pub open spec fn spec_storage_op(s: VariableStorage) -> ExpressionOp {
    match s {
        VariableStorage::Local(idx) => ExpressionOp::WasmLocal(idx),
        VariableStorage::Global(idx) => ExpressionOp::WasmGlobal(idx),
        VariableStorage::Stack(idx) => ExpressionOp::WasmStack(idx),
        VariableStorage::ConstU64(val) => ExpressionOp::ConstU64(val),
        VariableStorage::FrameBase { global_index, byte_offset } => ExpressionOp::FrameBase {
            global_index,
            byte_offset,
        },
        VariableStorage::Unsupported => ExpressionOp::Unsupported("unsupported"),
    }
}

/// A location of a variable over a range of code offsets.
#[derive(Clone, Debug, PartialEq, Eq)]
pub struct LocationDescriptor {
    /// Inclusive start offset within the function's code, relative to the Wasm code section.
    pub start: u64,
    /// Exclusive end offset. `None` indicates the location is valid until the end of the function.
    pub end: Option<u64>,
    /// Where the variable is stored over this range.
    pub storage: Expression,
}

/// A location descriptor as plain values: start offset, end offset, and location operations.
pub type DescriptorView = (u64, Option<u64>, Seq<ExpressionOp>);

impl View for LocationDescriptor {
    type V = DescriptorView;

    open spec fn view(&self) -> DescriptorView {
        (self.start, self.end, self.storage@)
    }
}

/// The plain-value views of a sequence of location descriptors.
pub open spec fn descriptors_view(s: Seq<LocationDescriptor>) -> Seq<DescriptorView> {
    s.map_values(|d: LocationDescriptor| d@)
}

/// Copies a list of location descriptors.
pub fn clone_descriptors(ds: &Vec<LocationDescriptor>) -> (r: Vec<LocationDescriptor>)
    ensures
        descriptors_view(r@) == descriptors_view(ds@),
{
    let mut r: Vec<LocationDescriptor> = Vec::new();
    let mut i: usize = 0;
    while i < ds.len()
        invariant
            i <= ds@.len(),
            r@.len() == i,
            descriptors_view(r@) == descriptors_view(ds@.take(i as int)),
        decreases ds@.len() - i,
    {
        let d = &ds[i];
        let ghost before = r@;
        r.push(LocationDescriptor { start: d.start, end: d.end, storage: d.storage.clone() });
        assert(ds@.take(i + 1) =~= ds@.take(i as int).push(*d));
        assert(r@ =~= before.push(r@[i as int]));
        assert(descriptors_view(r@) =~= descriptors_view(before).push(d@));
        assert(descriptors_view(ds@.take(i + 1)) =~= descriptors_view(ds@.take(i as int)).push(
            d@,
        ));
        i += 1;
    }
    assert(ds@.take(ds@.len() as int) =~= ds@);
    r
}

/// A change of a variable's location at a code offset.
#[derive(Clone, Debug, PartialEq, Eq)]
pub struct LocationScheduleEntry {
    /// The code offset at which the change takes effect.
    pub offset: u64,
    /// The index of the variable among the function's debug locals.
    pub var_index: usize,
    /// The variable's new location, or `None` when its location range ends here.
    pub storage: Option<Expression>,
}

/// A schedule entry as plain values: offset, variable index, and new location operations.
pub type ScheduleEntryView = (u64, usize, Option<Seq<ExpressionOp>>);

/// The plain-value view of a schedule entry.
pub open spec fn entry_view(e: LocationScheduleEntry) -> ScheduleEntryView {
    (
        e.offset,
        e.var_index,
        match e.storage {
            Some(x) => Some(x@),
            None => None,
        },
    )
}

/// The plain-value views of a sequence of schedule entries.
pub open spec fn schedule_view(s: Seq<LocationScheduleEntry>) -> Seq<ScheduleEntryView> {
    s.map_values(|e: LocationScheduleEntry| entry_view(e))
}

/// A variable as described by debug information.
#[derive(Clone, Debug, PartialEq, Eq)]
pub struct DebugVariable {
    /// The variable's source name.
    pub name: String,
    /// The file declaring the variable.
    pub file: String,
    /// The declaration line.
    pub line: u32,
    /// The declaration column, if known.
    pub column: Option<u32>,
    /// The parameter position, for function parameters.
    pub arg_index: Option<u32>,
    /// The variable's IR type, by name, when the local's Wasm type converts to one.
    pub ty: Option<String>,
}

/// Debug information about one local of a function.
#[derive(Clone, Debug)]
pub struct LocalDebugInfo {
    /// The source variable.
    pub attr: DebugVariable,
    /// The variable's locations over the function's code.
    pub locations: Vec<LocationDescriptor>,
    /// The variable's location when it has exactly one for the whole function.
    pub expression: Option<Expression>,
}

/// The first Wasm local named by `ops`.
pub open spec fn spec_first_local(ops: Seq<ExpressionOp>) -> Option<u32>
    decreases ops.len(),
{
    if ops.len() == 0 {
        None
    } else {
        match ops[0] {
            ExpressionOp::WasmLocal(index) => Some(index),
            _ => spec_first_local(ops.drop_first()),
        }
    }
}

/// The first Wasm operand-stack slot named by `ops`.
pub open spec fn spec_first_stack_slot(ops: Seq<ExpressionOp>) -> Option<u32>
    decreases ops.len(),
{
    if ops.len() == 0 {
        None
    } else {
        match ops[0] {
            ExpressionOp::WasmStack(index) => Some(index),
            _ => spec_first_stack_slot(ops.drop_first()),
        }
    }
}

/// Returns the first Wasm local named by a location expression.
pub fn local_index_from_expression(storage: &Expression) -> (r: Option<u32>)
    ensures
        r == spec_first_local(storage@),
{
    let ops = &storage.operations;
    let mut i: usize = 0;
    assert(ops@.skip(0) =~= ops@);
    while i < ops.len()
        invariant
            i <= ops@.len(),
            ops@ == storage@,
            spec_first_local(ops@) == spec_first_local(ops@.skip(i as int)),
        decreases ops@.len() - i,
    {
        assert(ops@.skip(i as int).drop_first() =~= ops@.skip(i + 1));
        assert(ops@.skip(i as int)[0] == ops@[i as int]);
        if let ExpressionOp::WasmLocal(index) = &ops[i] {
            return Some(*index);
        }
        i += 1;
    }
    None
}

/// Returns the value in the Wasm operand-stack slot named by a location expression, counting
/// slots from the top of `wasm_stack` (its last element).
pub fn wasm_stack_value_from_expression<T: Copy>(expression: &Expression, wasm_stack: &[T]) -> (r:
    Option<T>)
    ensures
        r == (match spec_first_stack_slot(expression@) {
            Some(index) => if index < wasm_stack@.len() {
                Some(wasm_stack@[wasm_stack@.len() - 1 - index])
            } else {
                None
            },
            None => None,
        }),
{
    let ops = &expression.operations;
    let mut i: usize = 0;
    assert(ops@.skip(0) =~= ops@);
    while i < ops.len()
        invariant
            i <= ops@.len(),
            spec_first_stack_slot(expression@) == spec_first_stack_slot(ops@.skip(i as int)),
            ops@ == expression@,
        decreases ops@.len() - i,
    {
        assert(ops@.skip(i as int).drop_first() =~= ops@.skip(i + 1));
        assert(ops@.skip(i as int)[0] == ops@[i as int]);
        if let ExpressionOp::WasmStack(index) = &ops[i] {
            let index = *index as usize;
            if index < wasm_stack.len() {
                return Some(wasm_stack[wasm_stack.len() - 1 - index]);
            } else {
                return None;
            }
        }
        i += 1;
    }
    None
}

/// Operations that name where a value lives.
pub open spec fn spec_is_location_op(op: ExpressionOp) -> bool {
    match op {
        ExpressionOp::WasmLocal(_) | ExpressionOp::WasmGlobal(_) | ExpressionOp::WasmStack(_)
        | ExpressionOp::ConstU64(_) | ExpressionOp::ConstS64(_) | ExpressionOp::FrameBase { .. }
        | ExpressionOp::Address { .. } => true,
        _ => false,
    }
}

/// Operations that make an expression unrepresentable: pieces and unsupported operations.
pub open spec fn spec_is_unsupported_op(op: ExpressionOp) -> bool {
    match op {
        ExpressionOp::Piece(_) | ExpressionOp::BitPiece { .. } | ExpressionOp::Unsupported(_) => true,
        _ => false,
    }
}

/// An expression is a supported location when it holds no piece or unsupported operation and
/// names at least one location.
pub open spec fn spec_is_supported_location(ops: Seq<ExpressionOp>) -> bool {
    &&& forall|i: int| 0 <= i < ops.len() ==> !spec_is_unsupported_op(#[trigger] ops[i])
    &&& exists|i: int| 0 <= i < ops.len() && spec_is_location_op(#[trigger] ops[i])
}

/// Returns whether a location expression can be represented as a variable location.
pub fn is_supported_location_expression(storage: &Expression) -> (r: bool)
    ensures
        r == spec_is_supported_location(storage@),
{
    let ops = &storage.operations;
    let mut has_location = false;
    let mut i: usize = 0;
    while i < ops.len()
        invariant
            i <= ops@.len(),
            ops@ == storage@,
            forall|j: int| 0 <= j < i ==> !spec_is_unsupported_op(#[trigger] ops@[j]),
            has_location == exists|j: int| 0 <= j < i && spec_is_location_op(#[trigger] ops@[j]),
        decreases ops@.len() - i,
    {
        match &ops[i] {
            ExpressionOp::WasmLocal(_)
            | ExpressionOp::WasmGlobal(_)
            | ExpressionOp::WasmStack(_)
            | ExpressionOp::ConstU64(_)
            | ExpressionOp::ConstS64(_)
            | ExpressionOp::FrameBase { .. }
            | ExpressionOp::Address { .. } => {
                has_location = true;
            },
            ExpressionOp::Piece(_) | ExpressionOp::BitPiece { .. } | ExpressionOp::Unsupported(_) => {
                return false;
            },
            ExpressionOp::PlusUConst(_)
            | ExpressionOp::Minus
            | ExpressionOp::Plus
            | ExpressionOp::Deref
            | ExpressionOp::StackValue => {},
        }
        i += 1;
    }
    has_location
}

/// Returns the location of a variable that has exactly one location descriptor.
pub fn fixed_location_expression(locations: &[LocationDescriptor]) -> (r: Option<Expression>)
    ensures
        locations@.len() == 1 ==> r is Some && r->Some_0@ == locations@[0].storage@,
        locations@.len() != 1 ==> r is None,
{
    if locations.len() == 1 {
        Some(locations[0].storage.clone())
    } else {
        None
    }
}

/// Whether a debug attribute without a location takes the location of a source span: only an
/// attribute with no line and no column is filled, only from a span with a line, and not from
/// a span at line 1 with column 1 or no column.
pub open spec fn spec_should_fill(
    current_line: u32,
    current_column: Option<u32>,
    span_line: u32,
    span_column: Option<u32>,
) -> bool {
    current_line == 0 && current_column is None && span_line != 0 && !(span_line == 1 && (
    span_column is None || span_column == Some(1u32)))
}

/// Whether a debug attribute without a location should take the location of a source span.
///
/// Only an attribute with no line and no column is filled, and only from a span with a line.
/// Rust/wasm DWARF sometimes maps prologue/epilogue-style instructions to the first byte of
/// the source file; such spans (line 1, column 1 or unknown) are not used.
pub fn should_fill_debug_attr_location(
    current_line: u32,
    current_column: Option<u32>,
    span_line: u32,
    span_column: Option<u32>,
) -> (r: bool)
    ensures
        r == spec_should_fill(current_line, current_column, span_line, span_column),
{
    if current_line != 0 || current_column.is_some() || span_line == 0 {
        return false;
    }
    !(span_line == 1 && match span_column {
        None => true,
        Some(column) => column == 1,
    })
}

/// The schedule entries of one location descriptor of variable `var_index`: nothing when its
/// location is unsupported; otherwise the start of the location, followed by its end when the
/// location does not last until the end of the function.
pub open spec fn spec_descriptor_entries(var_index: usize, d: LocationDescriptor) -> Seq<
    ScheduleEntryView,
> {
    if !spec_is_supported_location(d.storage@) {
        Seq::empty()
    } else {
        seq![(d.start, var_index, Some(d.storage@))] + match d.end {
            Some(end) => seq![(end, var_index, None::<Seq<ExpressionOp>>)],
            None => Seq::empty(),
        }
    }
}

/// The schedule entries of a variable's location descriptors, in order.
pub open spec fn spec_locations_entries(var_index: usize, ds: Seq<LocationDescriptor>) -> Seq<
    ScheduleEntryView,
>
    decreases ds.len(),
{
    if ds.len() == 0 {
        Seq::empty()
    } else {
        spec_locations_entries(var_index, ds.drop_last()) + spec_descriptor_entries(
            var_index,
            ds.last(),
        )
    }
}

/// The schedule entries of all locals, variable by variable, before sorting.
pub open spec fn spec_unsorted_schedule(locals: Seq<Option<LocalDebugInfo>>) -> Seq<
    ScheduleEntryView,
>
    decreases locals.len(),
{
    if locals.len() == 0 {
        Seq::empty()
    } else {
        spec_unsorted_schedule(locals.drop_last()) + match locals.last() {
            Some(info) => spec_locations_entries((locals.len() - 1) as usize, info.locations@),
            None => Seq::empty(),
        }
    }
}

/// Whether an operation is a piece, a bit piece or an operation that cannot be represented.
pub open spec fn spec_is_piece_or_unsupported(op: ExpressionOp) -> bool {
    op is Piece || op is BitPiece || op is Unsupported
}

/// A location expression is representable exactly when none of its operations is a piece, a bit
/// piece or unsupported, and one of them names where the value lives (a Wasm local, global or
/// operand-stack slot, a constant, a frame-base offset or an address).
pub proof fn lemma_supported_location_characterized(ops: Seq<ExpressionOp>)
    ensures
        spec_is_supported_location(ops) <==> ((forall|i: int|
            0 <= i < ops.len() ==> !spec_is_piece_or_unsupported(#[trigger] ops[i])) && exists|i: int|
            0 <= i < ops.len() && {
                let op = #[trigger] ops[i];
                op is WasmLocal || op is WasmGlobal || op is WasmStack || op is ConstU64
                    || op is ConstS64 || op is FrameBase || op is Address
            }),
{
    if spec_is_supported_location(ops) {
        let i = choose|i: int| 0 <= i < ops.len() && spec_is_location_op(#[trigger] ops[i]);
        assert(spec_is_location_op(ops[i]));
        assert forall|j: int| 0 <= j < ops.len() implies !spec_is_piece_or_unsupported(
            #[trigger] ops[j],
        ) by {
            assert(!spec_is_unsupported_op(ops[j]));
        }
    }
    if (forall|i: int| 0 <= i < ops.len() ==> !spec_is_piece_or_unsupported(#[trigger] ops[i]))
        && exists|i: int|
        0 <= i < ops.len() && {
            let op = #[trigger] ops[i];
            op is WasmLocal || op is WasmGlobal || op is WasmStack || op is ConstU64 || op is ConstS64
                || op is FrameBase || op is Address
        } {
        let i = choose|i: int|
            0 <= i < ops.len() && {
                let op = #[trigger] ops[i];
                op is WasmLocal || op is WasmGlobal || op is WasmStack || op is ConstU64
                    || op is ConstS64 || op is FrameBase || op is Address
            };
        assert(spec_is_location_op(ops[i]));
        assert forall|j: int| 0 <= j < ops.len() implies !spec_is_unsupported_op(#[trigger] ops[j]) by {
            assert(!spec_is_piece_or_unsupported(ops[j]));
        }
    }
}

/// An expression holding a piece, a bit piece or an unsupported operation anywhere is never a
/// representable location.
pub proof fn lemma_pieces_are_never_locations(ops: Seq<ExpressionOp>, i: int)
    requires
        0 <= i < ops.len(),
        spec_is_piece_or_unsupported(ops[i]),
    ensures
        !spec_is_supported_location(ops),
{
    lemma_supported_location_characterized(ops);
}

/// Every location a variable's descriptors schedule is representable.
proof fn lemma_locations_entries_supported(v: usize, ds: Seq<LocationDescriptor>)
    ensures
        forall|j: int|
            0 <= j < spec_locations_entries(v, ds).len() && (#[trigger] spec_locations_entries(v, ds)[j]).2
                is Some ==> spec_is_supported_location(spec_locations_entries(v, ds)[j].2->Some_0),
    decreases ds.len(),
{
    if ds.len() > 0 {
        lemma_locations_entries_supported(v, ds.drop_last());
        let a = spec_locations_entries(v, ds.drop_last());
        let b = spec_descriptor_entries(v, ds.last());
        assert(spec_locations_entries(v, ds) == a + b);
        assert forall|j: int|
            0 <= j < (a + b).len() && (#[trigger] (a + b)[j]).2 is Some implies spec_is_supported_location(
            (a + b)[j].2->Some_0,
        ) by {
            if j < a.len() {
                assert((a + b)[j] == a[j]);
            } else {
                assert((a + b)[j] == b[j - a.len()]);
            }
        }
    }
}

/// A function's location schedule never places a variable at an unrepresentable location: every
/// location it starts holds no piece, bit piece or unsupported operation, and names where the
/// value lives.
pub proof fn lemma_schedule_locations_are_representable(locals: Seq<Option<LocalDebugInfo>>)
    ensures
        forall|j: int|
            0 <= j < spec_unsorted_schedule(locals).len() && (#[trigger] spec_unsorted_schedule(
                locals,
            )[j]).2 is Some ==> {
                let ops = spec_unsorted_schedule(locals)[j].2->Some_0;
                &&& forall|k: int| 0 <= k < ops.len() ==> !spec_is_piece_or_unsupported(#[trigger] ops[k])
                &&& spec_is_supported_location(ops)
            },
    decreases locals.len(),
{
    if locals.len() > 0 {
        lemma_schedule_locations_are_representable(locals.drop_last());
        let a = spec_unsorted_schedule(locals.drop_last());
        let b = match locals.last() {
            Some(info) => spec_locations_entries((locals.len() - 1) as usize, info.locations@),
            None => Seq::empty(),
        };
        if let Some(info) = locals.last() {
            lemma_locations_entries_supported((locals.len() - 1) as usize, info.locations@);
        }
        assert(spec_unsorted_schedule(locals) == a + b);
        assert forall|j: int|
            0 <= j < (a + b).len() && (#[trigger] (a + b)[j]).2 is Some implies {
                let ops = (a + b)[j].2->Some_0;
                &&& forall|k: int| 0 <= k < ops.len() ==> !spec_is_piece_or_unsupported(#[trigger] ops[k])
                &&& spec_is_supported_location(ops)
            } by {
            if j < a.len() {
                assert((a + b)[j] == a[j]);
            } else {
                assert((a + b)[j] == b[j - a.len()]);
            }
            lemma_supported_location_characterized((a + b)[j].2->Some_0);
        }
    }
}

/// The sort key of a schedule entry: its offset, then location ends before location starts.
pub open spec fn schedule_key(e: ScheduleEntryView) -> (u64, bool) {
    (e.0, e.2 is Some)
}

/// The order on sort keys: by offset, then `false` before `true`.
pub open spec fn key_le(a: (u64, bool), b: (u64, bool)) -> bool {
    a.0 < b.0 || (a.0 == b.0 && (!a.1 || b.1))
}

/// The entries of `s` with key `k`, in their order in `s`.
pub open spec fn spec_with_key(s: Seq<ScheduleEntryView>, k: (u64, bool)) -> Seq<
    ScheduleEntryView,
>
    decreases s.len(),
{
    if s.len() == 0 {
        Seq::empty()
    } else {
        spec_with_key(s.drop_last(), k) + if schedule_key(s.last()) == k {
            seq![s.last()]
        } else {
            Seq::empty()
        }
    }
}

/// `s` is ordered by key.
pub open spec fn spec_sorted_by_key(s: Seq<ScheduleEntryView>) -> bool {
    forall|i: int, j: int|
        0 <= i < j < s.len() ==> key_le(schedule_key(#[trigger] s[i]), schedule_key(#[trigger] s[j]))
}

/// `a` and `b` hold the same entries for every key, in the same order.
pub open spec fn spec_same_per_key(a: Seq<ScheduleEntryView>, b: Seq<ScheduleEntryView>) -> bool {
    forall|k: (u64, bool)| #[trigger] spec_with_key(a, k) == spec_with_key(b, k)
}

/// `out` is the stable sort of `inp` by key: ordered by key, and for every key holding the
/// entries of `inp` with that key in their original order.
pub open spec fn spec_is_stable_sort_of(
    out: Seq<ScheduleEntryView>,
    inp: Seq<ScheduleEntryView>,
) -> bool {
    spec_sorted_by_key(out) && spec_same_per_key(out, inp)
}

/// The entries with a key of a concatenation are those of each part.
proof fn lemma_with_key_append(a: Seq<ScheduleEntryView>, b: Seq<ScheduleEntryView>, k: (u64, bool))
    ensures
        spec_with_key(a + b, k) == spec_with_key(a, k) + spec_with_key(b, k),
    decreases b.len(),
{
    if b.len() == 0 {
        assert(a + b =~= a);
        assert(spec_with_key(a, k) + spec_with_key(b, k) =~= spec_with_key(a, k));
    } else {
        lemma_with_key_append(a, b.drop_last(), k);
        assert((a + b).drop_last() =~= a + b.drop_last());
        assert((a + b).last() == b.last());
        assert(spec_with_key(a + b, k) =~= spec_with_key(a, k) + spec_with_key(b, k));
    }
}

/// A sequence with no entry of key `k` has no entries with that key.
proof fn lemma_with_key_none(b: Seq<ScheduleEntryView>, k: (u64, bool))
    requires
        forall|i: int| 0 <= i < b.len() ==> schedule_key(#[trigger] b[i]) != k,
    ensures
        spec_with_key(b, k) == Seq::<ScheduleEntryView>::empty(),
    decreases b.len(),
{
    if b.len() > 0 {
        lemma_with_key_none(b.drop_last(), k);
        assert(spec_with_key(b, k) =~= Seq::<ScheduleEntryView>::empty());
    }
}

/// Whether the key of `e` is greater than `k`.
fn key_greater(e: &LocationScheduleEntry, k: (u64, bool)) -> (r: bool)
    ensures
        r == !key_le(schedule_key(entry_view(*e)), k),
{
    let has_storage = e.storage.is_some();
    e.offset > k.0 || (e.offset == k.0 && has_storage && !k.1)
}

/// Inserts `x` into the sorted `schedule` after every entry whose key is not greater than its
/// key, keeping the schedule sorted and stable.
fn insert_sorted(schedule: &mut Vec<LocationScheduleEntry>, x: LocationScheduleEntry)
    requires
        spec_sorted_by_key(schedule_view(old(schedule)@)),
    ensures
        spec_sorted_by_key(schedule_view(final(schedule)@)),
        forall|k: (u64, bool)|
            #[trigger] spec_with_key(
                schedule_view(final(schedule)@),
                k,
            ) == spec_with_key(
                schedule_view(old(schedule)@).push(
                    entry_view(x),
                ),
                k,
            ),
{
    let ghost old_view = schedule_view(schedule@);
    let ghost xv = entry_view(x);
    let x_key = (x.offset, x.storage.is_some());
    let mut p = schedule.len();
    while p > 0 && key_greater(&schedule[p - 1], x_key)
        invariant
            p <= schedule@.len(),
            schedule_view(schedule@) == old_view,
            x_key == schedule_key(xv),
            forall|j: int|
                p <= j < old_view.len() ==> !key_le(schedule_key(#[trigger] old_view[j]), x_key),
        decreases p,
    {
        p -= 1;
    }
    proof {
        if p > 0 {
            assert(old_view[p - 1] == entry_view(schedule@[p - 1]));
            assert(key_le(schedule_key(old_view[p - 1]), x_key));
        }
    }
    schedule.insert(p, x);
    proof {
        let new_view = schedule_view(schedule@);
        let pre = old_view.subrange(0, p as int);
        let post = old_view.subrange(p as int, old_view.len() as int);
        assert(new_view =~= pre + seq![xv] + post);
        assert(old_view =~= pre + post);
        assert forall|k: (u64, bool)| #[trigger]
            spec_with_key(new_view, k) == spec_with_key(old_view.push(xv), k) by {
            lemma_with_key_append(pre + seq![xv], post, k);
            lemma_with_key_append(pre, seq![xv], k);
            lemma_with_key_append(pre, post, k);
            assert(seq![xv].drop_last() =~= Seq::<ScheduleEntryView>::empty());
            assert(seq![xv].last() == xv);
            assert(spec_with_key(Seq::<ScheduleEntryView>::empty(), k) =~= Seq::<
                ScheduleEntryView,
            >::empty());
            assert(old_view.push(xv).drop_last() =~= old_view);
            assert(old_view.push(xv).last() == xv);
            if schedule_key(xv) == k {
                assert forall|i: int| 0 <= i < post.len() implies schedule_key(#[trigger] post[i])
                    != k by {
                    assert(post[i] == old_view[p + i]);
                }
                lemma_with_key_none(post, k);
                assert(spec_with_key(new_view, k) =~= spec_with_key(old_view.push(xv), k));
            } else {
                assert(spec_with_key(seq![xv], k) =~= Seq::<ScheduleEntryView>::empty());
                assert(spec_with_key(new_view, k) =~= spec_with_key(old_view.push(xv), k));
            }
        }
        assert forall|i: int, j: int| 0 <= i < j < new_view.len() implies key_le(
            schedule_key(#[trigger] new_view[i]),
            schedule_key(#[trigger] new_view[j]),
        ) by {
            if j < p {
                assert(new_view[i] == old_view[i] && new_view[j] == old_view[j]);
            } else if j == p {
                assert(new_view[i] == old_view[i]);
                assert(key_le(schedule_key(old_view[i]), schedule_key(old_view[p - 1])));
            } else if i < p {
                assert(new_view[i] == old_view[i] && new_view[j] == old_view[j - 1]);
                assert(key_le(schedule_key(old_view[i]), schedule_key(old_view[p - 1])));
            } else if i == p {
                assert(new_view[j] == old_view[j - 1]);
            } else {
                assert(new_view[i] == old_view[i - 1] && new_view[j] == old_view[j - 1]);
            }
        }
    }
}

/// Appending an entry appends it to the entries of its key.
proof fn lemma_with_key_push(s: Seq<ScheduleEntryView>, x: ScheduleEntryView, k: (u64, bool))
    ensures
        spec_with_key(s.push(x), k) == spec_with_key(s, k) + if schedule_key(x) == k {
            seq![x]
        } else {
            Seq::<ScheduleEntryView>::empty()
        },
{
    assert(s.push(x).drop_last() =~= s);
    assert(s.push(x).last() == x);
}

/// Inserts `x` into `schedule`, where `schedule` holds per key the entries of `target`, so that
/// it then holds per key the entries of `target` followed by `x`.
fn insert_scheduled(
    schedule: &mut Vec<LocationScheduleEntry>,
    x: LocationScheduleEntry,
    Ghost(target): Ghost<Seq<ScheduleEntryView>>,
)
    requires
        spec_is_stable_sort_of(schedule_view(old(schedule)@), target),
    ensures
        spec_is_stable_sort_of(schedule_view(final(schedule)@), target.push(entry_view(x))),
{
    let ghost xv = entry_view(x);
    let ghost before = schedule_view(schedule@);
    insert_sorted(schedule, x);
    proof {
        assert forall|k: (u64, bool)| #[trigger]
            spec_with_key(schedule_view(schedule@), k) == spec_with_key(target.push(xv), k) by {
            lemma_with_key_push(before, xv, k);
            lemma_with_key_push(target, xv, k);
            assert(spec_with_key(before, k) == spec_with_key(target, k));
        }
    }
}

/// Builds the location schedule of a function: for every supported location of every local, an
/// entry where the location starts and, when the location has an end, an entry where it ends;
/// ordered by offset, location ends before location starts at the same offset, and otherwise in
/// the order the locals and their locations are given (a stable sort).
pub fn build_location_schedule(locals: &[Option<LocalDebugInfo>]) -> (r: Vec<LocationScheduleEntry>)
    ensures
        spec_is_stable_sort_of(schedule_view(r@), spec_unsorted_schedule(locals@)),
{
    let mut schedule: Vec<LocationScheduleEntry> = Vec::new();
    let mut var_index: usize = 0;
    proof {
        assert(locals@.take(0) =~= Seq::<Option<LocalDebugInfo>>::empty());
        assert(schedule_view(schedule@) =~= Seq::<ScheduleEntryView>::empty());
    }
    while var_index < locals.len()
        invariant
            var_index <= locals@.len(),
            spec_is_stable_sort_of(
                schedule_view(schedule@),
                spec_unsorted_schedule(locals@.take(var_index as int)),
            ),
        decreases locals@.len() - var_index,
    {
        let ghost done = spec_unsorted_schedule(locals@.take(var_index as int));
        proof {
            assert(locals@.take(var_index + 1).drop_last() =~= locals@.take(var_index as int));
            assert(locals@.take(var_index + 1).last() == locals@[var_index as int]);
        }
        match &locals[var_index] {
            None => {
                assert(spec_unsorted_schedule(locals@.take(var_index + 1)) =~= done);
            },
            Some(info) => {
                let mut j: usize = 0;
                assert(info.locations@.take(0) =~= Seq::<LocationDescriptor>::empty());
                assert(done + spec_locations_entries(var_index, info.locations@.take(0)) =~= done);
                while j < info.locations.len()
                    invariant
                        j <= info.locations@.len(),
                        spec_is_stable_sort_of(
                            schedule_view(schedule@),
                            done + spec_locations_entries(var_index, info.locations@.take(j as int)),
                        ),
                    decreases info.locations@.len() - j,
                {
                    let d = &info.locations[j];
                    let ghost prefix = done + spec_locations_entries(
                        var_index,
                        info.locations@.take(j as int),
                    );
                    proof {
                        assert(info.locations@.take(j + 1).drop_last() =~= info.locations@.take(
                            j as int,
                        ));
                        assert(info.locations@.take(j + 1).last() == *d);
                    }
                    if is_supported_location_expression(&d.storage) {
                        let start = LocationScheduleEntry {
                            offset: d.start,
                            var_index,
                            storage: Some(d.storage.clone()),
                        };
                        let ghost sv = entry_view(start);
                        insert_scheduled(&mut schedule, start, Ghost(prefix));
                        match d.end {
                            Some(end) => {
                                let stop = LocationScheduleEntry {
                                    offset: end,
                                    var_index,
                                    storage: None,
                                };
                                insert_scheduled(&mut schedule, stop, Ghost(prefix.push(sv)));
                                assert(prefix.push(sv).push(entry_view(stop)) =~= prefix
                                    + spec_descriptor_entries(var_index, *d));
                            },
                            None => {
                                assert(prefix.push(sv) =~= prefix + spec_descriptor_entries(
                                    var_index,
                                    *d,
                                ));
                            },
                        }
                    } else {
                        assert(prefix + spec_descriptor_entries(var_index, *d) =~= prefix);
                    }
                    assert(done + spec_locations_entries(var_index, info.locations@.take(j + 1))
                        =~= prefix + spec_descriptor_entries(var_index, *d));
                    j += 1;
                }
                assert(info.locations@.take(info.locations@.len() as int) =~= info.locations@);
            },
        }
        var_index += 1;
    }
    assert(locals@.take(locals@.len() as int) =~= locals@);
    schedule
}

/// A variable's description as plain values: name, file, line, column, parameter position, IR
/// type.
pub type DebugVariableView = (Seq<char>, Seq<char>, u32, Option<u32>, Option<u32>, Option<Seq<char>>);

/// The view of an optional string.
pub open spec fn opt_string_view(s: Option<String>) -> Option<Seq<char>> {
    match s {
        Some(x) => Some(x@),
        None => None,
    }
}

impl View for DebugVariable {
    type V = DebugVariableView;

    open spec fn view(&self) -> DebugVariableView {
        (self.name@, self.file@, self.line, self.column, self.arg_index, opt_string_view(self.ty))
    }
}

/// A local's debug information as plain values: the variable, its locations, and its fixed
/// location.
pub type LocalDebugInfoView = (DebugVariableView, Seq<DescriptorView>, Option<Seq<ExpressionOp>>);

impl View for LocalDebugInfo {
    type V = LocalDebugInfoView;

    open spec fn view(&self) -> LocalDebugInfoView {
        (
            self.attr@,
            descriptors_view(self.locations@),
            match self.expression {
                Some(e) => Some(e@),
                None => None,
            },
        )
    }
}

/// The plain-value view of an optional local.
pub open spec fn opt_info_view(o: Option<LocalDebugInfo>) -> Option<LocalDebugInfoView> {
    match o {
        Some(info) => Some(info@),
        None => None,
    }
}

/// A function as described by debug information.
#[derive(Clone, Debug, PartialEq, Eq)]
pub struct Subprogram {
    /// The function's name.
    pub name: String,
    /// The file defining the function.
    pub file: String,
    /// The line of the definition.
    pub line: u32,
    /// The column of the definition, if known.
    pub column: Option<u32>,
    /// Whether this describes the function's definition.
    pub is_definition: bool,
}

/// The decimal digit for `d < 10`.
pub open spec fn decimal_digit(d: nat) -> char {
    if d == 0 {
        '0'
    } else if d == 1 {
        '1'
    } else if d == 2 {
        '2'
    } else if d == 3 {
        '3'
    } else if d == 4 {
        '4'
    } else if d == 5 {
        '5'
    } else if d == 6 {
        '6'
    } else if d == 7 {
        '7'
    } else if d == 8 {
        '8'
    } else {
        '9'
    }
}

/// The decimal representation of `n`, without leading zeros.
pub open spec fn spec_decimal(n: nat) -> Seq<char>
    decreases n,
{
    if n < 10 {
        seq![decimal_digit(n)]
    } else {
        spec_decimal(n / 10).push(decimal_digit(n % 10))
    }
}

/// `prefix` followed by `index` in decimal, formatted by `format!` (an integer's `Display`
/// writes its decimal representation).
#[verifier::external_body]
fn indexed_name(prefix: &str, index: usize) -> (r: String)
    ensures
        r@ == prefix@ + spec_decimal(index as nat),
{
    format!("{prefix}{index}")
}

/// The entry for local `index` in the DWARF locals of a function, if any.
pub open spec fn spec_dwarf_entry(dwarf_locals: Option<&HashMap<u32, DwarfLocalData>>, index: u32) -> Option<
    DwarfLocalData,
> {
    match dwarf_locals {
        Some(m) => if m@.contains_key(index) {
            Some(m@[index])
        } else {
            None
        },
        None => None,
    }
}

/// The debug description of a variable named `name` of `subprogram`, refined by what the DWARF
/// data says of it: its file, its line when not zero, and its column when known.
pub open spec fn spec_variable_attr(
    name: Seq<char>,
    subprogram: Subprogram,
    dwarf: Option<DwarfLocalData>,
    arg_index: Option<u32>,
    ty: Option<Seq<char>>,
) -> DebugVariableView {
    match dwarf {
        Some(d) => (
            name,
            match d.decl_file {
                Some(f) => f@,
                None => subprogram.file@,
            },
            match d.decl_line {
                Some(l) => if l != 0 {
                    l
                } else {
                    subprogram.line
                },
                None => subprogram.line,
            },
            if d.decl_column is Some {
                d.decl_column
            } else {
                subprogram.column
            },
            arg_index,
            ty,
        ),
        None => (name, subprogram.file@, subprogram.line, subprogram.column, arg_index, ty),
    }
}

/// The name of local `index`: the DWARF name, else the module's name for it, else `prefix`
/// followed by the index.
pub open spec fn spec_local_name(
    prefix: Seq<char>,
    index: u32,
    local_names: Map<u32, String>,
    dwarf: Option<DwarfLocalData>,
) -> Seq<char> {
    match dwarf {
        Some(d) if d.name is Some => d.name->Some_0@,
        _ => if local_names.contains_key(index) {
            local_names[index]@
        } else {
            prefix + spec_decimal(index as nat)
        },
    }
}

/// The fixed location of a variable with the given locations: its only location, if it has
/// exactly one.
pub open spec fn spec_fixed_location(ds: Seq<DescriptorView>) -> Option<Seq<ExpressionOp>> {
    if ds.len() == 1 {
        Some(ds[0].2)
    } else {
        None
    }
}

/// The debug information of a local described by `attr` and the DWARF entry `dwarf`.
pub open spec fn spec_info_with(attr: DebugVariableView, dwarf: Option<DwarfLocalData>) -> LocalDebugInfoView {
    let ds = match dwarf {
        Some(d) => descriptors_view(d.locations@),
        None => Seq::empty(),
    };
    (attr, ds, spec_fixed_location(ds))
}

/// The debug information of parameter `index`, of IR type `ty`.
pub open spec fn spec_param_info(
    index: u32,
    ty: Option<Seq<char>>,
    local_names: Map<u32, String>,
    subprogram: Subprogram,
    dwarf_locals: Option<&HashMap<u32, DwarfLocalData>>,
) -> LocalDebugInfoView {
    let dwarf = spec_dwarf_entry(dwarf_locals, index);
    spec_info_with(
        spec_variable_attr(
            spec_local_name("arg"@, index, local_names, dwarf),
            subprogram,
            dwarf,
            Some(index),
            ty,
        ),
        dwarf,
    )
}

/// The debug information of the non-parameter local `index`, of IR type `ty`: none when the
/// function has DWARF variables but neither DWARF nor the module names this local.
pub open spec fn spec_local_info(
    index: u32,
    ty: Option<Seq<char>>,
    has_dwarf_locals: bool,
    local_names: Map<u32, String>,
    subprogram: Subprogram,
    dwarf_locals: Option<&HashMap<u32, DwarfLocalData>>,
) -> Option<LocalDebugInfoView> {
    let dwarf = spec_dwarf_entry(dwarf_locals, index);
    if has_dwarf_locals && dwarf is None && !local_names.contains_key(index) {
        None
    } else {
        Some(
            spec_info_with(
                spec_variable_attr(
                    spec_local_name("local"@, index, local_names, dwarf),
                    subprogram,
                    dwarf,
                    None,
                    ty,
                ),
                dwarf,
            ),
        )
    }
}

/// The debug information of a variable tracked only by its explicit locations: named `?` when
/// unnamed, with its own column (even when unknown).
pub open spec fn spec_scheduled_info(var: DwarfLocalData, subprogram: Subprogram) -> LocalDebugInfoView {
    let ds = descriptors_view(var.locations@);
    (
        (
            match var.name {
                Some(n) => n@,
                None => "?"@,
            },
            match var.decl_file {
                Some(f) => f@,
                None => subprogram.file@,
            },
            match var.decl_line {
                Some(l) => if l != 0 {
                    l
                } else {
                    subprogram.line
                },
                None => subprogram.line,
            },
            var.decl_column,
            None,
            None,
        ),
        ds,
        spec_fixed_location(ds),
    )
}

/// The total of the local counts of a function's local declarations.
pub open spec fn spec_count_sum(counts: Seq<u32>) -> nat
    decreases counts.len(),
{
    if counts.len() == 0 {
        0
    } else {
        spec_count_sum(counts.drop_last()) + counts.last() as nat
    }
}

/// A prefix of the declarations declares no more locals than all of them.
proof fn lemma_count_sum_prefix(counts: Seq<u32>, k: int)
    requires
        0 <= k <= counts.len(),
    ensures
        spec_count_sum(counts.take(k)) <= spec_count_sum(counts),
    decreases counts.len() - k,
{
    if k < counts.len() {
        assert(counts.take(k + 1).drop_last() =~= counts.take(k));
        lemma_count_sum_prefix(counts, k + 1);
    } else {
        assert(counts.take(k) =~= counts);
    }
}

/// Whether a function has DWARF variables: attached to locals or scheduled.
pub open spec fn spec_has_dwarf_locals(
    dwarf_locals: Option<&HashMap<u32, DwarfLocalData>>,
    scheduled_vars: Option<&Vec<DwarfLocalData>>,
) -> bool {
    (dwarf_locals is Some && dwarf_locals->Some_0@.len() > 0) || (scheduled_vars is Some
        && scheduled_vars->Some_0@.len() > 0)
}

/// The debug description of a local from its name and DWARF entry.
fn variable_attr(
    name: String,
    subprogram: &Subprogram,
    dwarf: Option<&DwarfLocalData>,
    arg_index: Option<u32>,
    ty: Option<String>,
) -> (r: DebugVariable)
    ensures
        r@ == spec_variable_attr(
            name@,
            *subprogram,
            match dwarf {
                Some(d) => Some(*d),
                None => None,
            },
            arg_index,
            opt_string_view(ty),
        ),
{
    let mut attr = DebugVariable {
        name,
        file: subprogram.file.clone(),
        line: subprogram.line,
        column: subprogram.column,
        arg_index,
        ty,
    };
    if let Some(info) = dwarf {
        if let Some(file) = &info.decl_file {
            attr.file = file.clone();
        }
        if let Some(line) = info.decl_line {
            if line != 0 {
                attr.line = line;
            }
        }
        if info.decl_column.is_some() {
            attr.column = info.decl_column;
        }
    }
    attr
}

/// The debug information of a local described by `attr` and its DWARF entry.
fn info_with(attr: DebugVariable, dwarf: Option<&DwarfLocalData>) -> (r: LocalDebugInfo)
    ensures
        r@ == spec_info_with(
            attr@,
            match dwarf {
                Some(d) => Some(*d),
                None => None,
            },
        ),
{
    let locations = match dwarf {
        Some(info) => clone_descriptors(&info.locations),
        None => Vec::new(),
    };
    assert(locations@.len() == descriptors_view(locations@).len());
    let expression = fixed_location_expression(locations.as_slice());
    LocalDebugInfo { attr, locations, expression }
}

/// The local counts of a function's local declarations.
pub open spec fn entry_counts(entries: Seq<(u32, Option<String>)>) -> Seq<u32> {
    entries.map_values(|e: (u32, Option<String>)| e.0)
}

/// The number of locals a function's local declarations declare.
pub open spec fn spec_local_count(entries: Seq<(u32, Option<String>)>) -> nat {
    spec_count_sum(entry_counts(entries))
}

/// The IR types of a function's declared locals, one per local, in order: each declaration
/// `(count, ty)` contributes `count` locals of type `ty`.
pub open spec fn spec_flat_types(entries: Seq<(u32, Option<String>)>) -> Seq<Option<Seq<char>>>
    decreases entries.len(),
{
    if entries.len() == 0 {
        Seq::empty()
    } else {
        let last = entries.last();
        spec_flat_types(entries.drop_last()) + Seq::new(
            last.0 as nat,
            |k: int| opt_string_view(last.1),
        )
    }
}

/// Every declared local has a type in `spec_flat_types`.
proof fn lemma_flat_types_len(entries: Seq<(u32, Option<String>)>)
    ensures
        spec_flat_types(entries).len() == spec_local_count(entries),
    decreases entries.len(),
{
    if entries.len() > 0 {
        lemma_flat_types_len(entries.drop_last());
        assert(entry_counts(entries.drop_last()) =~= entry_counts(entries).drop_last());
    }
}

/// Copies an optional string.
fn clone_opt_string(s: &Option<String>) -> (r: Option<String>)
    ensures
        r == *s,
{
    match s {
        Some(x) => Some(x.clone()),
        None => None,
    }
}

/// Expands a function's local declarations into the IR types of its locals, one per local.
fn flatten_local_types(entries: &[(u32, Option<String>)]) -> (r: Vec<Option<String>>)
    requires
        spec_local_count(entries@) <= u32::MAX,
    ensures
        r@.len() == spec_local_count(entries@),
        forall|k: int| 0 <= k < r@.len() ==> opt_string_view(#[trigger] r@[k]) == spec_flat_types(entries@)[k],
{
    let mut out: Vec<Option<String>> = Vec::new();
    let mut e: usize = 0;
    while e < entries.len()
        invariant
            e <= entries@.len(),
            spec_local_count(entries@) <= u32::MAX,
            out@.len() == spec_flat_types(entries@.take(e as int)).len(),
            forall|k: int|
                0 <= k < out@.len() ==> opt_string_view(#[trigger] out@[k]) == spec_flat_types(
                    entries@.take(e as int),
                )[k],
        decreases entries@.len() - e,
    {
        let ghost pre = entries@.take(e as int);
        let ghost next = entries@.take(e + 1);
        proof {
            assert(next.drop_last() =~= pre);
            lemma_flat_types_len(pre);
            lemma_flat_types_len(next);
            lemma_flat_types_len(entries@);
            assert(entry_counts(next) =~= entry_counts(entries@).take(e + 1));
            lemma_count_sum_prefix(entry_counts(entries@), e + 1);
        }
        let count = entries[e].0;
        let mut c: u32 = 0;
        while c < count
            invariant
                c <= count,
                e < entries@.len(),
                count == entries@[e as int].0,
                out@.len() == spec_flat_types(pre).len() + c,
                spec_flat_types(next).len() <= u32::MAX,
                spec_flat_types(next) == spec_flat_types(pre) + Seq::new(
                    count as nat,
                    |k: int| opt_string_view(entries@[e as int].1),
                ),
                forall|k: int|
                    0 <= k < out@.len() ==> opt_string_view(#[trigger] out@[k]) == spec_flat_types(
                        next,
                    )[k],
            decreases count - c,
        {
            out.push(clone_opt_string(&entries[e].1));
            c += 1;
        }
        e += 1;
    }
    assert(entries@.take(entries@.len() as int) =~= entries@);
    proof {
        lemma_flat_types_len(entries@);
    }
    out
}

/// Builds the debug information of a function's locals: its parameters, then its declared
/// locals, then the variables tracked only by their explicit DWARF locations.
///
/// Parameters and locals are named from DWARF, else from the module's name section
/// (`local_names`), else `arg{index}` / `local{index}`; they take their declaration file, line
/// and column from DWARF where known and from the subprogram otherwise. When the function has
/// DWARF variables, a declared local that neither DWARF nor the name section describes gets no
/// debug information.
pub fn build_local_debug_info(
    param_types: &[Option<String>],
    local_entries: &[(u32, Option<String>)],
    local_names: &HashMap<u32, String>,
    subprogram: &Subprogram,
    dwarf_locals: Option<&HashMap<u32, DwarfLocalData>>,
    scheduled_vars: Option<&Vec<DwarfLocalData>>,
) -> (r: Vec<Option<LocalDebugInfo>>)
    requires
        param_types@.len() + spec_local_count(local_entries@) <= u32::MAX,
    ensures
        ({
            let param_count = param_types@.len();
            let total = param_count + spec_local_count(local_entries@);
            let scheduled = match scheduled_vars {
                Some(v) => v@,
                None => Seq::empty(),
            };
            &&& r@.len() == total + scheduled.len()
            &&& forall|i: int|
                0 <= i < param_count ==> opt_info_view(#[trigger] r@[i]) == Some(
                    spec_param_info(
                        i as u32,
                        opt_string_view(param_types@[i]),
                        local_names@,
                        *subprogram,
                        dwarf_locals,
                    ),
                )
            &&& forall|i: int|
                param_count <= i < total ==> opt_info_view(#[trigger] r@[i]) == spec_local_info(
                    i as u32,
                    spec_flat_types(local_entries@)[i - param_count],
                    spec_has_dwarf_locals(dwarf_locals, scheduled_vars),
                    local_names@,
                    *subprogram,
                    dwarf_locals,
                )
            &&& forall|j: int|
                0 <= j < scheduled.len() ==> opt_info_view(#[trigger] r@[total + j]) == Some(
                    spec_scheduled_info(scheduled[j], *subprogram),
                )
        }),
{
    let param_count = param_types.len();
    let local_types = flatten_local_types(local_entries);
    let local_count = local_types.len();
    let ghost flat = spec_flat_types(local_entries@);
    proof {
        lemma_flat_types_len(local_entries@);
    }
    let total = param_count + local_count;
    let mut locals: Vec<Option<LocalDebugInfo>> = Vec::new();
    while locals.len() < total
        invariant
            locals@.len() <= total,
            forall|i: int| 0 <= i < locals@.len() ==> #[trigger] locals@[i] is None,
        decreases total - locals@.len(),
    {
        locals.push(None);
    }
    let has_dwarf_locals = (match dwarf_locals {
        Some(m) => m.len() != 0,
        None => false,
    }) || (match scheduled_vars {
        Some(v) => v.len() != 0,
        None => false,
    });
    let mut p: usize = 0;
    while p < param_count
        invariant
            p <= param_count <= total,
            param_count == param_types@.len(),
            total <= u32::MAX,
            locals@.len() == total,
            forall|i: int|
                0 <= i < p ==> opt_info_view(#[trigger] locals@[i]) == Some(
                    spec_param_info(
                        i as u32,
                        opt_string_view(param_types@[i]),
                        local_names@,
                        *subprogram,
                        dwarf_locals,
                    ),
                ),
            forall|i: int| p <= i < total ==> #[trigger] locals@[i] is None,
        decreases param_count - p,
    {
        let index = p as u32;
        let dwarf_entry = match dwarf_locals {
            Some(m) => m.get(&index),
            None => None,
        };
        let name = match dwarf_entry {
            Some(DwarfLocalData { name: Some(n), .. }) => n.clone(),
            _ => match local_names.get(&index) {
                Some(n) => n.clone(),
                None => indexed_name("arg", p),
            },
        };
        let attr = variable_attr(name, subprogram, dwarf_entry, Some(index), clone_opt_string(&param_types[p]));
        let info = info_with(attr, dwarf_entry);
        locals.set(p, Some(info));
        p += 1;
    }
    let mut next_local_index: usize = param_count;
    while next_local_index < total
        invariant
            param_count <= next_local_index <= total,
            param_count == param_types@.len(),
            total == param_count + local_types@.len(),
            flat == spec_flat_types(local_entries@),
            forall|k: int| 0 <= k < local_types@.len() ==> opt_string_view(#[trigger] local_types@[k]) == flat[k],
            total <= u32::MAX,
            locals@.len() == total,
            has_dwarf_locals == spec_has_dwarf_locals(dwarf_locals, scheduled_vars),
            forall|i: int|
                0 <= i < param_count ==> opt_info_view(#[trigger] locals@[i]) == Some(
                    spec_param_info(
                        i as u32,
                        opt_string_view(param_types@[i]),
                        local_names@,
                        *subprogram,
                        dwarf_locals,
                    ),
                ),
            forall|i: int|
                param_count <= i < next_local_index ==> opt_info_view(#[trigger] locals@[i])
                    == spec_local_info(
                    i as u32,
                    flat[i - param_count],
                    has_dwarf_locals,
                    local_names@,
                    *subprogram,
                    dwarf_locals,
                ),
            forall|i: int| next_local_index <= i < total ==> #[trigger] locals@[i] is None,
        decreases total - next_local_index,
    {
        let index = next_local_index as u32;
        let dwarf_entry = match dwarf_locals {
            Some(m) => m.get(&index),
            None => None,
        };
        let local_name = local_names.get(&index);
        if !(has_dwarf_locals && dwarf_entry.is_none() && local_name.is_none()) {
            let name = match dwarf_entry {
                Some(DwarfLocalData { name: Some(n), .. }) => n.clone(),
                _ => match local_name {
                    Some(n) => n.clone(),
                    None => indexed_name("local", next_local_index),
                },
            };
            let attr = variable_attr(
                name,
                subprogram,
                dwarf_entry,
                None,
                clone_opt_string(&local_types[next_local_index - param_count]),
            );
            let info = info_with(attr, dwarf_entry);
            locals.set(next_local_index, Some(info));
        }
        next_local_index += 1;
    }
    // Variables with explicit DWARF locations beyond the Wasm locals: they may move between
    // constants, Wasm locals, and frame-relative memory.
    if let Some(vars) = scheduled_vars {
        let mut j: usize = 0;
        while j < vars.len()
            invariant
                j <= vars@.len(),
                param_count <= total,
                param_count == param_types@.len(),
                flat == spec_flat_types(local_entries@),
                scheduled_vars == Some(vars),
                locals@.len() == total + j,
                forall|i: int|
                    0 <= i < param_count ==> opt_info_view(#[trigger] locals@[i]) == Some(
                        spec_param_info(
                        i as u32,
                        opt_string_view(param_types@[i]),
                        local_names@,
                        *subprogram,
                        dwarf_locals,
                    ),
                    ),
                forall|i: int|
                    param_count <= i < total ==> opt_info_view(#[trigger] locals@[i])
                        == spec_local_info(
                        i as u32,
                        flat[i - param_count],
                        spec_has_dwarf_locals(dwarf_locals, scheduled_vars),
                        local_names@,
                        *subprogram,
                        dwarf_locals,
                    ),
                forall|i: int|
                    0 <= i < j ==> opt_info_view(#[trigger] locals@[total + i]) == Some(
                        spec_scheduled_info(vars@[i], *subprogram),
                    ),
            decreases vars@.len() - j,
        {
            let var = &vars[j];
            let name = match &var.name {
                Some(n) => n.clone(),
                None => String::from_str("?"),
            };
            let mut attr = DebugVariable {
                name,
                file: subprogram.file.clone(),
                line: subprogram.line,
                column: var.decl_column,
                arg_index: None,
                ty: None,
            };
            if let Some(file) = &var.decl_file {
                attr.file = file.clone();
            }
            if let Some(line) = var.decl_line {
                if line != 0 {
                    attr.line = line;
                }
            }
            let info = info_with(attr, Some(var));
            let ghost before = locals@;
            locals.push(Some(info));
            assert forall|i: int| 0 <= i < total + j implies #[trigger] locals@[i] == before[i] by {}
            j += 1;
        }
    }
    locals
}

} // verus!
