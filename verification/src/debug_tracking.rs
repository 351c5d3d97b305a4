//! Debug-variable tracking while a function is translated: advancing through the location
//! schedule as code offsets are reached, and remembering which source variables currently live
//! in which Wasm locals.

use vstd::prelude::*;

use std::collections::HashMap;

use crate::dwarf::DwarfLocalData;

use crate::debug_info::{
    build_local_debug_info, build_location_schedule, entry_view, local_index_from_expression, schedule_view, should_fill_debug_attr_location,
    wasm_stack_value_from_expression, DebugVariable, Expression, ExpressionOp, LocalDebugInfo,
    LocationScheduleEntry, Subprogram,
};

verus! {

/// The compile unit of a function, as described by debug information.
#[derive(Clone, Debug, PartialEq, Eq)]
pub struct CompileUnit {
    /// The source language.
    pub language: String,
    /// The primary source file.
    pub file: String,
    /// The directory of the source file, if known.
    pub directory: Option<String>,
    /// The producer of the debug information, if known.
    pub producer: Option<String>,
}

/// The debug information of a function being translated.
pub struct FunctionDebugInfo {
    /// The compile unit of the function.
    pub compile_unit: CompileUnit,
    /// The function itself.
    pub subprogram: Subprogram,
    /// The debug information of the function's locals, by index.
    pub locals: Vec<Option<LocalDebugInfo>>,
    /// The location changes of the function's variables, ordered by offset.
    pub location_schedule: Vec<LocationScheduleEntry>,
    /// The position in `location_schedule` of the first change not yet applied.
    pub next_location_event: usize,
}

/// The position of the first schedule entry at or after `from` whose offset is past `offset`
/// (or the length of the schedule).
pub open spec fn spec_due_end(schedule: Seq<LocationScheduleEntry>, from: int, offset: u64) -> int
    decreases schedule.len() - from,
{
    if from >= schedule.len() || schedule[from].offset > offset {
        from
    } else {
        spec_due_end(schedule, from + 1, offset)
    }
}

/// The due end lies between the start and the end of the schedule.
proof fn lemma_due_end_bounds(schedule: Seq<LocationScheduleEntry>, from: int, offset: u64)
    requires
        0 <= from <= schedule.len(),
    ensures
        from <= spec_due_end(schedule, from, offset) <= schedule.len(),
    decreases schedule.len() - from,
{
    if from < schedule.len() && schedule[from].offset <= offset {
        lemma_due_end_bounds(schedule, from + 1, offset);
    }
}

/// Applying the location changes due at offset `o1` and then those due at a later offset `o2`
/// applies the same changes as applying those due at `o2` at once.
pub proof fn lemma_due_end_composes(schedule: Seq<LocationScheduleEntry>, from: int, o1: u64, o2: u64)
    requires
        0 <= from <= schedule.len(),
        o1 <= o2,
    ensures
        spec_due_end(schedule, spec_due_end(schedule, from, o1), o2) == spec_due_end(
            schedule,
            from,
            o2,
        ),
    decreases schedule.len() - from,
{
    if from < schedule.len() && schedule[from].offset <= o1 {
        lemma_due_end_composes(schedule, from + 1, o1, o2);
    }
}

/// Extending a subrange by one element pushes that element.
proof fn lemma_subrange_push(s: Seq<LocationScheduleEntry>, a: int, b: int)
    requires
        0 <= a <= b < s.len(),
    ensures
        s.subrange(a, b + 1) == s.subrange(a, b).push(s[b]),
{
    assert(s.subrange(a, b + 1) =~= s.subrange(a, b).push(s[b]));
}

impl FunctionDebugInfo {
    /// The debug description of local `index`, if it has debug information.
    pub fn local_attr(&self, index: usize) -> (r: Option<&DebugVariable>)
        ensures
            match r {
                Some(a) => index < self.locals@.len() && self.locals@[index as int] is Some
                    && self.locals@[index as int]->Some_0.attr == *a,
                None => !(index < self.locals@.len() && self.locals@[index as int] is Some),
            },
    {
        if index < self.locals.len() {
            match &self.locals[index] {
                Some(info) => Some(&info.attr),
                None => None,
            }
        } else {
            None
        }
    }

    /// Takes the location changes that are due at code offset `offset`: the entries from the
    /// first unapplied one up to the first whose offset is past `offset`, in schedule order.
    /// They are marked applied. When every change has been applied already, nothing is taken.
    pub fn take_due_location_events(&mut self, offset: u64) -> (r: Vec<LocationScheduleEntry>)
        ensures
            old(self).next_location_event >= old(self).location_schedule@.len() ==> r@.len() == 0
                && final(self).next_location_event == old(self).next_location_event,
            final(self).next_location_event == spec_due_end(
                old(self).location_schedule@,
                old(self).next_location_event as int,
                offset,
            ),
            final(self).location_schedule == old(self).location_schedule,
            final(self).locals == old(self).locals,
            final(self).subprogram == old(self).subprogram,
            final(self).compile_unit == old(self).compile_unit,
            old(self).next_location_event < old(self).location_schedule@.len() ==> schedule_view(r@)
                == schedule_view(
                old(self).location_schedule@.subrange(
                    old(self).next_location_event as int,
                    final(self).next_location_event as int,
                ),
            ),
    {
        let ghost start = self.next_location_event as int;
        let mut pending: Vec<LocationScheduleEntry> = Vec::new();
        if self.next_location_event >= self.location_schedule.len() {
            return pending;
        }
        proof {
            lemma_due_end_bounds(self.location_schedule@, start, offset);
        }
        while self.next_location_event < self.location_schedule.len()
            invariant_except_break
                0 <= start <= self.next_location_event <= self.location_schedule@.len(),
                self.location_schedule == old(self).location_schedule,
                self.locals == old(self).locals,
                self.subprogram == old(self).subprogram,
                self.compile_unit == old(self).compile_unit,
                spec_due_end(self.location_schedule@, start, offset) == spec_due_end(
                    self.location_schedule@,
                    self.next_location_event as int,
                    offset,
                ),
                schedule_view(pending@) == schedule_view(
                    self.location_schedule@.subrange(start, self.next_location_event as int),
                ),
            ensures
                start <= self.next_location_event <= self.location_schedule@.len(),
                self.location_schedule == old(self).location_schedule,
                self.locals == old(self).locals,
                self.subprogram == old(self).subprogram,
                self.compile_unit == old(self).compile_unit,
                self.next_location_event == spec_due_end(self.location_schedule@, start, offset),
                schedule_view(pending@) == schedule_view(
                    self.location_schedule@.subrange(start, self.next_location_event as int),
                ),
            decreases self.location_schedule@.len() - self.next_location_event,
        {
            let index = self.next_location_event;
            let entry = &self.location_schedule[index];
            if entry.offset > offset {
                break;
            }
            let copy = LocationScheduleEntry {
                offset: entry.offset,
                var_index: entry.var_index,
                storage: match &entry.storage {
                    Some(e) => Some(e.clone()),
                    None => None,
                },
            };
            let ghost before = pending@;
            pending.push(copy);
            proof {
                assert(entry_view(copy) == entry_view(self.location_schedule@[index as int]));
                assert(schedule_view(pending@) =~= schedule_view(before).push(entry_view(copy)));
                lemma_subrange_push(self.location_schedule@, start, index as int);
                assert(schedule_view(
                    self.location_schedule@.subrange(start, index + 1),
                ) =~= schedule_view(self.location_schedule@.subrange(start, index as int)).push(
                    entry_view(self.location_schedule@[index as int]),
                ));
            }
            self.next_location_event = index + 1;
        }
        pending
    }
}

/// Which source variables currently live in which Wasm locals: the attachments of variables
/// to locals, in the order they were made.
pub struct ActiveLocalVars {
    attachments: Vec<(u32, usize)>,
}

impl View for ActiveLocalVars {
    type V = Seq<(u32, usize)>;

    closed spec fn view(&self) -> Seq<(u32, usize)> {
        self.attachments@
    }
}

/// The variables attached to local `l`, in attachment order.
pub open spec fn spec_vars_of(s: Seq<(u32, usize)>, l: u32) -> Seq<usize>
    decreases s.len(),
{
    if s.len() == 0 {
        Seq::empty()
    } else {
        spec_vars_of(s.drop_last(), l) + if s.last().0 == l {
            seq![s.last().1]
        } else {
            Seq::empty()
        }
    }
}

/// The attachments of `s` other than those of variable `v`.
pub open spec fn spec_detach(s: Seq<(u32, usize)>, v: usize) -> Seq<(u32, usize)>
    decreases s.len(),
{
    if s.len() == 0 {
        Seq::empty()
    } else {
        spec_detach(s.drop_last(), v) + if s.last().1 != v {
            seq![s.last()]
        } else {
            Seq::empty()
        }
    }
}

/// `s` without the occurrences of `v`.
pub open spec fn spec_without(s: Seq<usize>, v: usize) -> Seq<usize>
    decreases s.len(),
{
    if s.len() == 0 {
        Seq::empty()
    } else {
        spec_without(s.drop_last(), v) + if s.last() != v {
            seq![s.last()]
        } else {
            Seq::empty()
        }
    }
}

/// The attachments after attaching variable `v` to local `l`: `v` is detached from every local
/// first, so that it lives in one local at a time.
pub open spec fn spec_attach(s: Seq<(u32, usize)>, l: u32, v: usize) -> Seq<(u32, usize)> {
    spec_detach(s, v).push((l, v))
}

/// Detaching a variable removes it from the variables of every local, and changes nothing else.
proof fn lemma_vars_of_detach(s: Seq<(u32, usize)>, v: usize, k: u32)
    ensures
        spec_vars_of(spec_detach(s, v), k) == spec_without(spec_vars_of(s, k), v),
    decreases s.len(),
{
    if s.len() > 0 {
        lemma_vars_of_detach(s.drop_last(), v, k);
        let d = spec_detach(s.drop_last(), v);
        let x = s.last();
        if x.1 != v {
            assert(spec_detach(s, v) =~= d.push(x));
            assert(d.push(x).drop_last() =~= d);
        } else {
            assert(spec_detach(s, v) =~= d);
        }
        let vs = spec_vars_of(s.drop_last(), k);
        if x.0 == k {
            assert(spec_vars_of(s, k) =~= vs.push(x.1));
            assert(vs.push(x.1).drop_last() =~= vs);
        } else {
            assert(spec_vars_of(s, k) =~= vs);
        }
        if x.0 == k && x.1 != v {
            assert(spec_vars_of(d.push(x), k) =~= spec_vars_of(d, k).push(x.1));
        }
        if x.0 != k && x.1 != v {
            assert(spec_vars_of(d.push(x), k) =~= spec_vars_of(d, k));
        }
    }
}

/// Attaching a pair appends its variable to the variables of its local only.
proof fn lemma_vars_of_push(s: Seq<(u32, usize)>, x: (u32, usize), k: u32)
    ensures
        spec_vars_of(s.push(x), k) == spec_vars_of(s, k) + if x.0 == k {
            seq![x.1]
        } else {
            Seq::<usize>::empty()
        },
{
    assert(s.push(x).drop_last() =~= s);
}

/// A variable without an occurrence in a list is not in it.
proof fn lemma_without_excludes(s: Seq<usize>, v: usize)
    ensures
        !spec_without(s, v).contains(v),
    decreases s.len(),
{
    if s.len() > 0 {
        lemma_without_excludes(s.drop_last(), v);
        let w = spec_without(s.drop_last(), v);
        if s.last() != v {
            assert(spec_without(s, v) =~= w.push(s.last()));
            if w.push(s.last()).contains(v) {
                let i = choose|i: int| 0 <= i < w.push(s.last()).len() && w.push(s.last())[i] == v;
                assert(w.contains(w[i]));
            }
        } else {
            assert(spec_without(s, v) =~= w);
        }
    }
}

/// After attaching variable `v` to local `l`, `v` is the last variable of `l` and in no other
/// local, and the other variables of every local stay as they were, in order.
pub proof fn lemma_attach_moves_variable(s: Seq<(u32, usize)>, l: u32, v: usize, k: u32)
    ensures
        spec_vars_of(spec_attach(s, l, v), l) == spec_without(spec_vars_of(s, l), v).push(v),
        k != l ==> spec_vars_of(spec_attach(s, l, v), k) == spec_without(spec_vars_of(s, k), v),
        k != l ==> !spec_vars_of(spec_attach(s, l, v), k).contains(v),
{
    lemma_vars_of_detach(s, v, l);
    lemma_vars_of_detach(s, v, k);
    lemma_vars_of_push(spec_detach(s, v), (l, v), l);
    lemma_vars_of_push(spec_detach(s, v), (l, v), k);
    lemma_without_excludes(spec_vars_of(s, k), v);
}

/// After detaching variable `v`, no local holds it, and the other variables of every local stay
/// as they were, in order.
pub proof fn lemma_detach_forgets_variable(s: Seq<(u32, usize)>, v: usize, k: u32)
    ensures
        spec_vars_of(spec_detach(s, v), k) == spec_without(spec_vars_of(s, k), v),
        !spec_vars_of(spec_detach(s, v), k).contains(v),
{
    lemma_vars_of_detach(s, v, k);
    lemma_without_excludes(spec_vars_of(s, k), v);
}

impl ActiveLocalVars {
    /// No variable is attached to any local.
    pub fn new() -> (r: Self)
        ensures
            r@ == Seq::<(u32, usize)>::empty(),
    {
        ActiveLocalVars { attachments: Vec::new() }
    }

    /// The variables attached to Wasm local `local_index`, in attachment order.
    pub fn get(&self, local_index: u32) -> (r: Vec<usize>)
        ensures
            r@ == spec_vars_of(self@, local_index),
    {
        let mut r: Vec<usize> = Vec::new();
        let mut i: usize = 0;
        assert(self.attachments@.take(0) =~= Seq::<(u32, usize)>::empty());
        while i < self.attachments.len()
            invariant
                i <= self.attachments@.len(),
                r@ == spec_vars_of(self.attachments@.take(i as int), local_index),
            decreases self.attachments@.len() - i,
        {
            assert(self.attachments@.take(i + 1).drop_last() =~= self.attachments@.take(i as int));
            let (local, var) = self.attachments[i];
            if local == local_index {
                r.push(var);
            }
            i += 1;
        }
        assert(self.attachments@.take(self.attachments@.len() as int) =~= self.attachments@);
        r
    }

    /// Detaches variable `var_index` from every local.
    pub fn remove(&mut self, var_index: usize)
        ensures
            final(self)@ == spec_detach(old(self)@, var_index),
    {
        let mut kept: Vec<(u32, usize)> = Vec::new();
        let mut i: usize = 0;
        assert(self.attachments@.take(0) =~= Seq::<(u32, usize)>::empty());
        while i < self.attachments.len()
            invariant
                i <= self.attachments@.len(),
                self.attachments@ == old(self)@,
                kept@ == spec_detach(self.attachments@.take(i as int), var_index),
            decreases self.attachments@.len() - i,
        {
            assert(self.attachments@.take(i + 1).drop_last() =~= self.attachments@.take(i as int));
            let pair = self.attachments[i];
            if pair.1 != var_index {
                kept.push(pair);
            }
            i += 1;
        }
        assert(self.attachments@.take(self.attachments@.len() as int) =~= self.attachments@);
        self.attachments = kept;
    }

    /// Attaches variable `var_index` to Wasm local `local_index`, detaching it from any other
    /// local first.
    pub fn set(&mut self, local_index: u32, var_index: usize)
        ensures
            final(self)@ == spec_attach(old(self)@, local_index, var_index),
    {
        self.remove(var_index);
        self.attachments.push((local_index, var_index));
    }
}

/// A resolved source location of an instruction.
#[derive(Clone, Debug, PartialEq, Eq)]
pub struct SourceLocation {
    /// The source file.
    pub file: String,
    /// The line.
    pub line: u32,
    /// The column, if known.
    pub column: Option<u32>,
}

/// A variable's description at an instruction: the file becomes the instruction's file, and a
/// variable without a line or column takes the instruction's (see `spec_should_fill`).
pub open spec fn spec_refine_attr(attr: DebugVariable, location: Option<SourceLocation>) -> DebugVariable {
    match location {
        None => attr,
        Some(l) => if crate::debug_info::spec_should_fill(attr.line, attr.column, l.line, l.column) {
            DebugVariable { file: l.file, line: l.line, column: l.column, ..attr }
        } else {
            DebugVariable { file: l.file, ..attr }
        },
    }
}

/// Copies a variable description.
fn clone_variable(v: &DebugVariable) -> (r: DebugVariable)
    ensures
        r == *v,
{
    DebugVariable {
        name: v.name.clone(),
        file: v.file.clone(),
        line: v.line,
        column: v.column,
        arg_index: v.arg_index,
        ty: match &v.ty {
            Some(t) => Some(t.clone()),
            None => None,
        },
    }
}

/// A variable's description at an instruction at `location`.
fn refine_attr(attr: &DebugVariable, location: &Option<SourceLocation>) -> (r: DebugVariable)
    ensures
        r == spec_refine_attr(*attr, *location),
{
    let mut r = clone_variable(attr);
    if let Some(l) = location {
        r.file = l.file.clone();
        if should_fill_debug_attr_location(r.line, r.column, l.line, l.column) {
            r.line = l.line;
            r.column = l.column;
        }
    }
    r
}

/// A debug-information operation to emit for a source variable.
#[allow(inconsistent_fields)]
pub enum DebugAction<T> {
    /// The variable has the given value, at the given location if one is known.
    Value {
        /// The value.
        value: T,
        /// The variable.
        attr: DebugVariable,
        /// The variable's location, if known.
        expression: Option<Expression>,
    },
    /// The variable lives at the given location.
    Declare {
        /// The variable.
        attr: DebugVariable,
        /// Its location.
        expression: Expression,
    },
    /// The variable's location range ends.
    Kill {
        /// The variable.
        attr: DebugVariable,
    },
}

/// The debug operation for a scheduled location change, and the attachments after it, given the
/// variable's description (if it has one), the instruction's location, and the Wasm operand
/// stack: `None` for no operation.
///
/// A change without a new location ends the variable's location and detaches it; an empty
/// location does nothing; a location in an operand-stack slot gives the variable that slot's
/// value; a location in a Wasm local attaches the variable to that local and declares it there;
/// any other location is declared.
pub open spec fn spec_scheduled_action<T>(
    attr: Option<DebugVariable>,
    entry: LocationScheduleEntry,
    location: Option<SourceLocation>,
    wasm_stack: Seq<T>,
    active: Seq<(u32, usize)>,
) -> (Option<(int, Option<T>, DebugVariable, Option<Seq<ExpressionOp>>)>, Seq<(u32, usize)>) {
    match attr {
        None => (None, active),
        Some(a) => {
            let attr = spec_refine_attr(a, location);
            match entry.storage {
                None => (Some((2, None, attr, None)), spec_detach(active, entry.var_index)),
                Some(storage) => if storage@.len() == 0 {
                    (None, active)
                } else {
                    match crate::debug_info::spec_first_stack_slot(storage@) {
                        Some(index) if index < wasm_stack.len() => (
                            Some((0, Some(wasm_stack[wasm_stack.len() - 1 - index]), attr, None)),
                            active,
                        ),
                        _ => match crate::debug_info::spec_first_local(storage@) {
                            Some(l) => (
                                Some((1, None, attr, Some(storage@))),
                                spec_attach(active, l, entry.var_index),
                            ),
                            None => (Some((1, None, attr, Some(storage@))), active),
                        },
                    }
                },
            }
        },
    }
}

/// An action as plain values: its kind (0 value, 1 declare, 2 kill), value, variable, and
/// location.
pub open spec fn action_view<T>(a: DebugAction<T>) -> (int, Option<T>, DebugVariable, Option<
    Seq<ExpressionOp>,
>) {
    match a {
        DebugAction::Value { value, attr, expression } => (
            0,
            Some(value),
            attr,
            match expression {
                Some(e) => Some(e@),
                None => None,
            },
        ),
        DebugAction::Declare { attr, expression } => (1, None, attr, Some(expression@)),
        DebugAction::Kill { attr } => (2, None, attr, None),
    }
}

/// Decides the debug operation for a scheduled location change of a variable, updating which
/// variables live in which Wasm locals.
pub fn emit_scheduled_dbg_value<T: Copy>(
    info: &FunctionDebugInfo,
    active: &mut ActiveLocalVars,
    entry: LocationScheduleEntry,
    location: &Option<SourceLocation>,
    wasm_stack: &[T],
) -> (r: Option<DebugAction<T>>)
    ensures
        ({
            let attr = if entry.var_index < info.locals@.len()
                && info.locals@[entry.var_index as int] is Some {
                Some(info.locals@[entry.var_index as int]->Some_0.attr)
            } else {
                None
            };
            let (expected, after) = spec_scheduled_action(
                attr,
                entry,
                *location,
                wasm_stack@,
                old(active)@,
            );
            &&& final(active)@ == after
            &&& match expected {
                Some(x) => r is Some && action_view(r->Some_0) == x,
                None => r is None,
            }
        }),
{
    let idx = entry.var_index;
    let attr = match info.local_attr(idx) {
        Some(a) => refine_attr(a, location),
        None => {
            return None;
        },
    };
    let storage = match entry.storage {
        None => {
            active.remove(idx);
            return Some(DebugAction::Kill { attr });
        },
        Some(storage) => storage,
    };
    if storage.operations.len() == 0 {
        return None;
    }
    if let Some(value) = wasm_stack_value_from_expression(&storage, wasm_stack) {
        return Some(DebugAction::Value { value, attr, expression: None });
    }
    if let Some(local_index) = local_index_from_expression(&storage) {
        active.set(local_index, idx);
    }
    Some(DebugAction::Declare { attr, expression: storage })
}

/// The debug operation for a new value of local `idx`, from its debug information and the
/// instruction's location: none for a local without debug information or one tracked by its
/// location schedule; otherwise its value, at its fixed location or else in Wasm local `idx`.
pub open spec fn spec_var_value_action<T>(
    info: Option<LocalDebugInfo>,
    idx: usize,
    value: T,
    location: Option<SourceLocation>,
) -> Option<(int, Option<T>, DebugVariable, Option<Seq<ExpressionOp>>)> {
    match info {
        None => None,
        Some(l) => if l.locations@.len() > 0 {
            None
        } else {
            Some(
                (
                    0,
                    Some(value),
                    spec_refine_attr(l.attr, location),
                    Some(
                        match l.expression {
                            Some(e) => e@,
                            None => seq![ExpressionOp::WasmLocal(idx as u32)],
                        },
                    ),
                ),
            )
        },
    }
}

/// Decides the debug operation for a new value of the variable of Wasm local `idx`.
pub fn emit_dbg_value_for_var<T>(
    info: &FunctionDebugInfo,
    idx: usize,
    value: T,
    location: &Option<SourceLocation>,
) -> (r: Option<DebugAction<T>>)
    ensures
        match spec_var_value_action(
            if idx < info.locals@.len() {
                info.locals@[idx as int]
            } else {
                None
            },
            idx,
            value,
            *location,
        ) {
            Some(x) => r is Some && action_view(r->Some_0) == x,
            None => r is None,
        },
{
    if idx >= info.locals.len() {
        return None;
    }
    let local = match &info.locals[idx] {
        Some(l) => l,
        None => {
            return None;
        },
    };
    if local.locations.len() > 0 {
        return None;
    }
    let attr = refine_attr(&local.attr, location);
    // Without a location expression from DWARF, the variable is known to be stored in its Wasm
    // local.
    let expression = match &local.expression {
        Some(e) => e.clone(),
        None => {
            let mut ops: Vec<ExpressionOp> = Vec::new();
            ops.push(ExpressionOp::WasmLocal(idx as u32));
            Expression::with_ops(ops)
        },
    };
    Some(DebugAction::Value { value, attr, expression: Some(expression) })
}

/// The variables among `vars` that have debug information, each with its description at an
/// instruction at `location`, in order.
pub open spec fn spec_local_value_attrs(
    vars: Seq<usize>,
    locals: Seq<Option<LocalDebugInfo>>,
    location: Option<SourceLocation>,
) -> Seq<(usize, DebugVariable)>
    decreases vars.len(),
{
    if vars.len() == 0 {
        Seq::empty()
    } else {
        let v = vars.last();
        spec_local_value_attrs(vars.drop_last(), locals, location) + if v < locals.len()
            && locals[v as int] is Some {
            seq![(v, spec_refine_attr(locals[v as int]->Some_0.attr, location))]
        } else {
            Seq::empty()
        }
    }
}

/// Decides the debug operations for a new value of Wasm local `local_index`: a value for each
/// variable attached to it that has debug information, in attachment order; each is given as
/// the variable's index and its description at the instruction.
pub fn emit_debug_values_for_wasm_local(
    info: &FunctionDebugInfo,
    active: &ActiveLocalVars,
    local_index: u32,
    location: &Option<SourceLocation>,
) -> (r: Vec<(usize, DebugVariable)>)
    ensures
        r@ == spec_local_value_attrs(spec_vars_of(active@, local_index), info.locals@, *location),
{
    let vars = active.get(local_index);
    let mut r: Vec<(usize, DebugVariable)> = Vec::new();
    let mut i: usize = 0;
    assert(vars@.take(0) =~= Seq::<usize>::empty());
    while i < vars.len()
        invariant
            i <= vars@.len(),
            r@ == spec_local_value_attrs(vars@.take(i as int), info.locals@, *location),
        decreases vars@.len() - i,
    {
        assert(vars@.take(i + 1).drop_last() =~= vars@.take(i as int));
        assert(vars@.take(i + 1).last() == vars@[i as int]);
        let idx = vars[i];
        if let Some(attr) = info.local_attr(idx) {
            let refined = refine_attr(attr, location);
            r.push((idx, refined));
        }
        i += 1;
    }
    assert(vars@.take(vars@.len() as int) =~= vars@);
    r
}

/// Builds the debug information of a function: its compile unit and subprogram at the given
/// source location, the debug information of its locals, and their location schedule, with no
/// location change applied yet.
pub fn build_function_debug_info(
    func_name: &str,
    file: String,
    directory: Option<String>,
    line: u32,
    column: Option<u32>,
    param_types: &[Option<String>],
    local_entries: &[(u32, Option<String>)],
    local_names: &HashMap<u32, String>,
    dwarf_locals: Option<&HashMap<u32, DwarfLocalData>>,
    scheduled_vars: Option<&Vec<DwarfLocalData>>,
) -> (r: FunctionDebugInfo)
    requires
        param_types@.len() + crate::debug_info::spec_local_count(local_entries@) <= u32::MAX,
    ensures
        r.compile_unit.language@ == "wasm"@,
        r.compile_unit.file == file,
        r.compile_unit.directory == directory,
        r.compile_unit.producer is Some && r.compile_unit.producer->Some_0@ == "midenc-frontend-wasm"@,
        r.subprogram.name@ == func_name@,
        r.subprogram.file == file,
        r.subprogram.line == line,
        r.subprogram.column == column,
        r.subprogram.is_definition,
        r.next_location_event == 0,
        ({
            let param_count = param_types@.len();
            let total = param_count + crate::debug_info::spec_local_count(local_entries@);
            let scheduled = match scheduled_vars {
                Some(v) => v@,
                None => Seq::empty(),
            };
            &&& r.locals@.len() == total + scheduled.len()
            &&& forall|i: int|
                0 <= i < param_count ==> crate::debug_info::opt_info_view(#[trigger] r.locals@[i])
                    == Some(
                    crate::debug_info::spec_param_info(
                        i as u32,
                        crate::debug_info::opt_string_view(param_types@[i]),
                        local_names@,
                        r.subprogram,
                        dwarf_locals,
                    ),
                )
            &&& forall|i: int|
                param_count <= i < total ==> crate::debug_info::opt_info_view(
                    #[trigger] r.locals@[i],
                ) == crate::debug_info::spec_local_info(
                    i as u32,
                    crate::debug_info::spec_flat_types(local_entries@)[i - param_count],
                    crate::debug_info::spec_has_dwarf_locals(dwarf_locals, scheduled_vars),
                    local_names@,
                    r.subprogram,
                    dwarf_locals,
                )
            &&& forall|j: int|
                0 <= j < scheduled.len() ==> crate::debug_info::opt_info_view(
                    #[trigger] r.locals@[total + j],
                ) == Some(crate::debug_info::spec_scheduled_info(scheduled[j], r.subprogram))
        }),
        crate::debug_info::spec_is_stable_sort_of(
            schedule_view(r.location_schedule@),
            crate::debug_info::spec_unsorted_schedule(r.locals@),
        ),
{
    let compile_unit = CompileUnit {
        language: String::from_str("wasm"),
        file: file.clone(),
        directory,
        producer: Some(String::from_str("midenc-frontend-wasm")),
    };
    let subprogram = Subprogram {
        name: String::from_str(func_name),
        file,
        line,
        column,
        is_definition: true,
    };
    let locals = build_local_debug_info(
        param_types,
        local_entries,
        local_names,
        &subprogram,
        dwarf_locals,
        scheduled_vars,
    );
    let location_schedule = build_location_schedule(locals.as_slice());
    FunctionDebugInfo { compile_unit, subprogram, locals, location_schedule, next_location_event: 0 }
}

} // verus!
