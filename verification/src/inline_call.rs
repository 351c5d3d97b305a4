//! Inline call chains: the source functions inlined at an instruction, each with the location it
//! was called from.

use vstd::prelude::*;

verus! {

/// One inlined function in an inline call chain.
#[derive(Clone, Debug, PartialEq, Eq, Hash)]
pub struct InlineCallFrame {
    /// The inlined function's name.
    pub name: String,
    /// The inlined function's linkage name, if known.
    pub linkage_name: Option<String>,
    /// The file of the inlined code.
    pub file: String,
    /// The line of the inlined code.
    pub line: u32,
    /// The column of the inlined code.
    pub column: u32,
    /// The file of the call site.
    pub call_file: String,
    /// The line of the call site.
    pub call_line: u32,
    /// The column of the call site.
    pub call_column: u32,
}

/// The chain of inlined functions at an instruction, innermost first.
#[derive(Clone, Debug, Default, PartialEq, Eq, Hash)]
pub struct InlineCallChain {
    /// The inlined frames, innermost first.
    pub frames: Vec<InlineCallFrame>,
}

impl InlineCallChain {
    /// Creates a chain from its frames.
    pub fn new(frames: Vec<InlineCallFrame>) -> (r: Self)
        ensures
            r.frames@ == frames@,
    {
        InlineCallChain { frames }
    }
}

/// A source location resolved from debug information.
#[derive(Clone, Debug, PartialEq, Eq)]
pub struct ResolvedSourceLocation {
    /// The source file.
    pub path: String,
    /// The line.
    pub line: u32,
    /// The column.
    pub column: u32,
}

/// One frame of the source-level call stack at an instruction, innermost first.
#[derive(Clone, Debug, PartialEq, Eq)]
pub struct ResolvedFrame {
    /// The function's name.
    pub name: String,
    /// The function's linkage name, if known.
    pub linkage_name: Option<String>,
    /// Where in the function the instruction (or the call leading to it) is.
    pub location: ResolvedSourceLocation,
}

/// The inline frame of `callee` called from `caller`: the callee's own location, and the
/// caller's location as the call site.
pub open spec fn spec_inline_frame(callee: ResolvedFrame, caller: ResolvedFrame) -> InlineCallFrame {
    InlineCallFrame {
        name: callee.name,
        linkage_name: callee.linkage_name,
        file: callee.location.path,
        line: callee.location.line,
        column: callee.location.column,
        call_file: caller.location.path,
        call_line: caller.location.line,
        call_column: caller.location.column,
    }
}

/// Builds the inline call chain of a source-level call stack (innermost first): one frame per
/// adjacent pair of the stack, each frame calling the next being its call site; the outermost
/// frame, the physical function, gets no frame of its own.
pub fn inline_call_chain(resolved_frames: &[ResolvedFrame]) -> (r: Vec<InlineCallFrame>)
    ensures
        r@.len() == if resolved_frames@.len() == 0 {
            0
        } else {
            resolved_frames@.len() - 1
        },
        forall|i: int|
            0 <= i < r@.len() ==> #[trigger] r@[i] == spec_inline_frame(
                resolved_frames@[i],
                resolved_frames@[i + 1],
            ),
{
    let mut chain: Vec<InlineCallFrame> = Vec::new();
    let pairs: usize = if resolved_frames.len() == 0 {
        0
    } else {
        resolved_frames.len() - 1
    };
    let mut i: usize = 0;
    while i < pairs
        invariant
            i <= pairs,
            pairs == if resolved_frames@.len() == 0 {
                0
            } else {
                resolved_frames@.len() - 1
            },
            chain@.len() == i,
            forall|j: int|
                0 <= j < i ==> #[trigger] chain@[j] == spec_inline_frame(
                    resolved_frames@[j],
                    resolved_frames@[j + 1],
                ),
        decreases resolved_frames@.len() - i,
    {
        let callee = &resolved_frames[i];
        let caller = &resolved_frames[i + 1];
        let linkage_name = match &callee.linkage_name {
            Some(n) => Some(n.clone()),
            None => None,
        };
        chain.push(
            InlineCallFrame {
                name: callee.name.clone(),
                linkage_name,
                file: callee.location.path.clone(),
                line: callee.location.line,
                column: callee.location.column,
                call_file: caller.location.path.clone(),
                call_line: caller.location.line,
                call_column: caller.location.column,
            },
        );
        i += 1;
    }
    chain
}

/// The names of the function of a source-level frame, as found in debug information.
#[derive(Clone, Debug, PartialEq, Eq)]
pub struct FrameFunction {
    /// The demangled name, if it could be demangled.
    pub demangled: Option<String>,
    /// The raw (linkage) name, if it could be read.
    pub linkage_name: Option<String>,
}

/// One frame of the source-level call stack at an instruction, innermost first, as found in
/// debug information: its resolved location (with the source span `S` of that location) when
/// it could be resolved, and its function when known.
#[derive(Clone, Debug, PartialEq, Eq)]
pub struct RawFrame<S> {
    /// The resolved source location and its span, if the frame's location could be resolved.
    pub location: Option<(S, ResolvedSourceLocation)>,
    /// The frame's function, if known.
    pub function: Option<FrameFunction>,
}

/// The name a frame's function is shown with: its demangled name, else its linkage name, else
/// `<unknown>`.
pub open spec fn spec_frame_name(f: FrameFunction) -> Seq<char> {
    match f.demangled {
        Some(n) => n@,
        None => match f.linkage_name {
            Some(l) => l@,
            None => "<unknown>"@,
        },
    }
}

/// The frames of a call stack that make inline frames: those with a resolved location and a
/// known function, as (name, linkage name, location).
pub open spec fn spec_resolved_frames<S>(frames: Seq<RawFrame<S>>) -> Seq<
    (Seq<char>, Option<String>, ResolvedSourceLocation),
>
    decreases frames.len(),
{
    if frames.len() == 0 {
        Seq::empty()
    } else {
        let f = frames.last();
        spec_resolved_frames(frames.drop_last()) + match (f.location, f.function) {
            (Some((_, loc)), Some(func)) => seq![(spec_frame_name(func), func.linkage_name, loc)],
            _ => Seq::empty(),
        }
    }
}

/// The span of the first frame of a call stack with a resolved location.
pub open spec fn spec_first_span<S>(frames: Seq<RawFrame<S>>) -> Option<S>
    decreases frames.len(),
{
    if frames.len() == 0 {
        None
    } else {
        match spec_first_span(frames.drop_last()) {
            Some(s) => Some(s),
            None => match frames.last().location {
                Some((s, _)) => Some(s),
                None => None,
            },
        }
    }
}

/// A resolved frame as plain values.
pub open spec fn resolved_frame_view(f: ResolvedFrame) -> (Seq<char>, Option<String>, ResolvedSourceLocation) {
    (f.name@, f.linkage_name, f.location)
}

/// The debug context of an instruction: the span of its innermost resolved location, and its
/// inline call chain.
#[derive(Clone, Debug, PartialEq, Eq)]
pub struct ResolvedInstructionDebugContext<S> {
    /// The span of the innermost resolved location, if any.
    pub span: Option<S>,
    /// The inline call chain, innermost first.
    pub inline_calls: Vec<InlineCallFrame>,
}

/// The plain-value views of resolved frames.
pub open spec fn resolved_views(s: Seq<ResolvedFrame>) -> Seq<(Seq<char>, Option<String>, ResolvedSourceLocation)> {
    s.map_values(|f: ResolvedFrame| resolved_frame_view(f))
}

/// Copies a resolved source location.
fn clone_location(l: &ResolvedSourceLocation) -> (r: ResolvedSourceLocation)
    ensures
        r == *l,
{
    ResolvedSourceLocation { path: l.path.clone(), line: l.line, column: l.column }
}

/// Copies an optional string.
fn clone_opt_string(s: &Option<String>) -> (r: Option<String>)
    ensures
        r == *s,
{
    match s {
        Some(x) => Some(x.clone()),
        None => None,
    }
}

/// Resolves the debug context of an instruction from its source-level call stack (innermost
/// first): frames without a resolved location or without a known function make no inline frame.
pub fn resolve_instruction_debug_context<S: Copy>(frames: &[RawFrame<S>]) -> (r:
    ResolvedInstructionDebugContext<S>)
    ensures
        r.span == spec_first_span(frames@),
        ({
            let rv = spec_resolved_frames(frames@);
            &&& r.inline_calls@.len() == if rv.len() == 0 {
                0
            } else {
                rv.len() - 1
            }
            &&& forall|i: int|
                0 <= i < r.inline_calls@.len() ==> {
                    let f = #[trigger] r.inline_calls@[i];
                    &&& f.name@ == rv[i].0
                    &&& f.linkage_name == rv[i].1
                    &&& f.file == rv[i].2.path
                    &&& f.line == rv[i].2.line
                    &&& f.column == rv[i].2.column
                    &&& f.call_file == rv[i + 1].2.path
                    &&& f.call_line == rv[i + 1].2.line
                    &&& f.call_column == rv[i + 1].2.column
                }
        }),
{
    let mut resolved: Vec<ResolvedFrame> = Vec::new();
    let mut span: Option<S> = None;
    let mut i: usize = 0;
    assert(frames@.take(0) =~= Seq::<RawFrame<S>>::empty());
    while i < frames.len()
        invariant
            i <= frames@.len(),
            span == spec_first_span(frames@.take(i as int)),
            resolved_views(resolved@) == spec_resolved_frames(frames@.take(i as int)),
        decreases frames@.len() - i,
    {
        assert(frames@.take(i + 1).drop_last() =~= frames@.take(i as int));
        assert(frames@.take(i + 1).last() == frames@[i as int]);
        let frame = &frames[i];
        let ghost before = resolved@;
        if let Some((frame_span, location)) = &frame.location {
            if span.is_none() {
                span = Some(*frame_span);
            }
            if let Some(function) = &frame.function {
                let linkage_name = clone_opt_string(&function.linkage_name);
                let name = match &function.demangled {
                    Some(n) => n.clone(),
                    None => match &function.linkage_name {
                        Some(l) => l.clone(),
                        None => String::from_str("<unknown>"),
                    },
                };
                let frame = ResolvedFrame { name, linkage_name, location: clone_location(location) };
                let ghost fv = resolved_frame_view(frame);
                resolved.push(frame);
                assert(resolved_views(resolved@) =~= resolved_views(before).push(fv));
            }
        }
        i += 1;
    }
    assert(frames@.take(frames@.len() as int) =~= frames@);
    let inline_calls = inline_call_chain(resolved.as_slice());
    proof {
        assert forall|k: int| 0 <= k < resolved@.len() implies #[trigger] resolved_frame_view(
            resolved@[k],
        ) == spec_resolved_frames(frames@)[k] by {
            assert(resolved_views(resolved@)[k] == resolved_frame_view(resolved@[k]));
        }
    }
    ResolvedInstructionDebugContext { span, inline_calls }
}


/// The name a frame's function is shown with is its demangled name whenever it has one; the
/// linkage name is used only without a demangled name, and `<unknown>` only without either.
pub proof fn lemma_frame_name_prefers_demangled(f: FrameFunction)
    ensures
        f.demangled is Some ==> spec_frame_name(f) == f.demangled->Some_0@,
        f.demangled is None && f.linkage_name is Some ==> spec_frame_name(f)
            == f.linkage_name->Some_0@,
        f.demangled is None && f.linkage_name is None ==> spec_frame_name(f) == "<unknown>"@,
{
}

/// When every frame of a call stack has a resolved location and a known function, every frame
/// makes an entry, in order: named by its function's demangled name when it has one, else by its
/// linkage name, else `<unknown>`, with the function's linkage name and the frame's location.
pub proof fn lemma_resolved_frames_of_full_stack<S>(frames: Seq<RawFrame<S>>)
    requires
        forall|k: int|
            0 <= k < frames.len() ==> (#[trigger] frames[k]).location is Some
                && frames[k].function is Some,
    ensures
        spec_resolved_frames(frames).len() == frames.len(),
        forall|k: int|
            0 <= k < frames.len() ==> {
                let func = frames[k].function->Some_0;
                let rf = #[trigger] spec_resolved_frames(frames)[k];
                &&& (func.demangled is Some ==> rf.0 == func.demangled->Some_0@)
                &&& (func.demangled is None && func.linkage_name is Some ==> rf.0
                    == func.linkage_name->Some_0@)
                &&& (func.demangled is None && func.linkage_name is None ==> rf.0 == "<unknown>"@)
                &&& rf.1 == func.linkage_name
                &&& rf.2 == frames[k].location->Some_0.1
            },
    decreases frames.len(),
{
    if frames.len() > 0 {
        let init = frames.drop_last();
        assert forall|k: int| 0 <= k < init.len() implies (#[trigger] init[k]).location is Some
            && init[k].function is Some by {
            assert(init[k] == frames[k]);
        }
        lemma_resolved_frames_of_full_stack(init);
        let f = frames.last();
        let func = f.function->Some_0;
        lemma_frame_name_prefers_demangled(func);
        assert(frames[frames.len() - 1] == f);
        let rv = spec_resolved_frames(frames);
        assert(rv == spec_resolved_frames(init) + seq![
            (spec_frame_name(func), func.linkage_name, f.location->Some_0.1),
        ]);
        assert forall|k: int| 0 <= k < frames.len() implies {
            let func = frames[k].function->Some_0;
            let rf = #[trigger] spec_resolved_frames(frames)[k];
            &&& (func.demangled is Some ==> rf.0 == func.demangled->Some_0@)
            &&& (func.demangled is None && func.linkage_name is Some ==> rf.0
                == func.linkage_name->Some_0@)
            &&& (func.demangled is None && func.linkage_name is None ==> rf.0 == "<unknown>"@)
            &&& rf.1 == func.linkage_name
            &&& rf.2 == frames[k].location->Some_0.1
        } by {
            if k < init.len() {
                assert(init[k] == frames[k]);
                assert(rv[k] == spec_resolved_frames(init)[k]);
            }
        }
    }
}

} // verus!
