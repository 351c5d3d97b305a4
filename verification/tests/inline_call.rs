use midenc::inline_call::{
    inline_call_chain, InlineCallChain, InlineCallFrame, ResolvedFrame, ResolvedSourceLocation,
};

fn frame(name: &str, path: &str, line: u32, column: u32) -> ResolvedFrame {
    ResolvedFrame {
        name: name.to_string(),
        linkage_name: Some(format!("_{name}")),
        location: ResolvedSourceLocation { path: path.to_string(), line, column },
    }
}

#[test]
fn inline_call_chain_uses_caller_locations_as_call_sites() {
    let frames = [
        frame("inner", "src/inner.rs", 30, 7),
        frame("outer", "src/outer.rs", 20, 5),
        frame("physical", "src/lib.rs", 10, 3),
    ];

    let chain = inline_call_chain(&frames);

    assert_eq!(chain.len(), 2);
    assert_eq!(chain[0].name.as_str(), "inner");
    assert_eq!(chain[0].file.as_str(), "src/inner.rs");
    assert_eq!(chain[0].call_file.as_str(), "src/outer.rs");
    assert_eq!((chain[0].call_line, chain[0].call_column), (20, 5));
    assert_eq!(chain[1].name.as_str(), "outer");
    assert_eq!(chain[1].call_file.as_str(), "src/lib.rs");
    assert_eq!((chain[1].call_line, chain[1].call_column), (10, 3));
}

#[test]
fn physical_frame_alone_has_no_inline_frames() {
    assert!(inline_call_chain(&[]).is_empty());
    assert!(inline_call_chain(&[frame("physical", "src/lib.rs", 1, 1)]).is_empty());
}

#[test]
fn inline_frame_keeps_callee_location_and_linkage() {
    let chain = inline_call_chain(&[frame("a", "a.rs", 3, 4), frame("b", "b.rs", 5, 6)]);
    assert_eq!(
        chain[0],
        InlineCallFrame {
            name: "a".to_string(),
            linkage_name: Some("_a".to_string()),
            file: "a.rs".to_string(),
            line: 3,
            column: 4,
            call_file: "b.rs".to_string(),
            call_line: 5,
            call_column: 6,
        }
    );
    let wrapped = InlineCallChain::new(chain.clone());
    assert_eq!(wrapped.frames, chain);
}

use midenc::inline_call::{resolve_instruction_debug_context, FrameFunction, RawFrame};

fn raw(span: Option<u32>, path: &str, line: u32, demangled: Option<&str>, linkage: Option<&str>, known: bool) -> RawFrame<u32> {
    RawFrame {
        location: span.map(|s| (s, ResolvedSourceLocation { path: path.to_string(), line, column: 1 })),
        function: if known {
            Some(FrameFunction { demangled: demangled.map(str::to_string), linkage_name: linkage.map(str::to_string) })
        } else {
            None
        },
    }
}

#[test]
fn debug_context_skips_unresolved_frames() {
    let frames = vec![
        raw(None, "gone.rs", 1, Some("gone"), None, true),
        raw(Some(7), "inner.rs", 3, None, Some("_inner"), true),
        raw(Some(8), "anon.rs", 4, None, None, false),
        raw(Some(9), "outer.rs", 5, None, None, true),
    ];
    let ctx = resolve_instruction_debug_context(&frames);
    assert_eq!(ctx.span, Some(7));
    assert_eq!(ctx.inline_calls.len(), 1);
    assert_eq!(ctx.inline_calls[0].name, "_inner");
    assert_eq!(ctx.inline_calls[0].linkage_name.as_deref(), Some("_inner"));
    assert_eq!(ctx.inline_calls[0].call_file, "outer.rs");
    assert_eq!(ctx.inline_calls[0].call_line, 5);

    let unknown = resolve_instruction_debug_context(&[
        raw(Some(1), "a.rs", 1, None, None, true),
        raw(Some(2), "b.rs", 2, Some("b"), None, true),
    ]);
    assert_eq!(unknown.inline_calls[0].name, "<unknown>");
    assert!(resolve_instruction_debug_context::<u32>(&[]).span.is_none());
}
