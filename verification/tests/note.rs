use midenc::note::{
    build_entrypoint_call_args, is_type_named, is_unit_return_type, parse_entrypoint_signature, EntrypointArg,
    EntrypointSignature, Receiver, TypeShape,
};

fn path(name: &str) -> TypeShape {
    TypeShape::Path { qualified_self: false, last_segment: Some(name.to_string()), last_segment_has_arguments: false }
}

fn reference(mutable: bool, elem: TypeShape) -> TypeShape {
    TypeShape::Reference { mutable, elem: Box::new(elem) }
}

fn by_value() -> Option<Receiver> {
    Some(Receiver { typed: false, reference: false, mutable: false })
}

fn signature(params: Vec<TypeShape>) -> EntrypointSignature {
    EntrypointSignature { is_async: false, is_generic: false, receiver: by_value(), output: None, params }
}

fn error(sig: &EntrypointSignature) -> String {
    match parse_entrypoint_signature(sig) {
        Ok(_) => panic!("expected signature validation to fail"),
        Err(err) => err,
    }
}

/// `pub fn execute(self, _arg: Word) {}`
#[test]
fn entrypoint_signature_allows_non_run_name() {
    assert!(parse_entrypoint_signature(&signature(vec![path("Word")])).is_ok());
}

/// `pub fn run(self, arg: Word) -> Word { arg }`
#[test]
fn entrypoint_signature_requires_unit_return() {
    let mut sig = signature(vec![path("Word")]);
    sig.output = Some(path("Word"));
    assert!(error(&sig).contains("must return `()`"));
}

/// `pub async fn execute(self, _arg: Word) {}`
#[test]
fn entrypoint_signature_rejects_async() {
    let mut sig = signature(vec![path("Word")]);
    sig.is_async = true;
    assert!(error(&sig).contains("must not be `async`"));
}

/// `pub fn execute(self: Box<Self>, _arg: Word) {}`
#[test]
fn entrypoint_signature_rejects_typed_receiver() {
    let mut sig = signature(vec![path("Word")]);
    sig.receiver = Some(Receiver { typed: true, reference: false, mutable: false });
    assert!(error(&sig).contains("typed receivers"));
}

/// `pub fn execute<T>(self, _arg: Word) {}`
#[test]
fn entrypoint_signature_rejects_generics() {
    let mut sig = signature(vec![path("Word")]);
    sig.is_generic = true;
    assert!(error(&sig).contains("must not be generic"));
}

/// `pub fn execute(self, _arg: Word, account: &mut BasicWallet) {}`
#[test]
fn entrypoint_signature_accepts_account_wrapper_reference() {
    let sig = signature(vec![path("Word"), reference(true, path("BasicWallet"))]);
    let (word_idx, account) = parse_entrypoint_signature(&sig).unwrap();
    assert_eq!(word_idx, 0);
    let account = account.unwrap();
    assert!(account.mut_ref);
    assert!(is_type_named(&account.ty, "BasicWallet"));
}

/// `pub fn execute(self, _arg: Word, account: &mut Account) {}`
#[test]
fn entrypoint_signature_accepts_account_named_wrapper_type() {
    assert!(parse_entrypoint_signature(&signature(vec![path("Word"), reference(true, path("Account"))])).is_ok());
}

#[test]
fn entrypoint_receiver_and_arity_rules() {
    let mut no_self = signature(vec![path("Word")]);
    no_self.receiver = None;
    assert_eq!(error(&no_self), "entrypoint method must accept `self`");
    let mut by_ref = signature(vec![path("Word")]);
    by_ref.receiver = Some(Receiver { typed: false, reference: true, mutable: false });
    assert!(error(&by_ref).contains("`&self` / `&mut self` are not supported"));
    let mut mutable = signature(vec![path("Word")]);
    mutable.receiver = Some(Receiver { typed: false, reference: false, mutable: true });
    assert!(error(&mutable).contains("`mut self` is not supported"));
    assert!(error(&signature(vec![])).contains("must accept 1 or 2 arguments"));
    assert!(error(&signature(vec![path("Word"), path("Word"), path("Word")])).contains("must accept 1 or 2 arguments"));
}

#[test]
fn entrypoint_parameter_rules() {
    assert_eq!(
        error(&signature(vec![path("u32")])),
        "unsupported entrypoint parameter type; expected `Word` and an optional reference to an `#[account(...)]` type"
    );
    assert_eq!(
        error(&signature(vec![reference(false, path("A")), reference(true, path("B"))])),
        "entrypoint may only declare a single account parameter"
    );
    assert_eq!(error(&signature(vec![path("Word"), path("Word")])), "entrypoint must declare exactly one `Word` parameter");
    assert_eq!(error(&signature(vec![reference(false, path("A"))])), "entrypoint must declare exactly one `Word` parameter");
    // A reference to `Word` is not an account.
    assert!(error(&signature(vec![path("Word"), reference(false, path("Word"))])).contains("unsupported"));
    let (word_idx, account) = parse_entrypoint_signature(&signature(vec![reference(false, path("W")), path("Word")])).unwrap();
    assert_eq!(word_idx, 1);
    assert!(!account.unwrap().mut_ref);
}

#[test]
fn type_name_and_unit_checks() {
    assert!(is_type_named(&path("Word"), "Word"));
    assert!(!is_type_named(
        &TypeShape::Path { qualified_self: false, last_segment: Some("Word".to_string()), last_segment_has_arguments: true },
        "Word"
    ));
    assert!(is_unit_return_type(&None));
    assert!(is_unit_return_type(&Some(TypeShape::Tuple { len: 0 })));
    assert!(!is_unit_return_type(&Some(TypeShape::Tuple { len: 1 })));
}

#[test]
fn call_args_follow_the_signature() {
    assert_eq!(build_entrypoint_call_args(0, false), Ok(vec![EntrypointArg::Word]));
    assert_eq!(build_entrypoint_call_args(0, true), Ok(vec![EntrypointArg::Word, EntrypointArg::Account]));
    assert_eq!(build_entrypoint_call_args(1, true), Ok(vec![EntrypointArg::Account, EntrypointArg::Word]));
    assert_eq!(
        build_entrypoint_call_args(2, true),
        Err("internal error: invalid entrypoint argument index".to_string())
    );
}

use midenc::note::{has_entrypoint_marker_attr, is_attr_named, is_doc_marker_attr, is_entrypoint_marker_attr, AttrShape};

fn attr(name: &str) -> AttrShape {
    AttrShape { last_segment: Some(name.to_string()), last_segment_has_arguments: false, is_doc: name == "doc", string_value: None }
}

#[test]
fn entrypoint_markers() {
    assert!(is_attr_named(&attr("note_script"), "note_script"));
    assert!(is_entrypoint_marker_attr(&attr("note_script")));
    assert!(is_entrypoint_marker_attr(&attr("miden_note_script_requires_note")));
    let mut doc = attr("doc");
    doc.string_value = Some("__miden_note_script_marker".to_string());
    assert!(is_doc_marker_attr(&doc, "__miden_note_script_marker"));
    assert!(is_entrypoint_marker_attr(&doc));
    doc.string_value = Some("some docs".to_string());
    assert!(!is_entrypoint_marker_attr(&doc));
    let mut with_args = attr("note_script");
    with_args.last_segment_has_arguments = true;
    assert!(!is_entrypoint_marker_attr(&with_args));
    assert!(has_entrypoint_marker_attr(&[attr("inline"), attr("note_script")]));
    assert!(!has_entrypoint_marker_attr(&[attr("inline"), doc]));
}

use midenc::note::{
    extract_entrypoint, ImplItemShape, MethodShape, MISSING_ENTRYPOINT_ERROR, MULTIPLE_ENTRYPOINTS_ERROR,
    NOTE_SCRIPT_DOC_MARKER,
};

fn method(name: &str, attrs: Vec<AttrShape>) -> ImplItemShape {
    ImplItemShape::Fn(MethodShape { name: name.to_string(), attrs })
}

/// `impl MyNote { #[doc = "<marker>"] pub fn execute(self, _arg: Word) {} }`
#[test]
fn extract_entrypoint_accepts_doc_marker() {
    let mut marker = attr("doc");
    marker.string_value = Some(NOTE_SCRIPT_DOC_MARKER.to_string());
    let (entrypoint_fn, items) = extract_entrypoint(vec![method("execute", vec![marker])]).unwrap();
    assert_eq!(entrypoint_fn.name, "execute");

    let ImplItemShape::Fn(method) = items.first().expect("method must exist") else {
        panic!("expected function method");
    };
    assert!(
        method.attrs.iter().all(|attr| !is_doc_marker_attr(attr, NOTE_SCRIPT_DOC_MARKER)),
        "entrypoint markers must be removed from output"
    );
}

/// `impl MyNote { #[miden::note_script] pub fn execute(self, _arg: Word) {} }`
#[test]
fn extract_entrypoint_accepts_qualified_note_script_attr() {
    let (entrypoint_fn, items) = extract_entrypoint(vec![method("execute", vec![attr("note_script")])]).unwrap();
    assert_eq!(entrypoint_fn.name, "execute");

    let ImplItemShape::Fn(method) = items.first().expect("method must exist") else {
        panic!("expected function method");
    };
    assert!(
        method.attrs.iter().all(|attr| !is_entrypoint_marker_attr(attr)),
        "entrypoint markers must be removed from output"
    );
}

/// `#[miden_note_script_requires_note] pub fn execute(self, _arg: Word) {}`
#[test]
fn note_script_marker_accepts_helper_attribute() {
    assert!(has_entrypoint_marker_attr(&[attr("miden_note_script_requires_note")]));
}

#[test]
fn extract_entrypoint_keeps_other_attributes_and_items() {
    let items = vec![
        ImplItemShape::Other,
        method("helper", vec![attr("inline")]),
        method("execute", vec![attr("inline"), attr("note_script"), attr("must_use")]),
    ];
    let (entrypoint_fn, items) = extract_entrypoint(items).unwrap();
    assert_eq!(entrypoint_fn.name, "execute");
    assert_eq!(entrypoint_fn.attrs, vec![attr("inline"), attr("note_script"), attr("must_use")]);
    assert_eq!(items.len(), 3);
    assert!(matches!(items[0], ImplItemShape::Other));
    match &items[1] {
        ImplItemShape::Fn(m) => assert_eq!(m.attrs, vec![attr("inline")]),
        _ => panic!("expected function method"),
    }
    match &items[2] {
        ImplItemShape::Fn(m) => {
            assert_eq!(m.name, "execute");
            assert_eq!(m.attrs, vec![attr("inline"), attr("must_use")]);
        }
        _ => panic!("expected function method"),
    }
}

#[test]
fn extract_entrypoint_requires_a_marked_method() {
    let err = extract_entrypoint(vec![method("execute", vec![attr("inline")]), ImplItemShape::Other]).unwrap_err();
    assert_eq!(err, MISSING_ENTRYPOINT_ERROR);
    assert_eq!(err, "`#[note]` requires an entrypoint method annotated with `#[note_script]`");
}

#[test]
fn extract_entrypoint_rejects_two_marked_methods() {
    let err = extract_entrypoint(vec![
        method("execute", vec![attr("note_script")]),
        method("run", vec![attr("miden_note_script_requires_note")]),
    ])
    .unwrap_err();
    assert_eq!(err, MULTIPLE_ENTRYPOINTS_ERROR);
    assert!(err.contains("only one `#[note_script]` method is allowed"));
}

use midenc::note::note_impl_names;

#[test]
fn note_impl_names_refuse_unsupported_impl_blocks() {
    let note = path("MyNote");
    assert_eq!(
        note_impl_names(true, false, &note, "execute", "my_note").unwrap_err(),
        "`#[note]` cannot be applied to trait impl blocks"
    );
    assert_eq!(
        note_impl_names(false, true, &note, "execute", "my_note").unwrap_err(),
        "`#[note]` does not support generic impl blocks"
    );
    let qualified = TypeShape::Path { qualified_self: true, last_segment: Some("X".to_string()), last_segment_has_arguments: false };
    assert_eq!(
        note_impl_names(false, false, &qualified, "execute", "my_note").unwrap_err(),
        "`#[note]` requires an impl block for a concrete type (e.g. `impl MyNote { ... }`)"
    );
    assert!(note_impl_names(false, false, &reference(false, note), "execute", "my_note").is_err());
}

#[test]
fn note_impl_names_derive_the_binding_names() {
    let names = note_impl_names(false, false, &path("MyNote"), "executeTransfer", "my_note").unwrap();
    assert_eq!(names.export_name, "execute-transfer");
    assert_eq!(names.component_package, "miden:my-note");
    assert_eq!(names.interface_name, "miden-my-note");
    assert_eq!(names.world_name, "miden-my-note-world");
    assert_eq!(names.interface_module, "miden_my_note");
}
