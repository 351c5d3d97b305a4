//! The rules a note script's entrypoint method must follow: its signature takes `self` by value,
//! one `Word` and optionally a reference to an account type, and returns `()`.

use vstd::prelude::*;

use crate::wit_world::{component_package_id, to_kebab_case, to_snake_case};

verus! {

/// The shape of a Rust type in a signature, as far as the entrypoint rules look at it.
#[derive(Debug)]
pub enum TypeShape {
    /// A path type.
    Path {
        /// Whether the path has a qualified self type (`<T as Trait>::X`).
        qualified_self: bool,
        /// The identifier of its last segment, if it has segments.
        last_segment: Option<String>,
        /// Whether the last segment has generic arguments.
        last_segment_has_arguments: bool,
    },
    /// A reference type.
    Reference {
        /// Whether the reference is mutable.
        mutable: bool,
        /// The referenced type.
        elem: Box<TypeShape>,
    },
    /// A tuple type with the given number of elements.
    Tuple {
        /// The number of elements.
        len: usize,
    },
    /// Any other type.
    Other,
}

/// The receiver of a method.
#[derive(Debug, Clone, Copy, PartialEq, Eq)]
pub struct Receiver {
    /// Whether it has a type (`self: Box<Self>`).
    pub typed: bool,
    /// Whether it is a reference (`&self`, `&mut self`).
    pub reference: bool,
    /// Whether it is mutable (`mut self`).
    pub mutable: bool,
}

/// The signature of a candidate entrypoint method.
#[derive(Debug)]
pub struct EntrypointSignature {
    /// Whether the method is `async`.
    pub is_async: bool,
    /// Whether the method has generic parameters or a `where` clause.
    pub is_generic: bool,
    /// The method's receiver, if it has one.
    pub receiver: Option<Receiver>,
    /// The declared return type; `None` for the default `()`.
    pub output: Option<TypeShape>,
    /// The types of the parameters other than the receiver, in order.
    pub params: Vec<TypeShape>,
}

/// The account parameter of an entrypoint: the account type and whether it is borrowed mutably.
#[derive(Debug)]
pub struct AccountParam {
    /// The account type.
    pub ty: TypeShape,
    /// Whether the account is borrowed mutably.
    pub mut_ref: bool,
}

/// Whether a type is the path type `name` (its last segment, without arguments or a qualified
/// self type).
pub open spec fn spec_is_type_named(ty: TypeShape, name: Seq<char>) -> bool {
    match ty {
        TypeShape::Path { qualified_self, last_segment, last_segment_has_arguments } => !qualified_self
            && last_segment is Some && last_segment->Some_0@ == name && !last_segment_has_arguments,
        _ => false,
    }
}

/// Whether a type is named `name`.
pub fn is_type_named(ty: &TypeShape, name: &str) -> (r: bool)
    ensures
        r == spec_is_type_named(*ty, name@),
{
    match ty {
        TypeShape::Path { qualified_self, last_segment, last_segment_has_arguments } => {
            if *qualified_self || *last_segment_has_arguments {
                return false;
            }
            match last_segment {
                Some(segment) => *segment == String::from_str(name),
                None => false,
            }
        },
        _ => false,
    }
}

/// The account type of a parameter, with whether it is borrowed mutably: any reference to a
/// path type other than `Word`.
pub open spec fn spec_account_ref_type(ty: TypeShape) -> Option<(TypeShape, bool)> {
    match ty {
        TypeShape::Reference { mutable, elem } => if (*elem is Path) && !spec_is_type_named(
            *elem,
            "Word"@,
        ) {
            Some((*elem, mutable))
        } else {
            None
        },
        _ => None,
    }
}

/// Copies a type shape.
fn clone_shape(ty: &TypeShape) -> (r: TypeShape)
    ensures
        r == *ty,
    decreases ty,
{
    match ty {
        TypeShape::Path { qualified_self, last_segment, last_segment_has_arguments } => {
            TypeShape::Path {
                qualified_self: *qualified_self,
                last_segment: match last_segment {
                    Some(s) => Some(s.clone()),
                    None => None,
                },
                last_segment_has_arguments: *last_segment_has_arguments,
            }
        },
        TypeShape::Reference { mutable, elem } => {
            let inner = clone_shape(elem);
            TypeShape::Reference { mutable: *mutable, elem: Box::new(inner) }
        },
        TypeShape::Tuple { len } => TypeShape::Tuple { len: *len },
        TypeShape::Other => TypeShape::Other,
    }
}

/// The account type of a parameter, if the parameter is a reference to an account type.
pub fn parse_account_ref_type(ty: &TypeShape) -> (r: Option<AccountParam>)
    ensures
        match spec_account_ref_type(*ty) {
            Some((t, m)) => r is Some && r->Some_0.ty == t && r->Some_0.mut_ref == m,
            None => r is None,
        },
{
    match ty {
        TypeShape::Reference { mutable, elem } => {
            // Any reference to a concrete path type other than `Word` is the account parameter;
            // whether it is an account wrapper is checked by the generated glue's trait bound.
            let is_path = match &**elem {
                TypeShape::Path { .. } => true,
                _ => false,
            };
            if !is_path || is_type_named(elem, "Word") {
                return None;
            }
            Some(AccountParam { ty: clone_shape(elem), mut_ref: *mutable })
        },
        _ => None,
    }
}

/// Whether a return type is `()`.
pub open spec fn spec_is_unit_return_type(output: Option<TypeShape>) -> bool {
    match output {
        None => true,
        Some(TypeShape::Tuple { len }) => len == 0,
        Some(_) => false,
    }
}

/// Returns true if the entrypoint return type is unit.
pub fn is_unit_return_type(output: &Option<TypeShape>) -> (r: bool)
    ensures
        r == spec_is_unit_return_type(*output),
{
    match output {
        None => true,
        Some(TypeShape::Tuple { len }) => *len == 0,
        Some(_) => false,
    }
}

/// The diagnostic of a parameter of an unsupported type.
pub open spec fn spec_unsupported_param_message() -> Seq<char> {
    "unsupported entrypoint parameter type; expected `Word` and an optional reference to an `#[account(...)]` type"@
}

/// The positions of the `Word` parameters and the account parameter of an entrypoint, scanning
/// its parameters in order; the diagnostic of the first parameter that is neither, or of a
/// second account parameter.
pub open spec fn spec_scan_params(params: Seq<TypeShape>) -> Result<
    (Seq<int>, Option<(TypeShape, bool)>),
    Seq<char>,
>
    decreases params.len(),
{
    if params.len() == 0 {
        Ok((Seq::empty(), None))
    } else {
        match spec_scan_params(params.drop_last()) {
            Err(e) => Err(e),
            Ok((words, account)) => {
                let idx = params.len() - 1;
                let ty = params.last();
                if spec_is_type_named(ty, "Word"@) {
                    Ok((words.push(idx), account))
                } else {
                    match spec_account_ref_type(ty) {
                        Some(a) => if account is Some {
                            Err("entrypoint may only declare a single account parameter"@)
                        } else {
                            Ok((words, Some(a)))
                        },
                        None => Err(spec_unsupported_param_message()),
                    }
                }
            },
        }
    }
}

/// What validating an entrypoint signature gives: the position of its `Word` parameter among the
/// non-receiver parameters and its account parameter, or the diagnostic of the first rule it
/// breaks.
pub open spec fn spec_parse_entrypoint_signature(sig: EntrypointSignature) -> Result<
    (int, Option<(TypeShape, bool)>),
    Seq<char>,
> {
    if sig.is_async {
        Err("entrypoint method must not be `async`"@)
    } else if sig.is_generic {
        Err("entrypoint method must not be generic"@)
    } else if sig.receiver is None {
        Err("entrypoint method must accept `self`"@)
    } else if sig.receiver->Some_0.typed {
        Err(
            "entrypoint receiver must be `self` (by value); typed receivers (e.g. `self: Box<Self>`) are not supported"@,
        )
    } else if sig.receiver->Some_0.reference {
        Err(
            "entrypoint receiver must be `self` (by value); `&self` / `&mut self` are not supported"@,
        )
    } else if sig.receiver->Some_0.mutable {
        Err("entrypoint receiver must be `self` (non-mutable); `mut self` is not supported"@)
    } else if !spec_is_unit_return_type(sig.output) {
        Err("entrypoint method must return `()`"@)
    } else if sig.params@.len() == 0 || sig.params@.len() > 2 {
        Err(
            "entrypoint must accept 1 or 2 arguments (excluding `self`): `Word` and an optional reference to an `#[account(...)]` type"@,
        )
    } else {
        match spec_scan_params(sig.params@) {
            Err(e) => Err(e),
            Ok((words, account)) => if words.len() != 1 {
                Err("entrypoint must declare exactly one `Word` parameter"@)
            } else if sig.params@.len() == 2 && account is None {
                Err(
                    "entrypoint with two parameters must include a reference to an `#[account(...)]` type"@,
                )
            } else {
                Ok((words[0], account))
            },
        }
    }
}

/// An error of a scanned prefix is the error of the whole scan.
proof fn lemma_scan_error_persists(params: Seq<TypeShape>, k: int)
    requires
        0 <= k <= params.len(),
        spec_scan_params(params.take(k)) is Err,
    ensures
        spec_scan_params(params) == spec_scan_params(params.take(k)),
    decreases params.len() - k,
{
    if k < params.len() {
        assert(params.take(k + 1).drop_last() =~= params.take(k));
        lemma_scan_error_persists(params, k + 1);
    } else {
        assert(params.take(k) =~= params);
    }
}

/// Validates the signature of a note script's entrypoint method, returning the position of its
/// `Word` parameter among the non-receiver parameters and its account parameter.
pub fn parse_entrypoint_signature(sig: &EntrypointSignature) -> (r: Result<
    (usize, Option<AccountParam>),
    String,
>)
    ensures
        match spec_parse_entrypoint_signature(*sig) {
            Ok((idx, account)) => r is Ok && r->Ok_0.0 == idx && match account {
                Some((t, m)) => r->Ok_0.1 is Some && r->Ok_0.1->Some_0.ty == t
                    && r->Ok_0.1->Some_0.mut_ref == m,
                None => r->Ok_0.1 is None,
            },
            Err(m) => r is Err && r->Err_0@ == m,
        },
{
    if sig.is_async {
        return Err(String::from_str("entrypoint method must not be `async`"));
    }
    if sig.is_generic {
        return Err(String::from_str("entrypoint method must not be generic"));
    }
    let receiver = match sig.receiver {
        Some(receiver) => receiver,
        None => {
            return Err(String::from_str("entrypoint method must accept `self`"));
        },
    };
    if receiver.typed {
        return Err(
            String::from_str(
                "entrypoint receiver must be `self` (by value); typed receivers (e.g. `self: Box<Self>`) are not supported",
            ),
        );
    }
    if receiver.reference {
        return Err(
            String::from_str(
                "entrypoint receiver must be `self` (by value); `&self` / `&mut self` are not supported",
            ),
        );
    }
    if receiver.mutable {
        return Err(
            String::from_str(
                "entrypoint receiver must be `self` (non-mutable); `mut self` is not supported",
            ),
        );
    }
    if !is_unit_return_type(&sig.output) {
        return Err(String::from_str("entrypoint method must return `()`"));
    }
    let n = sig.params.len();
    if n == 0 || n > 2 {
        return Err(
            String::from_str(
                "entrypoint must accept 1 or 2 arguments (excluding `self`): `Word` and an optional reference to an `#[account(...)]` type",
            ),
        );
    }
    let mut word_positions: Vec<usize> = Vec::new();
    let mut account: Option<AccountParam> = None;
    let mut idx: usize = 0;
    assert(sig.params@.take(0) =~= Seq::<TypeShape>::empty());
    while idx < n
        invariant
            n == sig.params@.len(),
            1 <= n <= 2,
            idx <= n,
            !sig.is_async,
            !sig.is_generic,
            sig.receiver == Some(receiver),
            !receiver.typed && !receiver.reference && !receiver.mutable,
            spec_is_unit_return_type(sig.output),
            spec_scan_params(sig.params@.take(idx as int)) matches Ok((words, acc)) && words
                == word_positions@.map_values(|p: usize| p as int) && match acc {
                Some((t, m)) => account is Some && account->Some_0.ty == t
                    && account->Some_0.mut_ref == m,
                None => account is None,
            },
        decreases n - idx,
    {
        assert(sig.params@.take(idx + 1).drop_last() =~= sig.params@.take(idx as int));
        assert(sig.params@.take(idx + 1).last() == sig.params@[idx as int]);
        let ty = &sig.params[idx];
        let ghost before = word_positions@;
        if is_type_named(ty, "Word") {
            word_positions.push(idx);
            assert(word_positions@.map_values(|p: usize| p as int) =~= before.map_values(
                |p: usize| p as int,
            ).push(idx as int));
        } else {
            match parse_account_ref_type(ty) {
                Some(param) => {
                    if account.is_some() {
                        proof {
                            lemma_scan_error_persists(sig.params@, idx + 1);
                        }
                        return Err(
                            String::from_str(
                                "entrypoint may only declare a single account parameter",
                            ),
                        );
                    }
                    account = Some(param);
                },
                None => {
                    proof {
                        lemma_scan_error_persists(sig.params@, idx + 1);
                    }
                    return Err(
                        String::from_str(
                            "unsupported entrypoint parameter type; expected `Word` and an optional reference to an `#[account(...)]` type",
                        ),
                    );
                },
            }
        }
        idx += 1;
    }
    assert(sig.params@.take(n as int) =~= sig.params@);
    if word_positions.len() != 1 {
        return Err(String::from_str("entrypoint must declare exactly one `Word` parameter"));
    }
    if n == 2 && account.is_none() {
        return Err(
            String::from_str(
                "entrypoint with two parameters must include a reference to an `#[account(...)]` type",
            ),
        );
    }
    let word_idx = word_positions[0];
    Ok((word_idx, account))
}

/// An argument passed to the user's entrypoint method.
#[derive(Debug, Clone, Copy, PartialEq, Eq)]
pub enum EntrypointArg {
    /// The script's `Word` argument.
    Word,
    /// The account binding.
    Account,
}

/// Builds the arguments passed to the user's entrypoint method call: the `Word` alone, or the
/// `Word` and the account in the order of the signature. The `Word` position comes from
/// [`parse_entrypoint_signature`]; any other position is an internal error.
pub fn build_entrypoint_call_args(arg_word_idx: usize, has_account: bool) -> (r: Result<
    Vec<EntrypointArg>,
    String,
>)
    ensures
        !has_account ==> r is Ok && r->Ok_0@ == seq![EntrypointArg::Word],
        has_account && arg_word_idx == 0 ==> r is Ok && r->Ok_0@ == seq![
            EntrypointArg::Word,
            EntrypointArg::Account,
        ],
        has_account && arg_word_idx == 1 ==> r is Ok && r->Ok_0@ == seq![
            EntrypointArg::Account,
            EntrypointArg::Word,
        ],
        has_account && arg_word_idx > 1 ==> r is Err && r->Err_0@
            == "internal error: invalid entrypoint argument index"@,
{
    let mut args: Vec<EntrypointArg> = Vec::new();
    if !has_account {
        args.push(EntrypointArg::Word);
        assert(args@ =~= seq![EntrypointArg::Word]);
        return Ok(args);
    }
    if arg_word_idx == 0 {
        args.push(EntrypointArg::Word);
        args.push(EntrypointArg::Account);
        assert(args@ =~= seq![EntrypointArg::Word, EntrypointArg::Account]);
        Ok(args)
    } else if arg_word_idx == 1 {
        args.push(EntrypointArg::Account);
        args.push(EntrypointArg::Word);
        assert(args@ =~= seq![EntrypointArg::Account, EntrypointArg::Word]);
        Ok(args)
    } else {
        Err(String::from_str("internal error: invalid entrypoint argument index"))
    }
}

/// The attribute that marks a note's entrypoint method.
pub const NOTE_SCRIPT_ATTR: &'static str = "note_script";

/// The helper attribute that marks a note's entrypoint method.
pub const NOTE_SCRIPT_MARKER_ATTR: &'static str = "miden_note_script_requires_note";

/// The doc-string marker of a note's entrypoint method.
pub const NOTE_SCRIPT_DOC_MARKER: &'static str = "__miden_note_script_marker";

/// The shape of an attribute, as far as entrypoint markers look at it.
#[derive(Debug, Clone, PartialEq, Eq)]
pub struct AttrShape {
    /// The identifier of the last segment of the attribute's path, if it has segments.
    pub last_segment: Option<String>,
    /// Whether that segment has generic arguments.
    pub last_segment_has_arguments: bool,
    /// Whether the attribute's path is the single identifier `doc`.
    pub is_doc: bool,
    /// The string value of a `name = "value"` attribute whose value is a string literal.
    pub string_value: Option<String>,
}

/// Whether an attribute's path ends in `name` (without arguments).
pub open spec fn spec_is_attr_named(attr: AttrShape, name: Seq<char>) -> bool {
    attr.last_segment is Some && attr.last_segment->Some_0@ == name && !attr.last_segment_has_arguments
}

/// Whether an attribute's path ends in `name` (without arguments).
pub fn is_attr_named(attr: &AttrShape, name: &str) -> (r: bool)
    ensures
        r == spec_is_attr_named(*attr, name@),
{
    if attr.last_segment_has_arguments {
        return false;
    }
    match &attr.last_segment {
        Some(segment) => *segment == String::from_str(name),
        None => false,
    }
}

/// Whether an attribute is `#[doc = "..."]` with `marker` as its value.
pub open spec fn spec_is_doc_marker_attr(attr: AttrShape, marker: Seq<char>) -> bool {
    attr.is_doc && attr.string_value is Some && attr.string_value->Some_0@ == marker
}

/// Returns true if `attr` is `#[doc = "..."]` with `marker` as the string value.
pub fn is_doc_marker_attr(attr: &AttrShape, marker: &str) -> (r: bool)
    ensures
        r == spec_is_doc_marker_attr(*attr, marker@),
{
    if !attr.is_doc {
        return false;
    }
    match &attr.string_value {
        Some(value) => *value == String::from_str(marker),
        None => false,
    }
}

/// Whether an attribute marks a method as the note entrypoint: `#[note_script]`, its helper
/// attribute, or the doc-string marker.
pub open spec fn spec_is_entrypoint_marker_attr(attr: AttrShape) -> bool {
    spec_is_attr_named(attr, NOTE_SCRIPT_ATTR@) || spec_is_attr_named(
        attr,
        NOTE_SCRIPT_MARKER_ATTR@,
    ) || spec_is_doc_marker_attr(attr, NOTE_SCRIPT_DOC_MARKER@)
}

/// Returns true if an attribute marks a method as the note entrypoint.
pub fn is_entrypoint_marker_attr(attr: &AttrShape) -> (r: bool)
    ensures
        r == spec_is_entrypoint_marker_attr(*attr),
{
    is_attr_named(attr, NOTE_SCRIPT_ATTR) || is_attr_named(attr, NOTE_SCRIPT_MARKER_ATTR)
        || is_doc_marker_attr(attr, NOTE_SCRIPT_DOC_MARKER)
}

/// Returns true if any entrypoint marker attribute is present.
pub fn has_entrypoint_marker_attr(attrs: &[AttrShape]) -> (r: bool)
    ensures
        r == exists|i: int| 0 <= i < attrs@.len() && spec_is_entrypoint_marker_attr(
            #[trigger] attrs@[i],
        ),
{
    let mut i: usize = 0;
    while i < attrs.len()
        invariant
            i <= attrs@.len(),
            forall|j: int| 0 <= j < i ==> !spec_is_entrypoint_marker_attr(#[trigger] attrs@[j]),
        decreases attrs@.len() - i,
    {
        if is_entrypoint_marker_attr(&attrs[i]) {
            return true;
        }
        i += 1;
    }
    false
}


/// Copies an optional string.
fn clone_opt_string(s: &Option<String>) -> (r: Option<String>)
    ensures
        r == *s,
{
    match s {
        Some(x) => Some(x.clone()),
        None => None,
    }
}

/// Copies an attribute shape.
fn clone_attr(a: &AttrShape) -> (r: AttrShape)
    ensures
        r == *a,
{
    AttrShape {
        last_segment: clone_opt_string(&a.last_segment),
        last_segment_has_arguments: a.last_segment_has_arguments,
        is_doc: a.is_doc,
        string_value: clone_opt_string(&a.string_value),
    }
}

/// A method of an `impl` block, as far as entrypoint extraction looks at it: its name and its
/// attributes.
#[derive(Debug)]
pub struct MethodShape {
    /// The method's identifier.
    pub name: String,
    /// The method's attributes, in order.
    pub attrs: Vec<AttrShape>,
}

/// An item of an `impl` block.
#[derive(Debug)]
pub enum ImplItemShape {
    /// A method.
    Fn(MethodShape),
    /// Any other item (constant, type, macro).
    Other,
}

/// A method as plain values.
pub struct MethodView {
    /// The method's identifier.
    pub name: Seq<char>,
    /// The method's attributes.
    pub attrs: Seq<AttrShape>,
}

/// An `impl` item as plain values.
pub enum ImplItemView {
    /// A method.
    Fn(MethodView),
    /// Any other item.
    Other,
}

impl View for MethodShape {
    type V = MethodView;

    open spec fn view(&self) -> MethodView {
        MethodView { name: self.name@, attrs: self.attrs@ }
    }
}

impl View for ImplItemShape {
    type V = ImplItemView;

    open spec fn view(&self) -> ImplItemView {
        match self {
            ImplItemShape::Fn(m) => ImplItemView::Fn(m@),
            ImplItemShape::Other => ImplItemView::Other,
        }
    }
}

/// The views of a sequence of `impl` items.
pub open spec fn item_views(items: Seq<ImplItemShape>) -> Seq<ImplItemView> {
    items.map_values(|i: ImplItemShape| i@)
}

/// The views of a sequence of methods.
pub open spec fn method_views(methods: Seq<MethodShape>) -> Seq<MethodView> {
    methods.map_values(|m: MethodShape| m@)
}

/// Whether some attribute in `attrs` marks the note entrypoint.
pub open spec fn spec_has_entrypoint_marker(attrs: Seq<AttrShape>) -> bool {
    exists|i: int| 0 <= i < attrs.len() && spec_is_entrypoint_marker_attr(#[trigger] attrs[i])
}

/// `attrs` without its entrypoint markers, the others in order.
pub open spec fn spec_strip_entrypoint_markers(attrs: Seq<AttrShape>) -> Seq<AttrShape> {
    attrs.filter(|a: AttrShape| !spec_is_entrypoint_marker_attr(a))
}

/// Whether an `impl` item is a method marked as the note entrypoint.
pub open spec fn spec_is_entrypoint_item(item: ImplItemView) -> bool {
    item matches ImplItemView::Fn(m) && spec_has_entrypoint_marker(m.attrs)
}

/// An `impl` item as it is emitted: a marked method loses its entrypoint markers, every other
/// item is unchanged.
pub open spec fn spec_strip_item(item: ImplItemView) -> ImplItemView {
    match item {
        ImplItemView::Fn(m) => if spec_has_entrypoint_marker(m.attrs) {
            ImplItemView::Fn(MethodView { name: m.name, attrs: spec_strip_entrypoint_markers(m.attrs) })
        } else {
            ImplItemView::Fn(m)
        },
        ImplItemView::Other => ImplItemView::Other,
    }
}

/// The marked methods of an `impl` block, in order, with their markers.
pub open spec fn spec_entrypoints(items: Seq<ImplItemView>) -> Seq<MethodView> {
    items.filter(|i: ImplItemView| spec_is_entrypoint_item(i)).map_values(
        |i: ImplItemView| i->Fn_0,
    )
}

/// The error when no method is marked as the entrypoint.
pub const MISSING_ENTRYPOINT_ERROR: &'static str =
    "`#[note]` requires an entrypoint method annotated with `#[note_script]`";

/// The error when more than one method is marked as the entrypoint.
pub const MULTIPLE_ENTRYPOINTS_ERROR: &'static str =
    "`#[note]` requires a single entrypoint method (only one `#[note_script]` method is allowed)";

/// Copies a method.
fn clone_method(m: &MethodShape) -> (r: MethodShape)
    ensures
        r@ == m@,
{
    let mut attrs: Vec<AttrShape> = Vec::new();
    let mut i: usize = 0;
    while i < m.attrs.len()
        invariant
            i <= m.attrs@.len(),
            attrs@ == m.attrs@.take(i as int),
        decreases m.attrs@.len() - i,
    {
        attrs.push(clone_attr(&m.attrs[i]));
        assert(m.attrs@.take(i + 1) =~= m.attrs@.take(i as int).push(m.attrs@[i as int]));
        i += 1;
    }
    assert(m.attrs@.take(m.attrs@.len() as int) =~= m.attrs@);
    MethodShape { name: m.name.clone(), attrs }
}

/// Removes the entrypoint markers from a list of attributes, keeping the others in order.
pub fn strip_entrypoint_markers(attrs: &Vec<AttrShape>) -> (r: Vec<AttrShape>)
    ensures
        r@ == spec_strip_entrypoint_markers(attrs@),
{
    let mut out: Vec<AttrShape> = Vec::new();
    let mut i: usize = 0;
    while i < attrs.len()
        invariant
            i <= attrs@.len(),
            out@ == spec_strip_entrypoint_markers(attrs@.take(i as int)),
        decreases attrs@.len() - i,
    {
        let keep = !is_entrypoint_marker_attr(&attrs[i]);
        if keep {
            out.push(clone_attr(&attrs[i]));
        }
        proof {
            let pre = attrs@.take(i as int);
            let next = attrs@.take(i + 1);
            assert(next.drop_last() =~= pre);
            assert(next.last() == attrs@[i as int]);
            reveal(Seq::filter);
        }
        i += 1;
    }
    assert(attrs@.take(attrs@.len() as int) =~= attrs@);
    out
}

/// Finds the method of an `impl` block marked as the note entrypoint.
///
/// Returns a copy of the marked method, with its markers, and the block's items with the markers
/// removed from the marked method so that they do not reach the output. Exactly one method must
/// be marked.
pub fn extract_entrypoint(items: Vec<ImplItemShape>) -> (r: Result<(MethodShape, Vec<ImplItemShape>), String>)
    ensures
        spec_entrypoints(item_views(items@)).len() == 1 ==> r is Ok && r->Ok_0.0@ == spec_entrypoints(
            item_views(items@),
        )[0] && item_views(r->Ok_0.1@) == item_views(items@).map_values(
            |i: ImplItemView| spec_strip_item(i),
        ),
        spec_entrypoints(item_views(items@)).len() == 0 ==> r is Err && r->Err_0@
            == MISSING_ENTRYPOINT_ERROR@,
        spec_entrypoints(item_views(items@)).len() > 1 ==> r is Err && r->Err_0@
            == MULTIPLE_ENTRYPOINTS_ERROR@,
{
    let ghost views = item_views(items@);
    let mut entrypoints: Vec<MethodShape> = Vec::new();
    let mut out: Vec<ImplItemShape> = Vec::new();
    let mut i: usize = 0;
    while i < items.len()
        invariant
            i <= items@.len(),
            views == item_views(items@),
            item_views(out@) == views.take(i as int).map_values(|v: ImplItemView| spec_strip_item(v)),
            method_views(entrypoints@) == spec_entrypoints(views.take(i as int)),
        decreases items@.len() - i,
    {
        let ghost before_out = out@;
        let ghost before_ents = entrypoints@;
        let ghost pre = views.take(i as int);
        let ghost next = views.take(i + 1);
        let ghost v = views[i as int];
        match &items[i] {
            ImplItemShape::Fn(m) => {
                if has_entrypoint_marker_attr(m.attrs.as_slice()) {
                    entrypoints.push(clone_method(m));
                    let attrs = strip_entrypoint_markers(&m.attrs);
                    out.push(ImplItemShape::Fn(MethodShape { name: m.name.clone(), attrs }));
                } else {
                    out.push(ImplItemShape::Fn(clone_method(m)));
                }
            },
            ImplItemShape::Other => {
                out.push(ImplItemShape::Other);
            },
        }
        proof {
            assert(next.drop_last() =~= pre);
            assert(next.last() == v);
            assert(item_views(out@) =~= item_views(before_out).push(out@.last()@));
            assert(next.map_values(|w: ImplItemView| spec_strip_item(w)) =~= pre.map_values(
                |w: ImplItemView| spec_strip_item(w),
            ).push(spec_strip_item(v)));
            reveal(Seq::filter);
            let fpre = pre.filter(|w: ImplItemView| spec_is_entrypoint_item(w));
            let fnext = next.filter(|w: ImplItemView| spec_is_entrypoint_item(w));
            if spec_is_entrypoint_item(v) {
                assert(fnext == fpre.push(v));
                assert(method_views(entrypoints@) =~= method_views(before_ents).push(
                    entrypoints@.last()@,
                ));
                assert(fnext.map_values(|w: ImplItemView| w->Fn_0) =~= fpre.map_values(
                    |w: ImplItemView| w->Fn_0,
                ).push(v->Fn_0));
            } else {
                assert(fnext == fpre);
                assert(entrypoints@ == before_ents);
            }
        }
        i += 1;
    }
    proof {
        assert(views.take(items@.len() as int) =~= views);
    }
    if entrypoints.len() == 1 {
        let only = entrypoints.pop().unwrap();
        proof {
            assert(method_views(entrypoints@.push(only))[0] == only@);
        }
        Ok((only, out))
    } else if entrypoints.len() == 0 {
        Err(String::from_str(MISSING_ENTRYPOINT_ERROR))
    } else {
        Err(String::from_str(MULTIPLE_ENTRYPOINTS_ERROR))
    }
}


/// The names a note script's bindings are generated under.
#[derive(Debug)]
pub struct NoteNames {
    /// The exported function: the entrypoint's name in kebab case.
    pub export_name: String,
    /// The component package: `miden:` and the package name in kebab case.
    pub component_package: String,
    /// The interface: the component package in kebab case.
    pub interface_name: String,
    /// The world: the interface followed by `-world`.
    pub world_name: String,
    /// The generated bindings module: the interface in snake case.
    pub interface_module: String,
}

/// The error for `#[note]` on a trait impl block.
pub const NOTE_ON_TRAIT_IMPL_ERROR: &'static str = "`#[note]` cannot be applied to trait impl blocks";

/// The error for `#[note]` on a generic impl block.
pub const NOTE_ON_GENERIC_IMPL_ERROR: &'static str = "`#[note]` does not support generic impl blocks";

/// The error for `#[note]` on an impl block whose self type is not a plain path.
pub const NOTE_ON_NON_PATH_TYPE_ERROR: &'static str =
    "`#[note]` requires an impl block for a concrete type (e.g. `impl MyNote { ... }`)";

/// Whether a self type is a path without a qualified self type.
pub open spec fn spec_is_plain_path(ty: TypeShape) -> bool {
    ty matches TypeShape::Path { qualified_self, .. } && !qualified_self
}

/// The component package of a note script's package.
pub open spec fn spec_note_component_package(package_name: Seq<char>) -> Seq<char> {
    "miden:"@ + crate::wit_world::kebab_case(package_name)
}

/// The interface of a note script's package.
pub open spec fn spec_note_interface_name(package_name: Seq<char>) -> Seq<char> {
    crate::wit_world::kebab_case(spec_note_component_package(package_name))
}

/// Checks the impl block a `#[note]` attribute is applied to, and derives the names its bindings
/// are generated under.
///
/// A trait impl block, a generic impl block, and an impl block for a type other than a plain path
/// are refused, in that order, with the attribute's error messages.
pub fn note_impl_names(
    is_trait_impl: bool,
    has_generics: bool,
    self_ty: &TypeShape,
    entrypoint_name: &str,
    package_name: &str,
) -> (r: Result<NoteNames, String>)
    ensures
        is_trait_impl ==> r is Err && r->Err_0@ == NOTE_ON_TRAIT_IMPL_ERROR@,
        !is_trait_impl && has_generics ==> r is Err && r->Err_0@ == NOTE_ON_GENERIC_IMPL_ERROR@,
        !is_trait_impl && !has_generics && !spec_is_plain_path(*self_ty) ==> r is Err && r->Err_0@
            == NOTE_ON_NON_PATH_TYPE_ERROR@,
        !is_trait_impl && !has_generics && spec_is_plain_path(*self_ty) ==> r is Ok && ({
            let names = r->Ok_0;
            &&& names.export_name@ == crate::wit_world::kebab_case(entrypoint_name@)
            &&& names.component_package@ == spec_note_component_package(package_name@)
            &&& names.interface_name@ == spec_note_interface_name(package_name@)
            &&& names.world_name@ == spec_note_interface_name(package_name@) + "-world"@
            &&& names.interface_module@ == crate::wit_world::snake_case(spec_note_interface_name(package_name@))
        }),
{
    if is_trait_impl {
        return Err(String::from_str(NOTE_ON_TRAIT_IMPL_ERROR));
    }
    if has_generics {
        return Err(String::from_str(NOTE_ON_GENERIC_IMPL_ERROR));
    }
    let plain = match self_ty {
        TypeShape::Path { qualified_self, .. } => !*qualified_self,
        _ => false,
    };
    if !plain {
        return Err(String::from_str(NOTE_ON_NON_PATH_TYPE_ERROR));
    }
    let export_name = to_kebab_case(entrypoint_name);
    let package_kebab = to_kebab_case(package_name);
    let component_package = component_package_id(package_kebab.as_str());
    let interface_name = to_kebab_case(component_package.as_str());
    let mut world_name = interface_name.clone();
    world_name.append("-world");
    let interface_module = to_snake_case(interface_name.as_str());
    Ok(NoteNames { export_name, component_package, interface_name, world_name, interface_module })
}

} // verus!
