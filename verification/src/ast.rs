//! The program tree the pass walks, as much of it as the pass reads.
//!
//! Literal text leaves carry their text; module linkage declarations and
//! call expressions carry what the traversal policy consults; every other
//! construct appears only through its children. A template segment keeps the
//! raw text as written beside its escape-decoded cooked form, and the cooked
//! form is only ever derived from the raw text, never set independently.

use vstd::prelude::*;

verus! {

/// The module linkage declarations whose subtrees the walk never enters.
#[derive(Clone, Copy, Debug, PartialEq, Eq, Structural)]
pub enum LinkKind {
    ExportAll,
    NamedExport,
    ExportDefaultDecl,
    ImportDecl,
    ImportSpecifier,
}

/// One node of the program tree.
pub enum Node {
    /// A plain string literal.
    StrLit { value: String },
    /// One quasi-literal (template) segment: the raw text as written and,
    /// when known, its escape-decoded cooked form.
    TplSeg { raw: String, cooked: Option<String>, tail: bool },
    /// Free text content among markup element children.
    JsxText { raw: String, value: String },
    /// A module linkage declaration; its subtree holds module path text.
    Link { kind: LinkKind, children: Vec<Node> },
    /// A call expression; `import_callee` marks the dynamic-import form.
    Call { import_callee: bool, children: Vec<Node> },
    /// Any other construct: only its children concern the pass.
    Other { children: Vec<Node> },
}

/// The mathematical shape of a node, over sequences of characters.
#[verifier::ext_equal]
pub enum NodeV {
    StrLit { value: Seq<char> },
    TplSeg { raw: Seq<char>, cooked: Option<Seq<char>>, tail: bool },
    JsxText { raw: Seq<char>, value: Seq<char> },
    Link { kind: LinkKind, children: Seq<NodeV> },
    Call { import_callee: bool, children: Seq<NodeV> },
    Other { children: Seq<NodeV> },
}

/// The shapes of a sequence of sibling nodes, in order.
pub open spec fn view_nodes(s: Seq<Node>) -> Seq<NodeV>
    decreases s,
{
    if s.len() == 0 {
        Seq::empty()
    } else {
        seq![view_node(s[0])] + view_nodes(s.subrange(1, s.len() as int))
    }
}

/// The shape of one node.
pub open spec fn view_node(n: Node) -> NodeV
    decreases n,
{
    match n {
        Node::StrLit { value } => NodeV::StrLit { value: value@ },
        Node::TplSeg { raw, cooked, tail } => NodeV::TplSeg {
            raw: raw@,
            cooked: match cooked {
                Some(c) => Some(c@),
                None => None,
            },
            tail,
        },
        Node::JsxText { raw, value } => NodeV::JsxText { raw: raw@, value: value@ },
        Node::Link { kind, children } => NodeV::Link { kind, children: view_nodes(children@) },
        Node::Call { import_callee, children } => NodeV::Call {
            import_callee,
            children: view_nodes(children@),
        },
        Node::Other { children } => NodeV::Other { children: view_nodes(children@) },
    }
}

impl View for Node {
    type V = NodeV;

    open spec fn view(&self) -> NodeV {
        view_node(*self)
    }
}

/// `view_nodes` is the elementwise `view_node`.
pub proof fn lemma_view_nodes_index(s: Seq<Node>)
    ensures
        view_nodes(s).len() == s.len(),
        forall|i: int| 0 <= i < s.len() ==> #[trigger] view_nodes(s)[i] == view_node(s[i]),
    decreases s,
{
    if s.len() > 0 {
        let rest = s.subrange(1, s.len() as int);
        lemma_view_nodes_index(rest);
        assert forall|i: int| 0 <= i < s.len() implies #[trigger] view_nodes(s)[i]
            == view_node(s[i]) by {
            if i > 0 {
                assert(view_nodes(s)[i] == view_nodes(rest)[i - 1]);
                assert(rest[i - 1] == s[i]);
            }
        }
    }
}

/// What decoding a template segment's raw text yields; a function of the
/// raw text alone.
pub uninterp spec fn cooked_of(raw: Seq<char>) -> Seq<char>;

/// Relies on swc_core's `Str::from_tpl_raw`: decodes a template segment's
/// raw text into its cooked value, deterministically in the raw text, which
/// `cooked_of` names. Diagnostics for invalid escapes go to a discarding
/// handler, and any unpaired surrogate in the decoded value is replaced by
/// the substitution character on the way back to a `String`.
#[verifier::external_body]
pub(crate) fn decode_tpl_raw(raw: &str) -> (r: String)
    ensures
        r@ == cooked_of(raw@),
{
    let tpl = swc_core::ecma::ast::TplElement {
        span: swc_core::common::DUMMY_SP,
        tail: false,
        cooked: None,
        raw: raw.into(),
    };
    let handler = swc_core::common::errors::Handler::with_emitter_writer(
        Box::new(std::io::sink()),
        None,
    );
    let cooked = swc_core::common::errors::HANDLER.set(&handler, || {
        swc_core::ecma::ast::Str::from_tpl_raw(&tpl)
    });
    cooked.to_atom_lossy().as_str().to_string()
}

/// Builds a template segment whose cooked form is derived from its raw text:
/// the one way raw and cooked are ever set together.
pub fn tpl_seg(raw: String, tail: bool) -> (n: Node)
    ensures
        n@ == (NodeV::TplSeg { raw: raw@, cooked: Some(cooked_of(raw@)), tail }),
{
    let cooked = decode_tpl_raw(raw.as_str());
    Node::TplSeg { raw, cooked: Some(cooked), tail }
}

/// Raw/cooked consistency: wherever a template segment records a cooked
/// form, it is the decoded form of the segment's current raw text.
pub open spec fn node_wf(n: NodeV) -> bool
    decreases n,
{
    match n {
        NodeV::TplSeg { raw, cooked, tail } => match cooked {
            Some(c) => c == cooked_of(raw),
            None => true,
        },
        NodeV::Link { kind, children } => nodes_wf(children),
        NodeV::Call { import_callee, children } => nodes_wf(children),
        NodeV::Other { children } => nodes_wf(children),
        _ => true,
    }
}

/// Raw/cooked consistency over a sequence of sibling nodes.
pub open spec fn nodes_wf(s: Seq<NodeV>) -> bool
    decreases s,
{
    if s.len() == 0 {
        true
    } else {
        node_wf(s[0]) && nodes_wf(s.subrange(1, s.len() as int))
    }
}

} // verus!
