//! The tree rewriter: a full-tree walk from the program root that applies
//! the substitution engine at literal text leaves and never enters module
//! linkage subtrees.
//!
//! Per node kind the walk either stops (module linkage declarations and the
//! dynamic-import call form, whose strings are module resolution paths),
//! applies substitution to the leaf's text, or merely recurses.

use vstd::prelude::*;
use crate::ast::Node;
use crate::ast::NodeV;
use crate::ast::cooked_of;
use crate::ast::decode_tpl_raw;
use crate::ast::node_wf;
use crate::ast::nodes_wf;
use crate::ast::view_node;
use crate::ast::view_nodes;
use crate::matcher::Config;
use crate::matcher::MatcherSet;
use crate::matcher::PatternError;
use crate::matcher::any_rule_matches;
use crate::matcher::apply_rules;
use crate::matcher::re_valid;
use crate::matcher::scrub_text;

verus! {

/// The rewrite of one node: the traversal policy applied to its kind, with
/// the substitution engine's in-order run applied at text leaves. A template
/// segment whose raw text changed gets its cooked form re-derived from the
/// new raw text; a markup text leaf keeps its decoded value equal to its raw
/// text whenever it was rewritten.
pub open spec fn scrub_node(pats: Seq<Seq<char>>, filler: Seq<char>, n: NodeV) -> NodeV
    decreases n,
{
    match n {
        NodeV::StrLit { value } => NodeV::StrLit { value: scrub_text(pats, filler, value) },
        NodeV::TplSeg { raw, cooked, tail } => {
            if any_rule_matches(pats, filler, raw) {
                NodeV::TplSeg {
                    raw: apply_rules(pats, filler, raw),
                    cooked: Some(cooked_of(apply_rules(pats, filler, raw))),
                    tail,
                }
            } else {
                n
            }
        },
        NodeV::JsxText { raw, value } => {
            if any_rule_matches(pats, filler, raw) {
                NodeV::JsxText {
                    raw: apply_rules(pats, filler, raw),
                    value: apply_rules(pats, filler, raw),
                }
            } else {
                n
            }
        },
        NodeV::Link { .. } => n,
        NodeV::Call { import_callee, children } => {
            if import_callee {
                n
            } else {
                NodeV::Call { import_callee, children: scrub_nodes(pats, filler, children) }
            }
        },
        NodeV::Other { children } => NodeV::Other {
            children: scrub_nodes(pats, filler, children),
        },
    }
}

/// The rewrite of a sequence of sibling nodes, in order.
pub open spec fn scrub_nodes(pats: Seq<Seq<char>>, filler: Seq<char>, s: Seq<NodeV>) -> Seq<NodeV>
    decreases s,
{
    if s.len() == 0 {
        Seq::empty()
    } else {
        seq![scrub_node(pats, filler, s[0])] + scrub_nodes(
            pats,
            filler,
            s.subrange(1, s.len() as int),
        )
    }
}

impl MatcherSet {
    /// Rewrites one subtree, returning it with every qualifying text leaf
    /// run through the rules and module linkage subtrees untouched.
    pub fn scrub_tree(&self, n: Node) -> (r: Node)
        ensures
            r@ == scrub_node(self.pats(), self.spec_filler(), n@),
        decreases n,
    {
        match n {
            Node::StrLit { value } => {
                match self.rewrite_text(value.as_str()) {
                    Some(s) => Node::StrLit { value: s },
                    None => Node::StrLit { value },
                }
            },
            Node::TplSeg { raw, cooked, tail } => {
                match self.rewrite_text(raw.as_str()) {
                    Some(s) => {
                        let c = decode_tpl_raw(s.as_str());
                        Node::TplSeg { raw: s, cooked: Some(c), tail }
                    },
                    None => Node::TplSeg { raw, cooked, tail },
                }
            },
            Node::JsxText { raw, value } => {
                match self.rewrite_text(raw.as_str()) {
                    Some(s) => {
                        let v = s.clone();
                        Node::JsxText { raw: s, value: v }
                    },
                    None => Node::JsxText { raw, value },
                }
            },
            Node::Link { kind, children } => Node::Link { kind, children },
            Node::Call { import_callee, children } => {
                if import_callee {
                    Node::Call { import_callee, children }
                } else {
                    Node::Call { import_callee, children: self.scrub_vec(children) }
                }
            },
            Node::Other { children } => Node::Other { children: self.scrub_vec(children) },
        }
    }

    /// Rewrites every node of a sibling list, in order.
    fn scrub_vec(&self, v: Vec<Node>) -> (r: Vec<Node>)
        ensures
            view_nodes(r@) == scrub_nodes(self.pats(), self.spec_filler(), view_nodes(v@)),
        decreases v,
    {
        let ghost pats = self.pats();
        let ghost filler = self.spec_filler();
        let mut rest = v;
        let mut out: Vec<Node> = Vec::new();
        proof {
            assert(v@.subrange(0, v@.len() as int) =~= v@);
        }
        while rest.len() > 0
            invariant
                pats == self.pats(),
                filler == self.spec_filler(),
                out@.len() + rest@.len() == v@.len(),
                rest@ =~= v@.subrange(out@.len() as int, v@.len() as int),
                scrub_nodes(pats, filler, view_nodes(v@)) =~= view_nodes(out@) + scrub_nodes(
                    pats,
                    filler,
                    view_nodes(rest@),
                ),
            decreases rest@.len(),
        {
            let ghost rest_pre = rest@;
            let ghost out_pre = out@;
            let c = rest.remove(0);
            proof {
                assert(c == v@[out_pre.len() as int]);
                assert(rest@ =~= rest_pre.subrange(1, rest_pre.len() as int));
            }
            let s = self.scrub_tree(c);
            out.push(s);
            proof {
                assert(view_nodes(rest_pre)[0] == view_node(c));
                assert(view_nodes(rest_pre).subrange(1, view_nodes(rest_pre).len() as int)
                    =~= view_nodes(rest@)) by {
                    crate::ast::lemma_view_nodes_index(rest_pre);
                    crate::ast::lemma_view_nodes_index(rest@);
                }
                assert(scrub_nodes(pats, filler, view_nodes(rest_pre)) =~= seq![
                    scrub_node(pats, filler, view_node(c)),
                ] + scrub_nodes(pats, filler, view_nodes(rest@)));
                assert(view_nodes(out@) =~= view_nodes(out_pre) + seq![view_node(s)]) by {
                    crate::ast::lemma_view_nodes_index(out@);
                    crate::ast::lemma_view_nodes_index(out_pre);
                }
            }
        }
        proof {
            assert(view_nodes(rest@) =~= Seq::<NodeV>::empty());
            assert(view_nodes(out@) + scrub_nodes(pats, filler, view_nodes(rest@))
                =~= view_nodes(out@));
        }
        out
    }
}

/// No text that the walk consults in this subtree is matched by any rule
/// during the in-order run.
pub open spec fn node_unmatched(pats: Seq<Seq<char>>, filler: Seq<char>, n: NodeV) -> bool
    decreases n,
{
    match n {
        NodeV::StrLit { value } => !any_rule_matches(pats, filler, value),
        NodeV::TplSeg { raw, .. } => !any_rule_matches(pats, filler, raw),
        NodeV::JsxText { raw, .. } => !any_rule_matches(pats, filler, raw),
        NodeV::Link { .. } => true,
        NodeV::Call { import_callee, children } => import_callee || nodes_unmatched(
            pats,
            filler,
            children,
        ),
        NodeV::Other { children } => nodes_unmatched(pats, filler, children),
    }
}

/// `node_unmatched` over a sequence of sibling nodes.
pub open spec fn nodes_unmatched(pats: Seq<Seq<char>>, filler: Seq<char>, s: Seq<NodeV>) -> bool
    decreases s,
{
    if s.len() == 0 {
        true
    } else {
        node_unmatched(pats, filler, s[0]) && nodes_unmatched(
            pats,
            filler,
            s.subrange(1, s.len() as int),
        )
    }
}

/// No-op on non-matching input: a tree in which no rule matches any
/// consulted text comes back identical, node for node.
pub proof fn lemma_noop_on_unmatched(pats: Seq<Seq<char>>, filler: Seq<char>, n: NodeV)
    requires
        node_unmatched(pats, filler, n),
    ensures
        scrub_node(pats, filler, n) == n,
    decreases n,
{
    match n {
        NodeV::Call { import_callee, children } => {
            if !import_callee {
                lemma_noop_on_unmatched_nodes(pats, filler, children);
            }
        },
        NodeV::Other { children } => {
            lemma_noop_on_unmatched_nodes(pats, filler, children);
        },
        _ => {},
    }
}

/// `lemma_noop_on_unmatched` over a sequence of sibling nodes.
pub proof fn lemma_noop_on_unmatched_nodes(pats: Seq<Seq<char>>, filler: Seq<char>, s: Seq<NodeV>)
    requires
        nodes_unmatched(pats, filler, s),
    ensures
        scrub_nodes(pats, filler, s) == s,
    decreases s,
{
    if s.len() == 0 {
        assert(scrub_nodes(pats, filler, s) =~= s);
    } else {
        let rest = s.subrange(1, s.len() as int);
        lemma_noop_on_unmatched(pats, filler, s[0]);
        lemma_noop_on_unmatched_nodes(pats, filler, rest);
        assert(scrub_nodes(pats, filler, s) =~= s);
    }
}

/// Module linkage immunity: a linkage declaration or a dynamic-import call
/// comes back untouched, its module path text included, whatever the rules
/// and the filler are.
pub proof fn lemma_module_linkage_untouched(pats: Seq<Seq<char>>, filler: Seq<char>, n: NodeV)
    requires
        n is Link || (n matches NodeV::Call { import_callee: true, .. }),
    ensures
        scrub_node(pats, filler, n) == n,
{
}

/// The rewrite keeps raw and cooked forms consistent: a well-formed tree
/// (every recorded cooked form is the decoded form of its raw text) stays
/// well-formed, because a changed segment's cooked form is re-derived from
/// its new raw text and an unchanged segment keeps both forms.
pub proof fn lemma_scrub_preserves_wf(pats: Seq<Seq<char>>, filler: Seq<char>, n: NodeV)
    requires
        node_wf(n),
    ensures
        node_wf(scrub_node(pats, filler, n)),
    decreases n,
{
    match n {
        NodeV::Call { import_callee, children } => {
            if !import_callee {
                lemma_scrub_preserves_wf_nodes(pats, filler, children);
            }
        },
        NodeV::Other { children } => {
            lemma_scrub_preserves_wf_nodes(pats, filler, children);
        },
        _ => {},
    }
}

/// `lemma_scrub_preserves_wf` over a sequence of sibling nodes.
pub proof fn lemma_scrub_preserves_wf_nodes(pats: Seq<Seq<char>>, filler: Seq<char>, s: Seq<NodeV>)
    requires
        nodes_wf(s),
    ensures
        nodes_wf(scrub_nodes(pats, filler, s)),
    decreases s,
{
    if s.len() > 0 {
        let rest = s.subrange(1, s.len() as int);
        lemma_scrub_preserves_wf(pats, filler, s[0]);
        lemma_scrub_preserves_wf_nodes(pats, filler, rest);
        let out = scrub_nodes(pats, filler, s);
        assert(out[0] == scrub_node(pats, filler, s[0]));
        assert(out.subrange(1, out.len() as int) =~= scrub_nodes(pats, filler, rest));
    }
}

/// With no rules configured nothing is consulted as matching.
pub proof fn lemma_empty_rules_unmatched(filler: Seq<char>, n: NodeV)
    ensures
        node_unmatched(Seq::empty(), filler, n),
    decreases n,
{
    match n {
        NodeV::Call { import_callee, children } => {
            if !import_callee {
                lemma_empty_rules_unmatched_nodes(filler, children);
            }
        },
        NodeV::Other { children } => {
            lemma_empty_rules_unmatched_nodes(filler, children);
        },
        _ => {},
    }
}

/// `lemma_empty_rules_unmatched` over a sequence of sibling nodes.
pub proof fn lemma_empty_rules_unmatched_nodes(filler: Seq<char>, s: Seq<NodeV>)
    ensures
        nodes_unmatched(Seq::empty(), filler, s),
    decreases s,
{
    if s.len() > 0 {
        lemma_empty_rules_unmatched(filler, s[0]);
        lemma_empty_rules_unmatched_nodes(filler, s.subrange(1, s.len() as int));
    }
}

/// The all-defaults configuration is a no-op: with an empty rule list, any
/// tree comes back unchanged.
pub proof fn lemma_no_rules_noop(filler: Seq<char>, n: NodeV)
    ensures
        scrub_node(Seq::empty(), filler, n) == n,
{
    lemma_empty_rules_unmatched(filler, n);
    lemma_noop_on_unmatched(Seq::empty(), filler, n);
}

/// A pass that left no further matches is a fixed point: when no rule
/// matches any consulted text of the output, scrubbing the output again
/// changes nothing.
pub proof fn lemma_second_pass_noop(pats: Seq<Seq<char>>, filler: Seq<char>, n: NodeV)
    requires
        node_unmatched(pats, filler, scrub_node(pats, filler, n)),
    ensures
        scrub_node(pats, filler, scrub_node(pats, filler, n)) == scrub_node(pats, filler, n),
{
    lemma_noop_on_unmatched(pats, filler, scrub_node(pats, filler, n));
}

/// The whole pass: compiles the configuration's rules, then rewrites the
/// program tree from its root, returning the tree mutated. Fails, with the
/// first refused pattern's position and before the tree is touched, exactly
/// when some configured pattern is refused by the matching engine.
pub fn process_transform(program: Node, config: Config) -> (r: Result<Node, PatternError>)
    ensures
        (match r {
            Ok(t) => {
                &&& t@ == scrub_node(config.spec_patterns(), config.spec_filler(), program@)
                &&& forall|j: int|
                    0 <= j < config.spec_patterns().len() ==> re_valid(
                        #[trigger] config.spec_patterns()[j],
                    )
            },
            Err(e) => {
                &&& e.index < config.spec_patterns().len()
                &&& !re_valid(config.spec_patterns()[e.index as int])
                &&& forall|j: int|
                    0 <= j < e.index ==> re_valid(#[trigger] config.spec_patterns()[j])
            },
        }),
{
    match MatcherSet::new(config) {
        Ok(ms) => Ok(ms.scrub_tree(program)),
        Err(e) => Err(e),
    }
}

} // verus!
