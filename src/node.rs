//! The markup tree: what the parser builds and the materializer consumes.
use vstd::prelude::*;

verus! {

broadcast use {vstd::std_specs::vec::axiom_vec_decreases_to_view, vstd::seq::axiom_seq_index_decreases, vstd::seq::axiom_seq_subrange_decreases};

/// The attributes an element may carry.
#[derive(Clone, Debug, PartialEq, Eq)]
pub struct Properties {
    pub class: Option<String>,
}

/// A node of the markup tree.
#[derive(Debug)]
pub enum FauxNode {
    /// A text leaf.
    Text(String),
    /// A `div` element with its children and attributes.
    Div(Vec<FauxNode>, Properties),
    /// An embedded host expression, kept as its source text; it must be
    /// expanded into a concrete subtree before the tree is materialized.
    Expr(String),
    /// A fragment: its children stand in its place.
    Fragment(Vec<FauxNode>),
}

/// A failed conversion between representations of a tree.
#[derive(Clone, Debug, PartialEq, Eq)]
pub enum Error {
    TryFrom(String),
}

/// The mathematical content of a markup tree.
pub enum Tree {
    Text(Seq<char>),
    Element(Seq<Tree>, Option<Seq<char>>),
    Expr(Seq<char>),
    Fragment(Seq<Tree>),
}

/// The class attribute's text, if any.
pub open spec fn class_view(p: Properties) -> Option<Seq<char>> {
    match p.class {
        Some(c) => Some(c@),
        None => None,
    }
}

impl FauxNode {
    /// The tree this node denotes.
    pub open spec fn tree(&self) -> Tree
        decreases self,
    {
        match self {
            FauxNode::Text(s) => Tree::Text(s@),
            FauxNode::Div(ch, p) => Tree::Element(trees(ch@), class_view(*p)),
            FauxNode::Expr(s) => Tree::Expr(s@),
            FauxNode::Fragment(ch) => Tree::Fragment(trees(ch@)),
        }
    }
}

/// The trees a sequence of nodes denotes.
pub open spec fn trees(v: Seq<FauxNode>) -> Seq<Tree>
    decreases v,
{
    if v.len() == 0 {
        Seq::empty()
    } else {
        trees(v.subrange(0, v.len() - 1)).push(v[v.len() - 1].tree())
    }
}

/// `trees` maps each node to its tree, position by position.
pub proof fn lemma_trees_index(v: Seq<FauxNode>)
    ensures
        trees(v).len() == v.len(),
        forall|i: int| 0 <= i < v.len() ==> #[trigger] trees(v)[i] == v[i].tree(),
    decreases v.len(),
{
    if v.len() > 0 {
        let w = v.subrange(0, v.len() - 1);
        lemma_trees_index(w);
        assert forall|i: int| 0 <= i < v.len() implies #[trigger] trees(v)[i] == v[i].tree() by {
            if i < v.len() - 1 {
                assert(w[i] == v[i]);
            }
        }
    }
}

} // verus!
