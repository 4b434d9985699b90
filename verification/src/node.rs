//! The node data model and its mathematical resolution.

use vstd::prelude::*;

verus! {

/// One renderable unit of markup.
///
/// A tree of nodes is finite and acyclic by construction: every child is
/// owned by its parent, so no node can contain itself.
pub enum Node {
    /// A leaf of literal (already escaped by the caller) markup or content.
    Text(String),
    /// Deferred content: the node a component's callable produced. It is
    /// recursed into at resolution time.
    Component(Box<Node>),
    /// An ordered sequence of children, concatenated in order with no
    /// separator.
    Composite(Vec<Node>),
}

/// The string a node resolves to: the depth-first, left-to-right
/// concatenation of every text payload reachable in the tree.
pub open spec fn resolved(n: Node) -> Seq<char>
    decreases n,
{
    match n {
        Node::Text(s) => s@,
        Node::Component(inner) => resolved(*inner),
        Node::Composite(children) => resolved_seq(children@),
    }
}

/// The concatenation of the resolutions of a sequence of nodes, in order.
pub open spec fn resolved_seq(s: Seq<Node>) -> Seq<char>
    decreases s,
{
    if s.len() == 0 {
        Seq::<char>::empty()
    } else {
        resolved(s[0]) + resolved_seq(s.drop_first())
    }
}

/// The depth of a tree: the longest chain of nodes from the root down to a
/// leaf. Every tree is at least one node deep.
pub open spec fn depth(n: Node) -> nat
    decreases n,
{
    match n {
        Node::Text(_) => 1,
        Node::Component(inner) => 1 + depth(*inner),
        Node::Composite(children) => 1 + depth_seq(children@),
    }
}

/// The largest depth among a sequence of sibling nodes; zero when there
/// are none.
pub open spec fn depth_seq(s: Seq<Node>) -> nat
    decreases s,
{
    if s.len() == 0 {
        0
    } else if depth(s[0]) >= depth_seq(s.drop_first()) {
        depth(s[0])
    } else {
        depth_seq(s.drop_first())
    }
}

/// The conventional placeholder handed to a component's callable: an empty
/// text leaf. The callable is expected to ignore it.
pub open spec fn is_placeholder(n: Node) -> bool {
    n matches Node::Text(s) && s@ == Seq::<char>::empty()
}

/// Builds the conventional placeholder value.
pub fn placeholder() -> (n: Node)
    ensures
        is_placeholder(n),
{
    Node::Text(String::new())
}

/// Builds a literal text leaf.
pub fn text(s: String) -> (n: Node)
    ensures
        n == Node::Text(s),
        resolved(n) == s@,
{
    Node::Text(s)
}

/// Builds an ordered composite of children.
pub fn composite(children: Vec<Node>) -> (n: Node)
    ensures
        n == Node::Composite(children),
        resolved(n) == resolved_seq(children@),
{
    Node::Composite(children)
}

/// Builds a component from its callable. The callable is invoked exactly
/// once, with the conventional empty-text placeholder as its immaterial
/// argument, and the node it produces becomes the component's deferred
/// content.
pub fn component<F: FnOnce(Node) -> Node>(f: F) -> (n: Node)
    requires
        forall|p: Node| is_placeholder(p) ==> call_requires(f, (p,)),
    ensures
        n is Component,
        exists|p: Node, produced: Node|
            is_placeholder(p) && call_ensures(f, (p,), produced)
                && (n matches Node::Component(inner) && *inner == produced)
                && resolved(n) == resolved(produced),
{
    let p = placeholder();
    let produced = f(p);
    Node::Component(Box::new(produced))
}

} // verus!
