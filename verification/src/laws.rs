//! The engine's laws, stated and proved over the mathematical resolution.

use vstd::prelude::*;

use crate::node::Node;
use crate::node::resolved;
use crate::node::resolved_seq;

verus! {

/// Resolution is deterministic: any two resolutions of the same tree
/// agree, so resolving a tree twice yields identical strings.
pub proof fn lemma_resolution_deterministic(n: Node, r1: Seq<char>, r2: Seq<char>)
    requires
        r1 == resolved(n),
        r2 == resolved(n),
    ensures
        r1 == r2,
{
}

/// A text leaf resolves to exactly its payload, unchanged.
pub proof fn lemma_text_resolves_to_payload(s: String)
    ensures
        resolved(Node::Text(s)) == s@,
{
}

/// A composite of three children resolves to the concatenation of their
/// resolutions, in order, with no inserted separators.
pub proof fn lemma_composite_of_three(a: Node, b: Node, c: Node, v: Vec<Node>)
    requires
        v@ == seq![a, b, c],
    ensures
        resolved(Node::Composite(v)) == resolved(a) + resolved(b) + resolved(c),
{
    assert(seq![c].drop_first() =~= Seq::<Node>::empty());
    assert(resolved_seq(seq![c]) == resolved(c) + resolved_seq(Seq::<Node>::empty()));
    assert(seq![b, c].drop_first() =~= seq![c]);
    assert(resolved_seq(seq![b, c]) == resolved(b) + resolved_seq(seq![c]));
    assert(v@.drop_first() =~= seq![b, c]);
    assert(resolved_seq(v@) == resolved(a) + resolved_seq(seq![b, c]));
    assert(resolved(a) + (resolved(b) + (resolved(c) + Seq::<char>::empty())) =~= resolved(a)
        + resolved(b) + resolved(c));
}

/// A component resolves to the resolution of the node its callable
/// produced: the deferred wrapper contributes nothing of its own.
pub proof fn lemma_component_transparent(inner: Box<Node>)
    ensures
        resolved(Node::Component(inner)) == resolved(*inner),
{
}

/// An empty composite resolves to the empty string.
pub proof fn lemma_empty_composite(v: Vec<Node>)
    requires
        v@ == Seq::<Node>::empty(),
    ensures
        resolved(Node::Composite(v)) == Seq::<char>::empty(),
{
    assert(v@.len() == 0);
    assert(resolved_seq(v@) == Seq::<char>::empty());
}

/// Nesting is associative: a fragment resolved early and embedded as a
/// text leaf resolves to exactly what the fragment itself resolves to, so
/// a template that wraps the resolved string of its children yields the
/// same output as concatenating its literal parts with the children's
/// resolution directly.
pub proof fn lemma_embedding_preserves_resolution(t: Node, s: String)
    requires
        s@ == resolved(t),
    ensures
        resolved(Node::Text(s)) == resolved(t),
{
}

} // verus!
