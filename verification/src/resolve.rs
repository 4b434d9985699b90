//! The resolver: collapses a node tree into its output string.

use vstd::prelude::*;
use vstd::string::StringExecFns;

use crate::node::Node;
use crate::node::depth;
use crate::node::depth_seq;
use crate::node::resolved;
use crate::node::resolved_seq;

verus! {

/// The single failure the engine recognizes: a tree deeper than the
/// caller's recursion-depth limit. A cyclic tree cannot be built at all,
/// since every node owns its children.
#[derive(Debug, PartialEq, Eq, Structural)]
pub enum StructuralError {
    DepthLimitExceeded,
}

/// Concatenation distributes over resolution: resolving two sequences of
/// siblings one after the other yields the concatenation of their
/// resolutions.
pub proof fn lemma_resolved_seq_concat(s1: Seq<Node>, s2: Seq<Node>)
    ensures
        resolved_seq(s1 + s2) == resolved_seq(s1) + resolved_seq(s2),
    decreases s1.len(),
{
    if s1.len() == 0 {
        assert(s1 + s2 =~= s2);
        assert(resolved_seq(s1) + resolved_seq(s2) =~= resolved_seq(s2));
    } else {
        lemma_resolved_seq_concat(s1.drop_first(), s2);
        assert((s1 + s2).drop_first() =~= s1.drop_first() + s2);
        assert((s1 + s2)[0] == s1[0]);
        assert(resolved(s1[0]) + (resolved_seq(s1.drop_first()) + resolved_seq(s2)) =~= (
        resolved(s1[0]) + resolved_seq(s1.drop_first())) + resolved_seq(s2));
    }
}

/// Appending one more sibling appends exactly its resolution.
pub proof fn lemma_resolved_seq_push(s: Seq<Node>, x: Node)
    ensures
        resolved_seq(s.push(x)) == resolved_seq(s) + resolved(x),
{
    let single = seq![x];
    assert(single.drop_first() =~= Seq::<Node>::empty());
    assert(resolved_seq(single) == resolved(x) + resolved_seq(Seq::<Node>::empty()));
    assert(resolved(x) + Seq::<char>::empty() =~= resolved(x));
    lemma_resolved_seq_concat(s, single);
    assert(s.push(x) =~= s + single);
}

/// Every tree is at least one node deep.
proof fn lemma_depth_positive(n: Node)
    ensures
        depth(n) >= 1,
{
}

/// No sibling is deeper than the deepest sibling.
proof fn lemma_depth_seq_ge_element(s: Seq<Node>, i: int)
    requires
        0 <= i < s.len(),
    ensures
        depth(s[i]) <= depth_seq(s),
    decreases s.len(),
{
    if i > 0 {
        lemma_depth_seq_ge_element(s.drop_first(), i - 1);
        assert(s.drop_first()[i - 1] == s[i]);
    }
}

/// A bound on every sibling bounds the deepest sibling.
proof fn lemma_depth_seq_le(s: Seq<Node>, k: nat)
    requires
        forall|i: int| 0 <= i < s.len() ==> depth(s[i]) <= k,
    ensures
        depth_seq(s) <= k,
    decreases s.len(),
{
    if s.len() > 0 {
        assert(forall|i: int|
            0 <= i < s.drop_first().len() ==> s.drop_first()[i] == s[i + 1]);
        lemma_depth_seq_le(s.drop_first(), k);
        assert(depth(s[0]) <= k);
    }
}

/// Resolves one node by reference.
fn resolve_node(n: &Node) -> (r: String)
    ensures
        r@ == resolved(*n),
    decreases *n,
{
    match n {
        Node::Text(s) => s.clone(),
        Node::Component(inner) => resolve_node(inner),
        Node::Composite(children) => {
            let mut result = String::new();
            let mut i: usize = 0;
            #[verifier::loop_isolation(false)]
            while i < children.len()
                invariant
                    i <= children.len(),
                    result@ == resolved_seq(children@.take(i as int)),
                decreases children.len() - i,
            {
                proof {
                    assert(decreases_to!(*n => n->Composite_0));
                    assert(*children == n->Composite_0);
                    assert(decreases_to!(*children => children@));
                    assert(decreases_to!(children@ => children@[i as int]));
                }
                let piece = resolve_node(&children[i]);
                result.append(piece.as_str());
                proof {
                    lemma_resolved_seq_push(children@.take(i as int), children@[i as int]);
                    assert(children@.take(i as int + 1) =~= children@.take(i as int).push(
                        children@[i as int],
                    ));
                }
                i = i + 1;
            }
            proof {
                assert(children@.take(children@.len() as int) =~= children@);
            }
            result
        },
    }
}

/// Deterministically reduces a node tree to its flattened string: the
/// depth-first, left-to-right concatenation of every text payload in the
/// tree. Resolution of a tree never fails: trees are finite and acyclic by
/// construction.
pub fn resolve_children(children: Node) -> (r: String)
    ensures
        r@ == resolved(children),
{
    resolve_node(&children)
}

/// Resolves one node by reference, refusing to descend below the given
/// budget of remaining depth.
fn resolve_guarded(n: &Node, budget: usize) -> (r: Result<String, StructuralError>)
    ensures
        depth(*n) <= budget ==> (r matches Ok(s) && s@ == resolved(*n)),
        depth(*n) > budget ==> r == Err::<String, StructuralError>(
            StructuralError::DepthLimitExceeded,
        ),
    decreases *n,
{
    if budget == 0 {
        proof {
            lemma_depth_positive(*n);
        }
        return Err(StructuralError::DepthLimitExceeded);
    }
    match n {
        Node::Text(s) => Ok(s.clone()),
        Node::Component(inner) => resolve_guarded(inner, budget - 1),
        Node::Composite(children) => {
            let mut result = String::new();
            let mut i: usize = 0;
            #[verifier::loop_isolation(false)]
            while i < children.len()
                invariant
                    i <= children.len(),
                    result@ == resolved_seq(children@.take(i as int)),
                    forall|j: int| 0 <= j < i ==> depth(children@[j]) <= budget - 1,
                decreases children.len() - i,
            {
                proof {
                    assert(decreases_to!(*n => n->Composite_0));
                    assert(*children == n->Composite_0);
                    assert(decreases_to!(*children => children@));
                    assert(decreases_to!(children@ => children@[i as int]));
                }
                match resolve_guarded(&children[i], budget - 1) {
                    Ok(piece) => {
                        result.append(piece.as_str());
                        proof {
                            lemma_resolved_seq_push(
                                children@.take(i as int),
                                children@[i as int],
                            );
                            assert(children@.take(i as int + 1) =~= children@.take(
                                i as int,
                            ).push(children@[i as int]));
                        }
                        i = i + 1;
                    },
                    Err(e) => {
                        proof {
                            lemma_depth_seq_ge_element(children@, i as int);
                        }
                        return Err(e);
                    },
                }
            }
            proof {
                assert(children@.take(children@.len() as int) =~= children@);
                lemma_depth_seq_le(children@, (budget - 1) as nat);
            }
            Ok(result)
        },
    }
}

/// A guarded resolver: reduces the tree exactly as `resolve_children`
/// does, but fails with a structural error instead of descending deeper
/// than the given limit. It succeeds if and only if the tree's depth is
/// within the limit.
pub fn resolve_with_depth_limit(children: Node, depth_limit: usize) -> (r: Result<
    String,
    StructuralError,
>)
    ensures
        depth(children) <= depth_limit ==> (r matches Ok(s) && s@ == resolved(children)),
        depth(children) > depth_limit ==> r == Err::<String, StructuralError>(
            StructuralError::DepthLimitExceeded,
        ),
{
    resolve_guarded(&children, depth_limit)
}

} // verus!
