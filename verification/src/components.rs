//! Component constructors: builder functions that wrap the resolved string
//! of their children inside fixed literal markup.

use vstd::prelude::*;
use vstd::string::StringExecFns;

use crate::node::Node;
use crate::node::resolved;
use crate::resolve::resolve_children;

verus! {

/// Wraps the resolved children in a top-level heading element.
pub fn heading(children: Node) -> (n: Node)
    ensures
        resolved(n) == "<h1>"@ + resolved(children) + "</h1>"@,
{
    let mut s = "<h1>".to_owned();
    let body = resolve_children(children);
    s.append(body.as_str());
    s.append("</h1>");
    Node::Text(s)
}

/// Wraps the resolved children in the document boilerplate: doctype, head
/// with the page title, and the content container.
pub fn layout(children: Node) -> (n: Node)
    ensures
        resolved(n) == (
        "<!DOCTYPE html><html><head><title>rust components</title></head><body><div class=\"container mx-auto px-4 py-4 bg-gray-100 rounded-lg shadow-lg\">"@
            + resolved(children) + "</div></body></html>"@),
{
    let mut s =
        "<!DOCTYPE html><html><head><title>rust components</title></head><body><div class=\"container mx-auto px-4 py-4 bg-gray-100 rounded-lg shadow-lg\">".to_owned();
    let body = resolve_children(children);
    s.append(body.as_str());
    s.append("</div></body></html>");
    Node::Text(s)
}

} // verus!
