use markup::components::heading;
use markup::components::layout;
use markup::node::component;
use markup::node::composite;
use markup::node::text;
use markup::resolve::resolve_children;
use markup::resolve::resolve_with_depth_limit;
use markup::resolve::StructuralError;

const DOCUMENT_PREFIX: &str = "<!DOCTYPE html><html><head><title>rust components</title></head><body><div class=\"container mx-auto px-4 py-4 bg-gray-100 rounded-lg shadow-lg\">";
const DOCUMENT_SUFFIX: &str = "</div></body></html>";

#[test]
fn text_resolves_to_its_payload() {
    assert_eq!(resolve_children(text(String::from("x"))), "x");
}

#[test]
fn composite_concatenates_children_in_order() {
    let tree = composite(vec![
        text(String::from("a")),
        text(String::from("b")),
        text(String::from("c")),
    ]);
    assert_eq!(resolve_children(tree), "abc");
}

#[test]
fn composite_inserts_no_separators() {
    let tree = composite(vec![
        text(String::from("Alice<br>")),
        text(String::from("")),
        text(String::from("Bob<br>")),
    ]);
    assert_eq!(resolve_children(tree), "Alice<br>Bob<br>");
}

#[test]
fn empty_composite_resolves_to_empty_string() {
    let tree = composite(vec![]);
    assert_eq!(resolve_children(tree), "");
}

#[test]
fn component_resolves_to_what_its_callable_produces() {
    let tree = component(|_children| {
        composite(vec![text(String::from("left")), text(String::from("right"))])
    });
    assert_eq!(resolve_children(tree), "leftright");
}

#[test]
fn component_ignores_the_placeholder() {
    let tree = component(|_children| text(String::from("Hello world!")));
    assert_eq!(resolve_children(tree), "Hello world!");
}

#[test]
fn resolving_twice_yields_identical_strings() {
    let build = || {
        composite(vec![
            component(|_children| heading(text(String::from("Users")))),
            text(String::from("Alice<br>Bob<br>")),
        ])
    };
    assert_eq!(resolve_children(build()), resolve_children(build()));
}

#[test]
fn heading_wraps_users_in_h1() {
    let tree = heading(text(String::from("Users")));
    assert_eq!(resolve_children(tree), "<h1>Users</h1>");
}

#[test]
fn layout_embeds_content_verbatim_in_the_document() {
    let tree = layout(composite(vec![
        component(|_children| heading(text(String::from("Users")))),
        text(String::from("Alice<br>Bob<br>")),
    ]));
    let expected = format!(
        "{}{}{}",
        DOCUMENT_PREFIX, "<h1>Users</h1>Alice<br>Bob<br>", DOCUMENT_SUFFIX
    );
    assert_eq!(resolve_children(tree), expected);
}

#[test]
fn guarded_resolution_succeeds_within_the_limit() {
    let tree = composite(vec![
        component(|_children| heading(text(String::from("Users")))),
        text(String::from("Alice<br>")),
    ]);
    assert_eq!(
        resolve_with_depth_limit(tree, 10),
        Ok(String::from("<h1>Users</h1>Alice<br>"))
    );
}

#[test]
fn guarded_resolution_succeeds_at_the_exact_limit() {
    let tree = composite(vec![composite(vec![text(String::from("x"))])]);
    assert_eq!(resolve_with_depth_limit(tree, 3), Ok(String::from("x")));
}

#[test]
fn guarded_resolution_rejects_a_tree_deeper_than_the_limit() {
    let tree = composite(vec![composite(vec![text(String::from("x"))])]);
    assert_eq!(
        resolve_with_depth_limit(tree, 2),
        Err(StructuralError::DepthLimitExceeded)
    );
}

#[test]
fn nesting_wraps_the_resolved_fragment() {
    let inner = || heading(text(String::from("T")));
    let fragment = resolve_children(inner());
    let outer = layout(inner());
    assert_eq!(
        resolve_children(outer),
        format!("{}{}{}", DOCUMENT_PREFIX, fragment, DOCUMENT_SUFFIX)
    );
}
