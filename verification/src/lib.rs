//! A small markup-composition engine: a tree of renderable nodes (literal
//! text, deferred components, ordered composites) collapses, by depth-first
//! traversal, into a single HTML document string.

pub mod components;
pub mod laws;
pub mod node;
pub mod resolve;
