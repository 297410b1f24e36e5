//! Turns a markdown outline of modules, narrative text and bulleted test
//! names into a typed specification tree.

pub mod fold;
pub mod laws;
pub mod markdown;
pub mod slug;
pub mod spek;
pub mod tree;
