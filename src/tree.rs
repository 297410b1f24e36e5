//! The parsed document: a tree of typed nodes, each with its children in order.
use vstd::prelude::*;

verus! {

/// What a node of the document is.
#[derive(Debug)]
pub enum NodeKind {
    /// A heading, with its level.
    Heading(u8),
    Paragraph,
    /// A bulleted or numbered list, with the byte of its bullet character.
    List(u8),
    /// One entry of a list.
    Item,
    /// A run of text.
    Text(String),
    /// Any other construct (the document root among them), by its name.
    Other(String),
}

/// A node of the document with its children.
#[derive(Debug)]
pub struct DocNode {
    pub kind: NodeKind,
    pub children: Vec<DocNode>,
}

/// The name of a node kind, as it is reported in errors.
pub open spec fn kind_label(k: NodeKind) -> Seq<char> {
    match k {
        NodeKind::Heading(_) => "heading"@,
        NodeKind::Paragraph => "paragraph"@,
        NodeKind::List(_) => "list"@,
        NodeKind::Item => "item"@,
        NodeKind::Text(_) => "text"@,
        NodeKind::Other(name) => name@,
    }
}

/// A node's own text: the text run that is its first child, if there is one.
pub open spec fn own_text(n: DocNode) -> Option<Seq<char>> {
    if n.children@.len() > 0 {
        match n.children@[0].kind {
            NodeKind::Text(t) => Some(t@),
            _ => None,
        }
    } else {
        None
    }
}

/// A list entry's text: the own text of its first child (the entry's paragraph).
pub open spec fn entry_text(n: DocNode) -> Option<Seq<char>> {
    if n.children@.len() > 0 {
        own_text(n.children@[0])
    } else {
        None
    }
}

impl NodeKind {
    /// The name of this kind, as it is reported in errors.
    pub fn label(&self) -> (r: String)
        ensures
            r@ == kind_label(*self),
    {
        match self {
            NodeKind::Heading(_) => String::from_str("heading"),
            NodeKind::Paragraph => String::from_str("paragraph"),
            NodeKind::List(_) => String::from_str("list"),
            NodeKind::Item => String::from_str("item"),
            NodeKind::Text(_) => String::from_str("text"),
            NodeKind::Other(name) => name.clone(),
        }
    }
}

impl DocNode {
    /// A node with no children.
    pub fn leaf(kind: NodeKind) -> (r: DocNode)
        ensures
            r.kind == kind,
            r.children@.len() == 0,
    {
        DocNode { kind, children: Vec::new() }
    }

    /// A node with the given children.
    pub fn with_children(kind: NodeKind, children: Vec<DocNode>) -> (r: DocNode)
        ensures
            r.kind == kind,
            r.children@ == children@,
    {
        DocNode { kind, children }
    }

    /// The text run that is this node's first child, if there is one.
    pub fn own_text(&self) -> (r: Option<String>)
        ensures
            r matches Some(t) ==> own_text(*self) == Some(t@),
            r is None ==> own_text(*self) is None,
    {
        if self.children.len() == 0 {
            return None;
        }
        match &self.children[0].kind {
            NodeKind::Text(t) => Some(t.clone()),
            _ => None,
        }
    }

    /// A list entry's text: the own text of its first child.
    pub fn entry_text(&self) -> (r: Option<String>)
        ensures
            r matches Some(t) ==> entry_text(*self) == Some(t@),
            r is None ==> entry_text(*self) is None,
    {
        if self.children.len() == 0 {
            return None;
        }
        self.children[0].own_text()
    }
}

} // verus!
