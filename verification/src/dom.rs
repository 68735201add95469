//! A value model of the document tree the layout engine consumes: element
//! and text nodes linked through first-child/next-sibling chains.

use vstd::prelude::*;
use crate::attribute::{attrs_view, AttrModel, Attribute};
use crate::strutil::str_eq;

verus! {

/// An element: its (lowercase) tag name and its attributes in source order.
#[derive(Debug, Clone, PartialEq, Eq)]
pub struct Element {
    pub tag_name: String,
    pub attributes: Vec<Attribute>,
}

impl Element {
    /// Creates an element with this tag name and these attributes.
    pub fn new(tag_name: &str, attributes: Vec<Attribute>) -> (e: Element)
        ensures
            e.tag_name@ == tag_name@,
            e.attributes == attributes,
    {
        Element { tag_name: String::from_str(tag_name), attributes }
    }

    /// The element's tag name.
    pub fn tag_name(&self) -> (r: &String)
        ensures
            r == &self.tag_name,
    {
        &self.tag_name
    }

    /// The element's attributes, in source order.
    pub fn attributes(&self) -> (r: &Vec<Attribute>)
        ensures
            r == &self.attributes,
    {
        &self.attributes
    }
}

/// What a DOM node is: the document root, an element, or a text run.
#[derive(Debug, Clone, PartialEq, Eq)]
pub enum NodeKind {
    Document,
    Element(Element),
    Text(String),
}

/// Two node descriptors that agree content-for-content.
pub open spec fn node_kind_like(a: NodeKind, b: NodeKind) -> bool {
    match (a, b) {
        (NodeKind::Document, NodeKind::Document) => true,
        (NodeKind::Element(x), NodeKind::Element(y)) => x.tag_name@ == y.tag_name@ && attrs_view(
            x.attributes@,
        ) == attrs_view(y.attributes@),
        (NodeKind::Text(x), NodeKind::Text(y)) => x@ == y@,
        _ => false,
    }
}

/// A node of the document tree. Children are owned through `first_child` /
/// `next_sibling` chains; there is no parent link, ancestors hand what is
/// inherited down during traversal.
#[derive(Debug, PartialEq, Eq)]
pub struct Node {
    pub kind: NodeKind,
    pub first_child: Option<Box<Node>>,
    pub next_sibling: Option<Box<Node>>,
}

impl Node {
    /// A node of this kind with no children and no sibling.
    pub fn new(kind: NodeKind) -> (n: Node)
        ensures
            n == (Node { kind, first_child: None::<Box<Node>>, next_sibling: None::<Box<Node>> }),
    {
        Node { kind, first_child: None, next_sibling: None }
    }
}

/// Deep copy of a node descriptor, content-for-content.
pub fn clone_node_kind(k: &NodeKind) -> (r: NodeKind)
    ensures
        node_kind_like(r, *k),
{
    match k {
        NodeKind::Document => NodeKind::Document,
        NodeKind::Element(e) => {
            let mut attributes: Vec<Attribute> = Vec::new();
            let mut i: usize = 0;
            while i < e.attributes.len()
                invariant
                    i <= e.attributes.len(),
                    attributes@.len() == i,
                    forall|j: int| 0 <= j < i ==> (#[trigger] attributes@[j])@ == e.attributes@[j]@,
                decreases e.attributes.len() - i,
            {
                attributes.push(e.attributes[i].duplicate());
                i = i + 1;
            }
            proof {
                assert(attrs_view(attributes@) =~= attrs_view(e.attributes@));
            }
            NodeKind::Element(Element { tag_name: e.tag_name.clone(), attributes })
        },
        NodeKind::Text(s) => NodeKind::Text(s.clone()),
    }
}

/// True of the element node with tag name `body`.
pub open spec fn is_body_elem(n: Node) -> bool {
    match n.kind {
        NodeKind::Element(e) => e.tag_name@ == "body"@,
        _ => false,
    }
}

/// The first `body` element of the tree in depth-first order: the node
/// itself, then its children, then its siblings.
pub open spec fn spec_find_body(n: Node) -> Option<Node>
    decreases n,
{
    if is_body_elem(n) {
        Some(n)
    } else {
        let via_child = match n.first_child {
            Some(fc) => spec_find_body(*fc),
            None => None,
        };
        match via_child {
            Some(b) => Some(b),
            None => match n.next_sibling {
                Some(ns) => spec_find_body(*ns),
                None => None,
            },
        }
    }
}

/// Finds the first `body` element of the tree in depth-first order.
pub fn find_body(node: &Node) -> (r: Option<&Node>)
    ensures
        match (r, spec_find_body(*node)) {
            (Some(a), Some(b)) => *a == b,
            (None, None) => true,
            _ => false,
        },
    decreases *node,
{
    if let NodeKind::Element(e) = &node.kind {
        if str_eq(e.tag_name.as_str(), "body") {
            return Some(node);
        }
    }
    if let Some(fc) = &node.first_child {
        let r = find_body(fc);
        if r.is_some() {
            return r;
        }
    }
    match &node.next_sibling {
        Some(ns) => find_body(ns),
        None => None,
    }
}

} // verus!
