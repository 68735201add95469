use saba_core::attribute::Attribute;
use saba_core::css::{Color, Declaration, QualifiedRule, Selector, StyleSheet};
use saba_core::dom::{Element, Node, NodeKind};
use saba_core::layout_object::LayoutObjectKind;
use saba_core::layout_view::LayoutView;

fn attr(name: &str, value: &str) -> Attribute {
    let mut a = Attribute::new();
    for c in name.chars() {
        a.add_char(c, true);
    }
    for c in value.chars() {
        a.add_char(c, false);
    }
    a
}

fn elem(tag: &str, attrs: Vec<Attribute>) -> Node {
    Node::new(NodeKind::Element(Element::new(tag, attrs)))
}

fn text(s: &str) -> Node {
    Node::new(NodeKind::Text(s.to_string()))
}

fn with_children(mut parent: Node, children: Vec<Node>) -> Node {
    let mut head: Option<Box<Node>> = None;
    for c in children.into_iter().rev() {
        let mut c = c;
        c.next_sibling = head;
        head = Some(Box::new(c));
    }
    parent.first_child = head;
    parent
}

/// A document with an `html` element holding an empty `head` and a `body`
/// with these children.
fn document_with_body(body_children: Vec<Node>) -> Node {
    let head = elem("head", Vec::new());
    let body = with_children(elem("body", Vec::new()), body_children);
    let html = with_children(elem("html", Vec::new()), vec![head, body]);
    with_children(Node::new(NodeKind::Document), vec![html])
}

fn rule(selector: Selector, decls: Vec<(&str, &str)>) -> QualifiedRule {
    QualifiedRule {
        selector,
        declarations: decls
            .into_iter()
            .map(|(p, v)| Declaration {
                property: p.to_string(),
                value: v.to_string(),
            })
            .collect(),
    }
}

fn sheet(rules: Vec<QualifiedRule>) -> StyleSheet {
    StyleSheet { rules }
}

#[test]
fn layout_view_test_empty() {
    let dom = Node::new(NodeKind::Document);
    let layout_view = LayoutView::new(&dom, &StyleSheet::new());
    assert!(layout_view.root().is_none());
}

#[test]
fn test_body() {
    let dom = document_with_body(Vec::new());
    let layout_view = LayoutView::new(&dom, &StyleSheet::new());

    let root = layout_view.root();
    assert!(root.is_some());
    let root = root.as_ref().expect("root should exist");
    assert_eq!(LayoutObjectKind::Block, root.kind());
    assert_eq!(
        &NodeKind::Element(Element::new("body", Vec::new())),
        root.node_kind()
    );
}

#[test]
fn test_text() {
    let dom = document_with_body(vec![text("text")]);
    let layout_view = LayoutView::new(&dom, &StyleSheet::new());

    let root = layout_view.root();
    assert!(root.is_some());
    let root = root.as_ref().expect("root should exist");
    assert_eq!(LayoutObjectKind::Block, root.kind());
    assert_eq!(
        &NodeKind::Element(Element::new("body", Vec::new())),
        root.node_kind()
    );

    let t = root.first_child();
    assert!(t.is_some());
    let t = t.as_ref().expect("text node should exist");
    assert_eq!(LayoutObjectKind::Text, t.kind());
    assert_eq!(&NodeKind::Text("text".to_string()), t.node_kind());
}

#[test]
fn test_display_none() {
    let css = sheet(vec![rule(
        Selector::TypeSelector("body".to_string()),
        vec![("display", "none")],
    )]);
    let dom = document_with_body(vec![text("text")]);
    let layout_view = LayoutView::new(&dom, &css);

    assert!(layout_view.root().is_none());
}

#[test]
fn test_hidden_class() {
    let css = sheet(vec![rule(
        Selector::ClassSelector("hidden".to_string()),
        vec![("display", "none")],
    )]);
    let a = with_children(elem("a", vec![attr("class", "hidden")]), vec![text("link1")]);
    let p1 = elem("p", Vec::new());
    let p2 = with_children(
        elem("p", vec![attr("class", "hidden")]),
        vec![with_children(elem("a", Vec::new()), vec![text("link2")])],
    );
    let dom = document_with_body(vec![a, p1, p2]);
    let layout_view = LayoutView::new(&dom, &css);

    let root = layout_view.root();
    assert!(root.is_some());
    let root = root.as_ref().expect("root should exist");
    assert_eq!(LayoutObjectKind::Block, root.kind());
    assert_eq!(
        &NodeKind::Element(Element::new("body", Vec::new())),
        root.node_kind()
    );

    let p = root.first_child();
    assert!(p.is_some());
    let p = p.as_ref().expect("p node should exist");
    assert_eq!(LayoutObjectKind::Block, p.kind());
    assert_eq!(
        &NodeKind::Element(Element::new("p", Vec::new())),
        p.node_kind()
    );

    assert!(p.first_child().is_none());
    assert!(p.next_sibling().is_none());
}

#[test]
fn test_background_color_by_name() {
    let css = sheet(vec![rule(
        Selector::TypeSelector("body".to_string()),
        vec![("background-color", "red")],
    )]);
    let dom = document_with_body(vec![text("test")]);
    let layout_view = LayoutView::new(&dom, &css);

    let root = layout_view.root();
    assert!(root.is_some());

    let style = root.as_ref().expect("root should exist").style();
    assert_eq!(
        &Color::from_name("red").unwrap(),
        style.background_color()
    );
}

#[test]
fn test_background_color_by_code() {
    let css = sheet(vec![rule(
        Selector::TypeSelector("body".to_string()),
        vec![("background-color", "#ff0000")],
    )]);
    let dom = document_with_body(vec![text("test")]);
    let layout_view = LayoutView::new(&dom, &css);

    let root = layout_view.root();
    assert!(root.is_some());

    let style = root.as_ref().expect("root should exist").style();
    assert_eq!(
        &Color::from_name("red").unwrap(),
        style.background_color()
    );
}

#[test]
fn test_text_color_by_name() {
    let css = sheet(vec![rule(
        Selector::TypeSelector("body".to_string()),
        vec![("color", "blue")],
    )]);
    let dom = document_with_body(vec![text("test")]);
    let layout_view = LayoutView::new(&dom, &css);

    let root = layout_view.root();
    assert!(root.is_some());

    let style = root.as_ref().expect("root should exist").style();
    assert_eq!(&Color::from_name("blue").unwrap(), style.color());
}

#[test]
fn test_text_color_by_code() {
    let css = sheet(vec![rule(
        Selector::TypeSelector("body".to_string()),
        vec![("color", "#0000ff")],
    )]);
    let dom = document_with_body(vec![text("test")]);
    let layout_view = LayoutView::new(&dom, &css);

    let root = layout_view.root();
    assert!(root.is_some());

    let style = root.as_ref().expect("root should exist").style();
    assert_eq!(&Color::from_name("blue").unwrap(), style.color());
}

#[test]
fn test_display_inline() {
    let css = sheet(vec![rule(
        Selector::TypeSelector("p".to_string()),
        vec![("display", "inline")],
    )]);
    let p = with_children(elem("p", Vec::new()), vec![text("inline text")]);
    let dom = document_with_body(vec![p]);
    let layout_view = LayoutView::new(&dom, &css);

    let root = layout_view.root();
    assert!(root.is_some());

    let p = root.as_ref().expect("root should exist").first_child();
    assert!(p.is_some());
    assert_eq!(
        LayoutObjectKind::Inline,
        p.as_ref().expect("p node should exist").kind()
    );
}

#[test]
fn test_display_block() {
    let css = sheet(vec![rule(
        Selector::TypeSelector("a".to_string()),
        vec![("display", "block")],
    )]);
    let a = with_children(elem("a", Vec::new()), vec![text("block link")]);
    let dom = document_with_body(vec![a]);
    let layout_view = LayoutView::new(&dom, &css);

    let root = layout_view.root();
    assert!(root.is_some());

    let a = root.as_ref().expect("root should exist").first_child();
    assert!(a.is_some());
    assert_eq!(
        LayoutObjectKind::Block,
        a.as_ref().expect("a node should exist").kind()
    );
}

#[test]
fn test_multiple_css_properties() {
    let css = sheet(vec![rule(
        Selector::ClassSelector("styled".to_string()),
        vec![
            ("background-color", "red"),
            ("color", "white"),
            ("display", "block"),
        ],
    )]);
    let p = with_children(
        elem("p", vec![attr("class", "styled")]),
        vec![text("styled text")],
    );
    let dom = document_with_body(vec![p]);
    let layout_view = LayoutView::new(&dom, &css);

    let root = layout_view.root();
    assert!(root.is_some());

    let p = root.as_ref().expect("root should exist").first_child();
    assert!(p.is_some());
    let p_ref = p.as_ref().expect("p should exist");

    assert_eq!(LayoutObjectKind::Block, p_ref.kind());

    let style = p_ref.style();
    assert_eq!(&Color::from_name("red").unwrap(), style.background_color());
    assert_eq!(&Color::white(), style.color());
}

#[test]
fn test_id_selector() {
    let css = sheet(vec![rule(
        Selector::IdSelector("special".to_string()),
        vec![("background-color", "green")],
    )]);
    let p = with_children(
        elem("p", vec![attr("id", "special")]),
        vec![text("special paragraph")],
    );
    let dom = document_with_body(vec![p]);
    let layout_view = LayoutView::new(&dom, &css);

    let root = layout_view.root();
    assert!(root.is_some());

    let p = root.as_ref().expect("root should exist").first_child();
    assert!(p.is_some());

    let style = p.as_ref().expect("p should exist").style();
    assert_eq!(
        &Color::from_name("green").unwrap(),
        style.background_color()
    );
}

#[test]
fn test_type_selector() {
    let css = sheet(vec![
        rule(Selector::TypeSelector("p".to_string()), vec![("color", "red")]),
        rule(
            Selector::TypeSelector("h1".to_string()),
            vec![("background-color", "yellow")],
        ),
    ]);
    let p = with_children(elem("p", Vec::new()), vec![text("paragraph")]);
    let h1 = with_children(elem("h1", Vec::new()), vec![text("heading")]);
    let dom = document_with_body(vec![p, h1]);
    let layout_view = LayoutView::new(&dom, &css);

    let root = layout_view.root();
    assert!(root.is_some());

    let p = root.as_ref().expect("root should exist").first_child();
    assert!(p.is_some());
    let p_style = p.as_ref().expect("p should exist").style();
    assert_eq!(&Color::from_name("red").unwrap(), p_style.color());

    let h1 = p
        .as_ref()
        .expect("first child should exist")
        .next_sibling();
    assert!(h1.is_some());
    let h1_style = h1.as_ref().expect("h1 should exist").style();
    assert_eq!(
        &Color::from_name("yellow").unwrap(),
        h1_style.background_color()
    );
}

#[test]
fn test_css_inheritance() {
    let css = sheet(vec![rule(
        Selector::TypeSelector("body".to_string()),
        vec![("color", "blue")],
    )]);
    let p = with_children(elem("p", Vec::new()), vec![text("inherited text")]);
    let h1 = with_children(
        elem("h1", Vec::new()),
        vec![with_children(
            elem("a", Vec::new()),
            vec![text("nested inherited text")],
        )],
    );
    let dom = document_with_body(vec![p, h1]);
    let layout_view = LayoutView::new(&dom, &css);

    let root = layout_view.root();
    assert!(root.is_some());

    let body_style = root.as_ref().expect("root should exist").style();
    assert_eq!(&Color::from_name("blue").unwrap(), body_style.color());

    let first_element = root.as_ref().expect("root should exist").first_child();
    assert!(first_element.is_some());
    let first_style = first_element.as_ref().unwrap().style();
    assert_eq!(&Color::from_name("blue").unwrap(), first_style.color());
}
