use saba_core::attribute::Attribute;
use saba_core::css::{Color, Declaration, FontSize, QualifiedRule, Selector, StyleSheet};
use saba_core::dom::{Element, Node, NodeKind};
use saba_core::http::HttpClient;
use saba_core::layout_object::{DisplayItem, LayoutPoint, LayoutSize};
use saba_core::layout_view::LayoutView;

fn attr(name: &str, value: &str) -> Attribute {
    let mut a = Attribute::new();
    for c in name.chars() {
        a.add_char(c, true);
    }
    for c in value.chars() {
        a.add_char(c, false);
    }
    a
}

fn elem(tag: &str, attrs: Vec<Attribute>) -> Node {
    Node::new(NodeKind::Element(Element::new(tag, attrs)))
}

fn text(s: &str) -> Node {
    Node::new(NodeKind::Text(s.to_string()))
}

fn with_children(mut parent: Node, children: Vec<Node>) -> Node {
    let mut head: Option<Box<Node>> = None;
    for c in children.into_iter().rev() {
        let mut c = c;
        c.next_sibling = head;
        head = Some(Box::new(c));
    }
    parent.first_child = head;
    parent
}

fn document_with_body(body_children: Vec<Node>) -> Node {
    let head = elem("head", Vec::new());
    let body = with_children(elem("body", Vec::new()), body_children);
    let html = with_children(elem("html", Vec::new()), vec![head, body]);
    with_children(Node::new(NodeKind::Document), vec![html])
}

#[test]
fn test_block_stack_geometry() {
    let p1 = with_children(elem("p", Vec::new()), vec![text("abc")]);
    let p2 = with_children(elem("p", Vec::new()), vec![text("hello")]);
    let dom = document_with_body(vec![p1, p2]);
    let layout_view = LayoutView::new(&dom, &StyleSheet::new());

    let root = layout_view.root();
    let body = root.as_ref().expect("root should exist");
    assert_eq!(LayoutSize::new(600, 32), body.size());
    assert_eq!(LayoutPoint::new(0, 0), body.point());

    let p1 = body.first_child().as_ref().expect("first p should exist");
    assert_eq!(LayoutSize::new(600, 16), p1.size());
    assert_eq!(LayoutPoint::new(0, 0), p1.point());

    let t1 = p1.first_child().as_ref().expect("text should exist");
    assert_eq!(LayoutSize::new(24, 16), t1.size());

    let p2 = p1.next_sibling().as_ref().expect("second p should exist");
    assert_eq!(LayoutSize::new(600, 16), p2.size());
    assert_eq!(LayoutPoint::new(0, 16), p2.point());
}

#[test]
fn test_inline_row_geometry() {
    let a1 = with_children(elem("a", Vec::new()), vec![text("ab")]);
    let a2 = with_children(elem("a", Vec::new()), vec![text("cd")]);
    let dom = document_with_body(vec![a1, a2]);
    let layout_view = LayoutView::new(&dom, &StyleSheet::new());

    let root = layout_view.root();
    let body = root.as_ref().expect("root should exist");
    assert_eq!(LayoutSize::new(600, 16), body.size());

    let a1 = body.first_child().as_ref().expect("first a should exist");
    assert_eq!(LayoutSize::new(16, 16), a1.size());
    assert_eq!(LayoutPoint::new(0, 0), a1.point());

    let a2 = a1.next_sibling().as_ref().expect("second a should exist");
    assert_eq!(LayoutSize::new(16, 16), a2.size());
    assert_eq!(LayoutPoint::new(16, 0), a2.point());
}

#[test]
fn test_paint_preorder() {
    let css = StyleSheet {
        rules: vec![QualifiedRule {
            selector: Selector::TypeSelector("body".to_string()),
            declarations: vec![Declaration {
                property: "background-color".to_string(),
                value: "red".to_string(),
            }],
        }],
    };
    let p = with_children(elem("p", Vec::new()), vec![text("hi")]);
    let dom = document_with_body(vec![p]);
    let layout_view = LayoutView::new(&dom, &css);

    let items = layout_view.paint();
    let expected = vec![
        DisplayItem::Rect {
            point: LayoutPoint::new(0, 0),
            size: LayoutSize::new(600, 16),
            color: Color::from_name("red").unwrap(),
        },
        DisplayItem::Text {
            point: LayoutPoint::new(0, 0),
            text: "hi".to_string(),
            color: Color::black(),
            font_size: FontSize::Medium,
        },
    ];
    assert_eq!(expected, items);
}

#[test]
fn test_paint_link() {
    let a = with_children(elem("a", vec![attr("href", "example.com")]), vec![text("go")]);
    let dom = document_with_body(vec![a]);
    let layout_view = LayoutView::new(&dom, &StyleSheet::new());

    let items = layout_view.paint();
    let expected = vec![
        DisplayItem::Link {
            point: LayoutPoint::new(0, 0),
            text: "go".to_string(),
            href: "example.com".to_string(),
        },
        DisplayItem::Text {
            point: LayoutPoint::new(0, 0),
            text: "go".to_string(),
            color: Color::black(),
            font_size: FontSize::Medium,
        },
    ];
    assert_eq!(expected, items);
}

#[test]
fn test_paint_empty_view() {
    let dom = Node::new(NodeKind::Document);
    let layout_view = LayoutView::new(&dom, &StyleSheet::new());
    assert!(layout_view.paint().is_empty());
}

#[test]
fn test_color_from_unknown_name() {
    assert!(Color::from_name("notacolor").is_none());
}

#[test]
fn test_color_from_code_keeps_code() {
    let c = Color::from_code("#123456");
    assert_eq!(None, c.name);
    assert_eq!("#123456".to_string(), c.code);
}

#[test]
fn test_is_ipv4_address() {
    assert!(HttpClient::is_ipv4_address("127.0.0.1"));
    assert!(HttpClient::is_ipv4_address("255.255.255.255"));
    assert!(!HttpClient::is_ipv4_address("localhost"));
    assert!(!HttpClient::is_ipv4_address("1.2.3"));
    assert!(!HttpClient::is_ipv4_address("1.2.3.4.5"));
    assert!(!HttpClient::is_ipv4_address("1.2.3.256"));
    assert!(!HttpClient::is_ipv4_address("01.2.3.4"));
    assert!(!HttpClient::is_ipv4_address("1..2.3"));
}

#[test]
fn test_ipv4_plus_sign() {
    assert!(HttpClient::is_ipv4_address("1.+2.3.4"));
    assert!(HttpClient::is_ipv4_address("+01.2.3.4"));
    assert!(!HttpClient::is_ipv4_address("++1.2.3.4"));
    assert!(!HttpClient::is_ipv4_address("+.2.3.4"));
    assert_eq!(Ok([1, 2, 3, 4]), HttpClient::parse_ipv4("+1.2.3.4"));
    assert!(HttpClient::parse_ipv4("+.2.3.4").is_err());
}

#[test]
fn test_parse_ipv4() {
    assert_eq!(Ok([127, 0, 0, 1]), HttpClient::parse_ipv4("127.0.0.1"));
    assert_eq!(Ok([1, 2, 3, 4]), HttpClient::parse_ipv4("01.2.3.4"));
    assert_eq!(
        Err("IPv4 address must have 4 parts".to_string()),
        HttpClient::parse_ipv4("1.2.3")
    );
    assert_eq!(
        Err("Invalid number in IPv4 address: 999".to_string()),
        HttpClient::parse_ipv4("1.2.3.999")
    );
    assert_eq!(
        Err("Invalid number in IPv4 address: x".to_string()),
        HttpClient::parse_ipv4("1.x.3.4")
    );
}

#[test]
fn test_resolve_host() {
    assert_eq!("127.0.0.1".to_string(), HttpClient::resolve_host("localhost"));
    assert_eq!(
        "example.com".to_string(),
        HttpClient::resolve_host("example.com")
    );
}

#[test]
fn test_build_request() {
    let request = HttpClient::build_request("example.com", "index.html");
    assert_eq!(
        "GET /index.html HTTP/1.1\nHost: example.com\nAccept: text/html\nConnection: close\n\n"
            .to_string(),
        request
    );
}
