//! The layout view: builds the layout tree under the document's `body`,
//! runs the size pass and the position pass over it, and yields the ordered
//! display-item list a renderer draws from.

use vstd::prelude::*;
use crate::css::{opt_style, ComputedStyle, StyleSheet};
use crate::dom::{node_kind_like, spec_find_body, Node};
use crate::layout_object::{
    created_style_ok, kind_of, renders, spec_node_items, spec_node_size,
    spec_position, items_view, DisplayItem, LayoutObject, LayoutObjectKind, LayoutPoint,
    LayoutSize,
};
use crate::CONTENT_AREA_WIDTH;

verus! {

/// The value behind an optional boxed node.
pub open spec fn unbox_node(o: Option<Box<Node>>) -> Option<Node> {
    match o {
        Some(b) => Some(*b),
        None => None,
    }
}

/// The value behind an optional borrowed node.
pub open spec fn deref_node(o: Option<&Node>) -> Option<Node> {
    match o {
        Some(n) => Some(*n),
        None => None,
    }
}

/// The first node of a sibling chain that produces a box, walking
/// `next_sibling` links from `n`.
pub open spec fn first_rendered(
    n: Option<Node>,
    parent: Option<ComputedStyle>,
    sheet: StyleSheet,
) -> Option<Node>
    decreases n,
{
    match n {
        None => None,
        Some(node) => if renders(node, parent, sheet) {
            Some(node)
        } else {
            first_rendered(unbox_node(node.next_sibling), parent, sheet)
        },
    }
}

/// The layout tree that mirrors the document subtree reachable from `n`:
/// the first renderable node of the sibling chain becomes the box, its
/// children mirror that node's children under the box's style, and its
/// sibling mirrors the rest of the chain under the same parent style. All
/// geometry starts at zero; the layout passes write it.
pub open spec fn is_built(
    r: Option<Box<LayoutObject>>,
    n: Option<Node>,
    parent: Option<ComputedStyle>,
    sheet: StyleSheet,
) -> bool
    decreases n,
        via is_built_decreases
{
    match first_rendered(n, parent, sheet) {
        None => r is None,
        Some(target) => match r {
            Some(b) => {
                let lo = *b;
                &&& lo.kind == kind_of(target, sheet)
                &&& node_kind_like(lo.node_kind, target.kind)
                &&& created_style_ok(lo.style, target, parent, sheet)
                &&& lo.size == (LayoutSize { width: 0, height: 0 })
                &&& lo.point == (LayoutPoint { x: 0, y: 0 })
                &&& is_built(lo.first_child, unbox_node(target.first_child), Some(lo.style), sheet)
                &&& is_built(lo.next_sibling, unbox_node(target.next_sibling), parent, sheet)
            },
            None => false,
        },
    }
}

/// Lets the recursion in [`is_built`] descend: the first renderable node of
/// a chain is no taller than the chain's head.
#[via_fn]
proof fn is_built_decreases(
    r: Option<Box<LayoutObject>>,
    n: Option<Node>,
    parent: Option<ComputedStyle>,
    sheet: StyleSheet,
) {
    lemma_first_rendered_within(n, parent, sheet);
}

/// Every node `first_rendered` picks lies on the sibling chain, so its
/// height is bounded by the chain head's height.
proof fn lemma_first_rendered_within(
    n: Option<Node>,
    parent: Option<ComputedStyle>,
    sheet: StyleSheet,
)
    ensures
        first_rendered(n, parent, sheet) matches Some(t) ==> (decreases_to!(n => t)),
    decreases n,
{
    match n {
        Some(node) => {
            if !renders(node, parent, sheet) {
                lemma_first_rendered_within(unbox_node(node.next_sibling), parent, sheet);
            }
        },
        None => {},
    }
}

/// Builds the layout tree that mirrors the document subtree reachable from
/// `node`: nodes whose style suppresses rendering are skipped along with
/// their subtrees, sibling order is preserved.
pub fn build_layout_tree(
    node: Option<&Node>,
    parent_style: Option<&ComputedStyle>,
    cssom: &StyleSheet,
) -> (r: Option<Box<LayoutObject>>)
    ensures
        is_built(r, deref_node(node), opt_style(parent_style), *cssom),
    decreases deref_node(node),
{
    match node {
        None => None,
        Some(n) => {
            let created = crate::layout_object::create_layout_object(n, parent_style, cssom);
            match created {
                None => {
                    let next: Option<&Node> = match &n.next_sibling {
                        Some(b) => Some(&**b),
                        None => None,
                    };
                    build_layout_tree(next, parent_style, cssom)
                },
                Some(mut lo) => {
                    let fc_in: Option<&Node> = match &n.first_child {
                        Some(b) => Some(&**b),
                        None => None,
                    };
                    let fc = build_layout_tree(fc_in, Some(&lo.style), cssom);
                    lo.first_child = fc;
                    let ns_in: Option<&Node> = match &n.next_sibling {
                        Some(b) => Some(&**b),
                        None => None,
                    };
                    let ns = build_layout_tree(ns_in, parent_style, cssom);
                    lo.next_sibling = ns;
                    Some(Box::new(lo))
                },
            }
        },
    }
}

/// The tree after the size pass: a block box takes its width from the
/// parent before its children are sized, children are sized under the box,
/// siblings under the box's parent, and each box's own size is computed
/// last, from its children.
pub open spec fn spec_size_pass(c: Option<Box<LayoutObject>>, parent: LayoutSize) -> Option<
    Box<LayoutObject>,
>
    decreases c,
{
    match c {
        None => None,
        Some(b) => {
            let n0 = *b;
            let n1 = if n0.kind == LayoutObjectKind::Block {
                LayoutObject {
                    size: LayoutSize { width: parent.width, height: n0.size.height },
                    ..n0
                }
            } else {
                n0
            };
            let n2 = LayoutObject {
                first_child: spec_size_pass(n1.first_child, n1.size),
                next_sibling: spec_size_pass(n1.next_sibling, parent),
                ..n1
            };
            Some(Box::new(LayoutObject { size: spec_node_size(n2, parent), ..n2 }))
        },
    }
}

/// The tree after the position pass: each box is placed from the parent's
/// origin and the previous sibling's geometry, children start a fresh line
/// inside the box, and the box hands itself to its sibling as the previous
/// context.
pub open spec fn spec_position_pass(
    c: Option<Box<LayoutObject>>,
    parent_point: LayoutPoint,
    prev_kind: LayoutObjectKind,
    prev_point: Option<LayoutPoint>,
    prev_size: Option<LayoutSize>,
) -> Option<Box<LayoutObject>>
    decreases c,
{
    match c {
        None => None,
        Some(b) => {
            let n0 = *b;
            let p = spec_position(n0.kind, parent_point, prev_kind, prev_point, prev_size);
            let n1 = LayoutObject { point: p, ..n0 };
            let n2 = LayoutObject {
                first_child: spec_position_pass(
                    n1.first_child,
                    p,
                    LayoutObjectKind::Block,
                    None,
                    None,
                ),
                ..n1
            };
            Some(
                Box::new(
                    LayoutObject {
                        next_sibling: spec_position_pass(
                            n2.next_sibling,
                            parent_point,
                            n2.kind,
                            Some(p),
                            Some(n2.size),
                        ),
                        ..n2
                    },
                ),
            )
        },
    }
}

/// The display items of the whole tree, in depth-first pre-order: each
/// box's own items, then its subtree's, then its siblings'.
pub open spec fn spec_paint_tree(c: Option<Box<LayoutObject>>) -> Seq<
    crate::layout_object::DisplayItemModel,
>
    decreases c,
{
    match c {
        None => Seq::empty(),
        Some(b) => {
            let n = *b;
            spec_node_items(n) + spec_paint_tree(n.first_child) + spec_paint_tree(n.next_sibling)
        },
    }
}

/// The laid-out tree of the page: the boxes under the document's `body`,
/// sized and positioned for the configured content area.
#[derive(Debug, PartialEq, Eq)]
pub struct LayoutView {
    root: Option<Box<LayoutObject>>,
}

impl LayoutView {
    /// The root box, as contracts speak of it.
    pub closed spec fn spec_root(&self) -> Option<Box<LayoutObject>> {
        self.root
    }

    /// Runs the size pass on a subtree.
    fn calculate_node_size(node: Option<Box<LayoutObject>>, parent_size: LayoutSize) -> (r: Option<
        Box<LayoutObject>,
    >)
        ensures
            r == spec_size_pass(node, parent_size),
        decreases node,
    {
        match node {
            None => None,
            Some(mut b) => {
                if b.kind == LayoutObjectKind::Block {
                    b.size = LayoutSize { width: parent_size.width, height: b.size.height };
                }
                let fc = Self::calculate_node_size(b.first_child.take(), b.size);
                b.first_child = fc;
                let ns = Self::calculate_node_size(b.next_sibling.take(), parent_size);
                b.next_sibling = ns;
                b.compute_size(parent_size);
                Some(b)
            },
        }
    }

    /// Runs the position pass on a subtree.
    fn calculate_node_position(
        node: Option<Box<LayoutObject>>,
        parent_point: LayoutPoint,
        previous_sibling_kind: LayoutObjectKind,
        previous_sibling_point: Option<LayoutPoint>,
        previous_sibling_size: Option<LayoutSize>,
    ) -> (r: Option<Box<LayoutObject>>)
        ensures
            r == spec_position_pass(
                node,
                parent_point,
                previous_sibling_kind,
                previous_sibling_point,
                previous_sibling_size,
            ),
        decreases node,
    {
        match node {
            None => None,
            Some(mut b) => {
                b.compute_position(
                    parent_point,
                    previous_sibling_kind,
                    previous_sibling_point,
                    previous_sibling_size,
                );
                let p = b.point;
                let fc = Self::calculate_node_position(
                    b.first_child.take(),
                    p,
                    LayoutObjectKind::Block,
                    None,
                    None,
                );
                b.first_child = fc;
                let ns = Self::calculate_node_position(
                    b.next_sibling.take(),
                    parent_point,
                    b.kind,
                    Some(p),
                    Some(b.size),
                );
                b.next_sibling = ns;
                Some(b)
            },
        }
    }

    /// Runs the two layout passes over the tree: sizes first, then
    /// positions, both for the configured content area.
    fn update_layout(&mut self)
        ensures
            final(self).root == spec_update(old(self).root),
    {
        let root = self.root.take();
        let sized = Self::calculate_node_size(root, LayoutSize::new(CONTENT_AREA_WIDTH, 0));
        let positioned = Self::calculate_node_position(
            sized,
            LayoutPoint::new(0, 0),
            LayoutObjectKind::Block,
            None,
            None,
        );
        self.root = positioned;
    }

    /// Builds the laid-out tree of a document: the subtree under the first
    /// `body` element, with suppressed nodes skipped, sized and positioned;
    /// a document without a `body` yields a view without a root.
    pub fn new(root: &Node, cssom: &StyleSheet) -> (v: LayoutView)
        ensures
            spec_find_body(*root) is None ==> v.spec_root() is None,
            spec_find_body(*root) matches Some(body) ==> exists|t: Option<Box<LayoutObject>>|
                {
                    &&& #[trigger] is_built(t, Some(body), None::<ComputedStyle>, *cssom)
                    &&& v.spec_root() == spec_update(t)
                },
    {
        let body = crate::dom::find_body(root);
        let built = match body {
            Some(b) => build_layout_tree(Some(b), None, cssom),
            None => None,
        };
        let ghost built_snapshot = built;
        let mut tree = LayoutView { root: built };
        tree.update_layout();
        proof {
            if spec_find_body(*root) is Some {
                assert(is_built(
                    built_snapshot,
                    Some(spec_find_body(*root).unwrap()),
                    None::<ComputedStyle>,
                    *cssom,
                ));
            }
        }
        tree
    }

    /// The root box, if the document had anything to render.
    pub fn root(&self) -> (r: &Option<Box<LayoutObject>>)
        ensures
            *r == self.spec_root(),
    {
        &self.root
    }

    /// Appends the display items of a subtree in depth-first pre-order.
    fn paint_node(node: &Option<Box<LayoutObject>>, display_items: &mut Vec<DisplayItem>)
        ensures
            items_view(final(display_items)@) == items_view(old(display_items)@)
                + spec_paint_tree(*node),
        decreases *node,
    {
        match node {
            Some(n) => {
                n.paint(display_items);
                Self::paint_node(&n.first_child, display_items);
                Self::paint_node(&n.next_sibling, display_items);
            },
            None => {},
        }
    }

    /// The display items of the whole tree, in depth-first pre-order; the
    /// renderer draws them in list order.
    pub fn paint(&self) -> (r: Vec<DisplayItem>)
        ensures
            items_view(r@) == spec_paint_tree(self.spec_root()),
    {
        let mut display_items: Vec<DisplayItem> = Vec::new();
        Self::paint_node(&self.root, &mut display_items);
        proof {
            assert(items_view(Seq::<DisplayItem>::empty()) =~= Seq::<
                crate::layout_object::DisplayItemModel,
            >::empty());
        }
        display_items
    }
}

} // verus!

verus! {

/// No box of the tree carries a style whose display is `none`.
pub open spec fn all_displayed(c: Option<Box<LayoutObject>>) -> bool
    decreases c,
{
    match c {
        None => true,
        Some(b) => {
            let n = *b;
            &&& n.style.display != crate::css::DisplayType::DisplayNone
            &&& all_displayed(n.first_child)
            &&& all_displayed(n.next_sibling)
        },
    }
}

/// The node `first_rendered` picks does render.
proof fn lemma_first_rendered_renders(
    n: Option<Node>,
    parent: Option<ComputedStyle>,
    sheet: StyleSheet,
)
    ensures
        first_rendered(n, parent, sheet) matches Some(t) ==> renders(t, parent, sheet),
    decreases n,
{
    match n {
        Some(node) => {
            if !renders(node, parent, sheet) {
                lemma_first_rendered_renders(unbox_node(node.next_sibling), parent, sheet);
            }
        },
        None => {},
    }
}

/// Law: a tree the builder produces holds no box whose style resolves
/// `display: none` — suppressed nodes never reach the layout tree.
pub proof fn lemma_no_suppressed_box(
    r: Option<Box<LayoutObject>>,
    n: Option<Node>,
    parent: Option<ComputedStyle>,
    sheet: StyleSheet,
)
    requires
        is_built(r, n, parent, sheet),
    ensures
        all_displayed(r),
    decreases n,
{
    lemma_first_rendered_within(n, parent, sheet);
    lemma_first_rendered_renders(n, parent, sheet);
    match first_rendered(n, parent, sheet) {
        Some(target) => {
            match r {
                Some(b) => {
                    let lo = *b;
                    lemma_no_suppressed_box(
                        lo.first_child,
                        unbox_node(target.first_child),
                        Some(lo.style),
                        sheet,
                    );
                    lemma_no_suppressed_box(
                        lo.next_sibling,
                        unbox_node(target.next_sibling),
                        parent,
                        sheet,
                    );
                },
                None => {},
            }
        },
        None => {},
    }
}

/// No two consecutive boxes of the sibling chain are inline (`prev_inline`
/// says whether the box before the chain was).
pub open spec fn no_inline_run(c: Option<Box<LayoutObject>>, prev_inline: bool) -> bool
    decreases c,
{
    match c {
        None => true,
        Some(b) => {
            let n = *b;
            &&& !(prev_inline && n.kind == LayoutObjectKind::Inline)
            &&& no_inline_run(n.next_sibling, n.kind == LayoutObjectKind::Inline)
        },
    }
}

/// The saturating sum of the heights of a sibling chain.
pub open spec fn sum_heights(c: Option<Box<LayoutObject>>) -> u64
    decreases c,
{
    match c {
        None => 0,
        Some(b) => {
            let n = *b;
            crate::layout_object::sat_add(n.size.height, sum_heights(n.next_sibling))
        },
    }
}

/// With no two consecutive inline boxes, no line is shared, and the stacked
/// height is exactly the sum of the heights.
proof fn lemma_chain_height_is_sum(c: Option<Box<LayoutObject>>, prev_inline: bool)
    requires
        no_inline_run(c, prev_inline),
    ensures
        crate::layout_object::chain_block_height(c, prev_inline) == sum_heights(c),
    decreases c,
{
    match c {
        Some(b) => {
            let n = *b;
            lemma_chain_height_is_sum(n.next_sibling, n.kind == LayoutObjectKind::Inline);
        },
        None => {},
    }
}

/// Every block box of the sized tree is as wide as the width its parent
/// handed it, and — when no two of its children share an inline line — its
/// height is exactly the saturating sum of its children's heights, so the
/// children's stack never outgrows it.
pub open spec fn block_geometry_ok(c: Option<Box<LayoutObject>>, parent_width: u64) -> bool
    decreases c,
{
    match c {
        None => true,
        Some(b) => {
            let n = *b;
            &&& (n.kind == LayoutObjectKind::Block ==> {
                &&& n.size.width == parent_width
                &&& (no_inline_run(n.first_child, false) ==> n.size.height == sum_heights(
                    n.first_child,
                ))
            })
            &&& block_geometry_ok(n.first_child, n.size.width)
            &&& block_geometry_ok(n.next_sibling, parent_width)
        },
    }
}

/// Every inline box of the tree holds only text boxes, and text boxes hold
/// nothing.
pub open spec fn inline_boxes_hold_text(c: Option<Box<LayoutObject>>) -> bool
    decreases c,
{
    match c {
        None => true,
        Some(b) => {
            let n = *b;
            &&& (n.kind == LayoutObjectKind::Inline ==> all_text_chain(n.first_child))
            &&& (n.kind == LayoutObjectKind::Text ==> n.first_child is None)
            &&& inline_boxes_hold_text(n.first_child)
            &&& inline_boxes_hold_text(n.next_sibling)
        },
    }
}

/// Every box of the sibling chain is a text box.
pub open spec fn all_text_chain(c: Option<Box<LayoutObject>>) -> bool
    decreases c,
{
    match c {
        None => true,
        Some(b) => {
            let n = *b;
            &&& n.kind == LayoutObjectKind::Text
            &&& all_text_chain(n.next_sibling)
        },
    }
}

/// The size pass keeps each box's kind and child structure; only geometry
/// changes. Stated here for the fields the geometry laws read.
proof fn lemma_size_pass_keeps_shape(c: Option<Box<LayoutObject>>, parent: LayoutSize)
    ensures
        (c is Some) == (spec_size_pass(c, parent) is Some),
        c matches Some(b) ==> spec_size_pass(c, parent) matches Some(rb) && rb.kind == b.kind,
        inline_boxes_hold_text(c) ==> inline_boxes_hold_text(spec_size_pass(c, parent)),
        all_text_chain(c) ==> all_text_chain(spec_size_pass(c, parent)),
    decreases c,
{
    match c {
        Some(b) => {
            let n0 = *b;
            let n1 = if n0.kind == LayoutObjectKind::Block {
                LayoutObject {
                    size: LayoutSize { width: parent.width, height: n0.size.height },
                    ..n0
                }
            } else {
                n0
            };
            lemma_size_pass_keeps_shape(n1.first_child, n1.size);
            lemma_size_pass_keeps_shape(n1.next_sibling, parent);
        },
        None => {},
    }
}

/// Law: after the size pass, wherever inline boxes hold only text, every
/// block box is exactly as wide as its parent's width and — when none of
/// its children share an inline line — exactly as tall as the sum of its
/// children's heights.
pub proof fn lemma_block_geometry(c: Option<Box<LayoutObject>>, parent: LayoutSize)
    requires
        inline_boxes_hold_text(c),
    ensures
        block_geometry_ok(spec_size_pass(c, parent), parent.width),
    decreases c,
{
    match c {
        Some(b) => {
            let n0 = *b;
            let n1 = if n0.kind == LayoutObjectKind::Block {
                LayoutObject {
                    size: LayoutSize { width: parent.width, height: n0.size.height },
                    ..n0
                }
            } else {
                n0
            };
            let fc = spec_size_pass(n1.first_child, n1.size);
            let ns = spec_size_pass(n1.next_sibling, parent);
            let n2 = LayoutObject { first_child: fc, next_sibling: ns, ..n1 };
            let r = LayoutObject { size: spec_node_size(n2, parent), ..n2 };
            lemma_size_pass_keeps_shape(n1.first_child, n1.size);
            lemma_size_pass_keeps_shape(n1.next_sibling, parent);
            lemma_block_geometry(n1.first_child, n1.size);
            lemma_block_geometry(n1.next_sibling, parent);
            if r.kind == LayoutObjectKind::Block {
                if no_inline_run(r.first_child, false) {
                    lemma_chain_height_is_sum(r.first_child, false);
                }
                assert(r.size.width == parent.width);
            }
            if n1.kind == LayoutObjectKind::Block {
                assert(block_geometry_ok(fc, r.size.width));
            } else {
                lemma_block_geometry_text_any_width(fc, n1.size.width, r.size.width);
            }
        },
        None => {},
    }
}

/// A chain of childless text boxes satisfies the block-geometry relation
/// under any width: it holds no block box at all.
proof fn lemma_block_geometry_text_any_width(
    c: Option<Box<LayoutObject>>,
    w1: u64,
    w2: u64,
)
    requires
        all_text_chain(c),
    ensures
        block_geometry_ok(c, w1) ==> block_geometry_ok(c, w2),
    decreases c,
{
    match c {
        Some(b) => {
            let n = *b;
            lemma_block_geometry_text_any_width(n.next_sibling, w1, w2);
        },
        None => {},
    }
}

} // verus!

verus! {

/// Each box's size is the one its own subtree and the width handed down
/// determine: the fixed point the size pass drives the tree to.
pub open spec fn settled_size(c: Option<Box<LayoutObject>>, parent_width: u64) -> bool
    decreases c,
{
    match c {
        None => true,
        Some(b) => {
            let n = *b;
            &&& n.size == spec_node_size(n, LayoutSize { width: parent_width, height: 0 })
            &&& settled_size(n.first_child, n.size.width)
            &&& settled_size(n.next_sibling, parent_width)
        },
    }
}

/// A chain of childless text boxes is settled under one width exactly when
/// it is settled under any other: text geometry ignores the parent.
proof fn lemma_text_settled_any_width(c: Option<Box<LayoutObject>>, w1: u64, w2: u64)
    requires
        all_text_chain(c),
    ensures
        settled_size(c, w1) ==> settled_size(c, w2),
    decreases c,
{
    match c {
        Some(b) => {
            let n = *b;
            lemma_text_settled_any_width(n.next_sibling, w1, w2);
        },
        None => {},
    }
}

/// The size pass settles the tree, wherever inline boxes hold only text.
proof fn lemma_size_pass_settles(c: Option<Box<LayoutObject>>, parent: LayoutSize)
    requires
        inline_boxes_hold_text(c),
    ensures
        settled_size(spec_size_pass(c, parent), parent.width),
    decreases c,
{
    match c {
        Some(b) => {
            let n0 = *b;
            let n1 = if n0.kind == LayoutObjectKind::Block {
                LayoutObject {
                    size: LayoutSize { width: parent.width, height: n0.size.height },
                    ..n0
                }
            } else {
                n0
            };
            let fc = spec_size_pass(n1.first_child, n1.size);
            let ns = spec_size_pass(n1.next_sibling, parent);
            let n2 = LayoutObject { first_child: fc, next_sibling: ns, ..n1 };
            let r = LayoutObject { size: spec_node_size(n2, parent), ..n2 };
            lemma_size_pass_keeps_shape(n1.first_child, n1.size);
            lemma_size_pass_keeps_shape(n1.next_sibling, parent);
            lemma_size_pass_settles(n1.first_child, n1.size);
            lemma_size_pass_settles(n1.next_sibling, parent);
            assert(r.size == spec_node_size(r, LayoutSize { width: parent.width, height: 0 }));
            if n1.kind == LayoutObjectKind::Block {
                assert(settled_size(fc, r.size.width));
            } else if n1.kind == LayoutObjectKind::Inline {
                lemma_text_settled_any_width(fc, n1.size.width, r.size.width);
                assert(settled_size(fc, r.size.width));
            } else {
                assert(fc is None);
                assert(settled_size(fc, r.size.width));
            }
            assert(settled_size(ns, parent.width));
            assert(spec_size_pass(c, parent) == Some(Box::new(r)));
            assert(settled_size(Some(Box::new(r)), parent.width));
        },
        None => {},
    }
}

/// The size pass changes nothing on a settled tree.
proof fn lemma_size_pass_settled_identity(c: Option<Box<LayoutObject>>, parent: LayoutSize)
    requires
        settled_size(c, parent.width),
    ensures
        spec_size_pass(c, parent) == c,
    decreases c,
{
    match c {
        Some(b) => {
            let n0 = *b;
            let n1 = if n0.kind == LayoutObjectKind::Block {
                LayoutObject {
                    size: LayoutSize { width: parent.width, height: n0.size.height },
                    ..n0
                }
            } else {
                n0
            };
            assert(n1 =~= n0);
            lemma_size_pass_settled_identity(n0.first_child, n0.size);
            lemma_size_pass_settled_identity(n0.next_sibling, parent);
            let n2 = LayoutObject {
                first_child: spec_size_pass(n1.first_child, n1.size),
                next_sibling: spec_size_pass(n1.next_sibling, parent),
                ..n1
            };
            assert(n2 =~= n0);
            assert(LayoutObject { size: spec_node_size(n2, parent), ..n2 } =~= n0);
            assert(spec_size_pass(c, parent) =~= c);
        },
        None => {},
    }
}

/// The position pass writes only points: kinds, node descriptors, sizes and
/// settledness are kept, and the chain measures the size computation reads
/// do not move.
proof fn lemma_position_pass_keeps_settled(
    c: Option<Box<LayoutObject>>,
    parent_point: LayoutPoint,
    prev_kind: LayoutObjectKind,
    prev_point: Option<LayoutPoint>,
    prev_size: Option<LayoutSize>,
    parent_width: u64,
)
    requires
        settled_size(c, parent_width),
    ensures
        settled_size(
            spec_position_pass(c, parent_point, prev_kind, prev_point, prev_size),
            parent_width,
        ),
        (spec_position_pass(c, parent_point, prev_kind, prev_point, prev_size) is Some) == (
        c is Some),
        spec_position_pass(c, parent_point, prev_kind, prev_point, prev_size) matches Some(rb)
            ==> c matches Some(b) && rb.kind == b.kind && rb.size == b.size && rb.node_kind
            == b.node_kind,
        crate::layout_object::chain_block_height(
            spec_position_pass(c, parent_point, prev_kind, prev_point, prev_size),
            false,
        ) == crate::layout_object::chain_block_height(c, false),
        crate::layout_object::chain_block_height(
            spec_position_pass(c, parent_point, prev_kind, prev_point, prev_size),
            true,
        ) == crate::layout_object::chain_block_height(c, true),
        crate::layout_object::chain_width_sum(
            spec_position_pass(c, parent_point, prev_kind, prev_point, prev_size),
        ) == crate::layout_object::chain_width_sum(c),
    decreases c,
{
    match c {
        Some(b) => {
            let n0 = *b;
            let p = spec_position(n0.kind, parent_point, prev_kind, prev_point, prev_size);
            let n1 = LayoutObject { point: p, ..n0 };
            lemma_position_pass_keeps_settled(
                n1.first_child,
                p,
                LayoutObjectKind::Block,
                None,
                None,
                n0.size.width,
            );
            let n2 = LayoutObject {
                first_child: spec_position_pass(
                    n1.first_child,
                    p,
                    LayoutObjectKind::Block,
                    None,
                    None,
                ),
                ..n1
            };
            lemma_position_pass_keeps_settled(
                n2.next_sibling,
                parent_point,
                n2.kind,
                Some(p),
                Some(n2.size),
                parent_width,
            );
            let r = LayoutObject {
                next_sibling: spec_position_pass(
                    n2.next_sibling,
                    parent_point,
                    n2.kind,
                    Some(p),
                    Some(n2.size),
                ),
                ..n2
            };
            assert(spec_node_size(r, LayoutSize { width: parent_width, height: 0 })
                == spec_node_size(n0, LayoutSize { width: parent_width, height: 0 }));
        },
        None => {},
    }
}

/// The position pass changes nothing the second time it runs with the same
/// context.
proof fn lemma_position_pass_idempotent(
    c: Option<Box<LayoutObject>>,
    parent_point: LayoutPoint,
    prev_kind: LayoutObjectKind,
    prev_point: Option<LayoutPoint>,
    prev_size: Option<LayoutSize>,
)
    ensures
        spec_position_pass(
            spec_position_pass(c, parent_point, prev_kind, prev_point, prev_size),
            parent_point,
            prev_kind,
            prev_point,
            prev_size,
        ) == spec_position_pass(c, parent_point, prev_kind, prev_point, prev_size),
    decreases c,
{
    match c {
        Some(b) => {
            let n0 = *b;
            let p = spec_position(n0.kind, parent_point, prev_kind, prev_point, prev_size);
            let n1 = LayoutObject { point: p, ..n0 };
            let fc = spec_position_pass(n1.first_child, p, LayoutObjectKind::Block, None, None);
            let n2 = LayoutObject { first_child: fc, ..n1 };
            let ns = spec_position_pass(
                n2.next_sibling,
                parent_point,
                n2.kind,
                Some(p),
                Some(n2.size),
            );
            let r = LayoutObject { next_sibling: ns, ..n2 };
            lemma_position_pass_idempotent(n1.first_child, p, LayoutObjectKind::Block, None, None);
            lemma_position_pass_idempotent(
                n2.next_sibling,
                parent_point,
                n2.kind,
                Some(p),
                Some(n2.size),
            );
            let p2 = spec_position(r.kind, parent_point, prev_kind, prev_point, prev_size);
            assert(p2 == p);
            assert(LayoutObject { point: p2, ..r } =~= r);
            assert(spec_position_pass(
                spec_position_pass(c, parent_point, prev_kind, prev_point, prev_size),
                parent_point,
                prev_kind,
                prev_point,
                prev_size,
            ) =~= spec_position_pass(c, parent_point, prev_kind, prev_point, prev_size));
        },
        None => {},
    }
}

/// Both layout passes in order, for the configured content area: what
/// `update_layout` does to the tree.
pub open spec fn spec_update(c: Option<Box<LayoutObject>>) -> Option<Box<LayoutObject>> {
    spec_position_pass(
        spec_size_pass(c, LayoutSize { width: CONTENT_AREA_WIDTH, height: 0 }),
        LayoutPoint { x: 0, y: 0 },
        LayoutObjectKind::Block,
        None,
        None,
    )
}

/// Law: with unchanged inputs the layout passes are idempotent — running
/// them a second time over an already laid-out tree changes nothing —
/// wherever inline boxes hold only text boxes. (A block box below an inline
/// box reads its parent's width while that width is still being computed,
/// and such a tree can keep moving on a second run.)
pub proof fn lemma_update_layout_idempotent(c: Option<Box<LayoutObject>>)
    requires
        inline_boxes_hold_text(c),
    ensures
        spec_update(spec_update(c)) == spec_update(c),
{
    let ca = LayoutSize { width: CONTENT_AREA_WIDTH, height: 0 };
    let origin = LayoutPoint { x: 0, y: 0 };
    let s = spec_size_pass(c, ca);
    let u = spec_position_pass(s, origin, LayoutObjectKind::Block, None, None);
    lemma_size_pass_settles(c, ca);
    lemma_position_pass_keeps_settled(
        s,
        origin,
        LayoutObjectKind::Block,
        None,
        None,
        CONTENT_AREA_WIDTH,
    );
    lemma_size_pass_settled_identity(u, ca);
    lemma_position_pass_idempotent(s, origin, LayoutObjectKind::Block, None, None);
}

} // verus!

verus! {

/// Every box of the tree still carries zero size: what the builder hands
/// the layout passes.
pub open spec fn all_zero_size(c: Option<Box<LayoutObject>>) -> bool
    decreases c,
{
    match c {
        None => true,
        Some(b) => {
            let n = *b;
            &&& n.size == (LayoutSize { width: 0, height: 0 })
            &&& all_zero_size(n.first_child)
            &&& all_zero_size(n.next_sibling)
        },
    }
}

/// A built tree carries zero geometry everywhere.
pub proof fn lemma_built_zero_size(
    r: Option<Box<LayoutObject>>,
    n: Option<Node>,
    parent: Option<ComputedStyle>,
    sheet: StyleSheet,
)
    requires
        is_built(r, n, parent, sheet),
    ensures
        all_zero_size(r),
    decreases n,
{
    lemma_first_rendered_within(n, parent, sheet);
    match first_rendered(n, parent, sheet) {
        Some(target) => {
            match r {
                Some(b) => {
                    let lo = *b;
                    lemma_built_zero_size(
                        lo.first_child,
                        unbox_node(target.first_child),
                        Some(lo.style),
                        sheet,
                    );
                    lemma_built_zero_size(
                        lo.next_sibling,
                        unbox_node(target.next_sibling),
                        parent,
                        sheet,
                    );
                },
                None => {},
            }
        },
        None => {},
    }
}

/// Every block box is no wider than the width handed down to it, its height
/// is the line-sharing stack of its children's heights, and that stack is
/// the plain saturating sum wherever no two children share a line.
pub open spec fn block_sized_ok(c: Option<Box<LayoutObject>>, parent_width: u64) -> bool
    decreases c,
{
    match c {
        None => true,
        Some(b) => {
            let n = *b;
            &&& (n.kind == LayoutObjectKind::Block ==> {
                &&& n.size.width <= parent_width
                &&& n.size.height == crate::layout_object::chain_block_height(n.first_child, false)
                &&& (no_inline_run(n.first_child, false) ==> n.size.height == sum_heights(
                    n.first_child,
                ))
            })
            &&& block_sized_ok(n.first_child, n.size.width)
            &&& block_sized_ok(n.next_sibling, parent_width)
        },
    }
}

/// A width bound only widens: the relation keeps holding under any larger
/// handed-down width.
proof fn lemma_block_sized_widen(c: Option<Box<LayoutObject>>, w1: u64, w2: u64)
    requires
        block_sized_ok(c, w1),
        w1 <= w2,
    ensures
        block_sized_ok(c, w2),
    decreases c,
{
    match c {
        Some(b) => {
            let n = *b;
            lemma_block_sized_widen(n.next_sibling, w1, w2);
        },
        None => {},
    }
}

/// The size pass establishes the block geometry bounds on any tree the
/// builder hands it: block boxes start at width zero, so even a block below
/// an inline box stays within the zero width that box still carries.
proof fn lemma_size_pass_blocks(c: Option<Box<LayoutObject>>, parent: LayoutSize)
    requires
        all_zero_size(c),
    ensures
        block_sized_ok(spec_size_pass(c, parent), parent.width),
    decreases c,
{
    match c {
        Some(b) => {
            let n0 = *b;
            let n1 = if n0.kind == LayoutObjectKind::Block {
                LayoutObject {
                    size: LayoutSize { width: parent.width, height: n0.size.height },
                    ..n0
                }
            } else {
                n0
            };
            let fc = spec_size_pass(n1.first_child, n1.size);
            let ns = spec_size_pass(n1.next_sibling, parent);
            let n2 = LayoutObject { first_child: fc, next_sibling: ns, ..n1 };
            let r = LayoutObject { size: spec_node_size(n2, parent), ..n2 };
            lemma_size_pass_blocks(n1.first_child, n1.size);
            lemma_size_pass_blocks(n1.next_sibling, parent);
            if r.kind == LayoutObjectKind::Block {
                if no_inline_run(r.first_child, false) {
                    lemma_chain_height_is_sum(r.first_child, false);
                }
            }
            if n1.kind == LayoutObjectKind::Block {
                assert(block_sized_ok(fc, r.size.width));
            } else {
                lemma_block_sized_widen(fc, 0, r.size.width);
            }
        },
        None => {},
    }
}

/// The position pass writes only points, so the block geometry bounds and
/// every chain measure they mention carry across it unchanged.
proof fn lemma_position_pass_keeps_blocks(
    c: Option<Box<LayoutObject>>,
    parent_point: LayoutPoint,
    prev_kind: LayoutObjectKind,
    prev_point: Option<LayoutPoint>,
    prev_size: Option<LayoutSize>,
    parent_width: u64,
)
    requires
        block_sized_ok(c, parent_width),
    ensures
        block_sized_ok(
            spec_position_pass(c, parent_point, prev_kind, prev_point, prev_size),
            parent_width,
        ),
        (spec_position_pass(c, parent_point, prev_kind, prev_point, prev_size) is Some) == (
        c is Some),
        spec_position_pass(c, parent_point, prev_kind, prev_point, prev_size) matches Some(rb)
            ==> c matches Some(b) && rb.kind == b.kind && rb.size == b.size,
        crate::layout_object::chain_block_height(
            spec_position_pass(c, parent_point, prev_kind, prev_point, prev_size),
            false,
        ) == crate::layout_object::chain_block_height(c, false),
        crate::layout_object::chain_block_height(
            spec_position_pass(c, parent_point, prev_kind, prev_point, prev_size),
            true,
        ) == crate::layout_object::chain_block_height(c, true),
        sum_heights(spec_position_pass(c, parent_point, prev_kind, prev_point, prev_size))
            == sum_heights(c),
        no_inline_run(spec_position_pass(c, parent_point, prev_kind, prev_point, prev_size), false)
            == no_inline_run(c, false),
        no_inline_run(spec_position_pass(c, parent_point, prev_kind, prev_point, prev_size), true)
            == no_inline_run(c, true),
    decreases c,
{
    match c {
        Some(b) => {
            let n0 = *b;
            let p = spec_position(n0.kind, parent_point, prev_kind, prev_point, prev_size);
            let n1 = LayoutObject { point: p, ..n0 };
            lemma_position_pass_keeps_blocks(
                n1.first_child,
                p,
                LayoutObjectKind::Block,
                None,
                None,
                n0.size.width,
            );
            let n2 = LayoutObject {
                first_child: spec_position_pass(
                    n1.first_child,
                    p,
                    LayoutObjectKind::Block,
                    None,
                    None,
                ),
                ..n1
            };
            lemma_position_pass_keeps_blocks(
                n2.next_sibling,
                parent_point,
                n2.kind,
                Some(p),
                Some(n2.size),
                parent_width,
            );
        },
        None => {},
    }
}

/// Law: after the layout passes over a tree the builder produced, every
/// block box is no wider than the width its parent handed down — the root
/// gets the content area — and every block box's height is the line-sharing
/// stack of its children's heights, which equals the plain saturating sum
/// of those heights wherever no two children share a line.
pub proof fn lemma_view_block_geometry(t: Option<Box<LayoutObject>>)
    requires
        all_zero_size(t),
    ensures
        block_sized_ok(spec_update(t), CONTENT_AREA_WIDTH),
        spec_update(t) matches Some(rb) ==> (rb.kind == LayoutObjectKind::Block
            ==> rb.size.width == CONTENT_AREA_WIDTH),
{
    let ca = LayoutSize { width: CONTENT_AREA_WIDTH, height: 0 };
    lemma_size_pass_blocks(t, ca);
    lemma_position_pass_keeps_blocks(
        spec_size_pass(t, ca),
        LayoutPoint { x: 0, y: 0 },
        LayoutObjectKind::Block,
        None,
        None,
        CONTENT_AREA_WIDTH,
    );
}

} // verus!
