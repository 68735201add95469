//! One box of the layout tree: its kind, computed style, geometry, its
//! children, and the paint instructions it contributes.

use vstd::prelude::*;
use vstd::string::StrSliceExecFns;
use crate::css::{
    display_of, opt_style, style_resolves_to, Color, ComputedStyle, DisplayType, FontSize,
    StyleSheet,
};
use crate::dom::{clone_node_kind, node_kind_like, Node, NodeKind};
use crate::attribute::attrs_view;
use crate::strutil::str_eq;
use crate::{GLYPH_HEIGHT, GLYPH_WIDTH};

verus! {

/// The three kinds of box the engine lays out.
#[derive(Debug, Clone, Copy, PartialEq, Eq, Structural)]
pub enum LayoutObjectKind {
    Block,
    Inline,
    Text,
}

/// A box's size in device pixels.
#[derive(Debug, Clone, Copy, PartialEq, Eq, Structural)]
pub struct LayoutSize {
    pub width: u64,
    pub height: u64,
}

impl LayoutSize {
    /// A size of these dimensions.
    pub fn new(width: u64, height: u64) -> (s: LayoutSize)
        ensures
            s == (LayoutSize { width, height }),
    {
        LayoutSize { width, height }
    }
}

/// A box's position in device pixels, from the content area's origin.
#[derive(Debug, Clone, Copy, PartialEq, Eq, Structural)]
pub struct LayoutPoint {
    pub x: u64,
    pub y: u64,
}

impl LayoutPoint {
    /// A point with these coordinates.
    pub fn new(x: u64, y: u64) -> (p: LayoutPoint)
        ensures
            p == (LayoutPoint { x, y }),
    {
        LayoutPoint { x, y }
    }
}

/// Addition capped at the largest representable pixel count.
pub open spec fn sat_add(a: u64, b: u64) -> u64 {
    if a + b > u64::MAX {
        u64::MAX
    } else {
        (a + b) as u64
    }
}

/// Multiplication capped at the largest representable pixel count.
pub open spec fn sat_mul(a: u64, b: u64) -> u64 {
    if a * b > u64::MAX {
        u64::MAX
    } else {
        (a * b) as u64
    }
}

/// Multiplies two pixel counts, capping at the largest representable value.
pub fn sat_mul_exec(a: u64, b: u64) -> (r: u64)
    ensures
        r == sat_mul(a, b),
{
    match a.checked_mul(b) {
        Some(r) => r,
        None => u64::MAX,
    }
}

/// A renderer-ready drawing instruction.
#[derive(Debug, Clone, PartialEq, Eq)]
pub enum DisplayItem {
    /// A filled rectangle.
    Rect { point: LayoutPoint, size: LayoutSize, color: Color },
    /// A text run in the resolved color and font size.
    Text { point: LayoutPoint, text: String, color: Color, font_size: FontSize },
    /// A link region carrying its target.
    Link { point: LayoutPoint, text: String, href: String },
}

/// A geometrically laid-out box of the render tree. Children are owned
/// through `first_child` / `next_sibling`; the tree holds no parent links,
/// ancestors pass inherited style down while the tree is built.
#[derive(Debug, PartialEq, Eq)]
#[verifier::ext_equal]
pub struct LayoutObject {
    pub kind: LayoutObjectKind,
    pub node_kind: NodeKind,
    pub style: ComputedStyle,
    pub size: LayoutSize,
    pub point: LayoutPoint,
    pub first_child: Option<Box<LayoutObject>>,
    pub next_sibling: Option<Box<LayoutObject>>,
}

impl LayoutObject {
    /// The box's kind.
    pub fn kind(&self) -> (r: LayoutObjectKind)
        ensures
            r == self.kind,
    {
        self.kind
    }

    /// The descriptor of the DOM node this box renders.
    pub fn node_kind(&self) -> (r: &NodeKind)
        ensures
            r == &self.node_kind,
    {
        &self.node_kind
    }

    /// The box's resolved style.
    pub fn style(&self) -> (r: &ComputedStyle)
        ensures
            r == &self.style,
    {
        &self.style
    }

    /// The box's computed size.
    pub fn size(&self) -> (r: LayoutSize)
        ensures
            r == self.size,
    {
        self.size
    }

    /// The box's computed position.
    pub fn point(&self) -> (r: LayoutPoint)
        ensures
            r == self.point,
    {
        self.point
    }

    /// The box's first child, if any.
    pub fn first_child(&self) -> (r: &Option<Box<LayoutObject>>)
        ensures
            r == &self.first_child,
    {
        &self.first_child
    }

    /// The box's next sibling, if any.
    pub fn next_sibling(&self) -> (r: &Option<Box<LayoutObject>>)
        ensures
            r == &self.next_sibling,
    {
        &self.next_sibling
    }
}

/// Whether a DOM node produces a box at all: the document root and the
/// non-rendered element kinds never do, an element styled `display: none`
/// does not, and neither does an empty text run.
pub open spec fn renders(n: Node, parent: Option<ComputedStyle>, sheet: StyleSheet) -> bool {
    match n.kind {
        NodeKind::Document => false,
        NodeKind::Element(e) => {
            &&& !(e.tag_name@ == "head"@ || e.tag_name@ == "style"@ || e.tag_name@ == "script"@
                || e.tag_name@ == "meta"@)
            &&& display_of(sheet.rules@, e.tag_name@, attrs_view(e.attributes@))
                != DisplayType::DisplayNone
        },
        NodeKind::Text(s) => s@.len() > 0,
    }
}

/// The kind of box a rendered DOM node produces.
pub open spec fn kind_of(n: Node, sheet: StyleSheet) -> LayoutObjectKind {
    match n.kind {
        NodeKind::Element(e) => if display_of(sheet.rules@, e.tag_name@, attrs_view(e.attributes@))
            == DisplayType::Inline {
            LayoutObjectKind::Inline
        } else {
            LayoutObjectKind::Block
        },
        _ => LayoutObjectKind::Text,
    }
}

/// The style a freshly created box carries: an element's is resolved by the
/// cascade under its tag and attributes, a text run's under an empty tag so
/// that only inheritance and defaults apply.
pub open spec fn created_style_ok(
    s: ComputedStyle,
    n: Node,
    parent: Option<ComputedStyle>,
    sheet: StyleSheet,
) -> bool {
    match n.kind {
        NodeKind::Element(e) => style_resolves_to(
            s,
            sheet.rules@,
            e.tag_name@,
            attrs_view(e.attributes@),
            parent,
        ),
        _ => {
            &&& s.display == DisplayType::Inline
            &&& crate::css::background_ok(
                s.background_color,
                sheet.rules@,
                Seq::<char>::empty(),
                Seq::<crate::attribute::AttrModel>::empty(),
            )
            &&& crate::css::text_color_ok(
                s.color,
                sheet.rules@,
                Seq::<char>::empty(),
                Seq::<crate::attribute::AttrModel>::empty(),
                parent,
            )
            &&& crate::css::font_size_ok(
                s.font_size,
                sheet.rules@,
                Seq::<char>::empty(),
                Seq::<crate::attribute::AttrModel>::empty(),
                parent,
            )
        },
    }
}

/// A freshly created, not yet laid out box for this DOM node.
pub open spec fn created_ok(
    lo: LayoutObject,
    n: Node,
    parent: Option<ComputedStyle>,
    sheet: StyleSheet,
) -> bool {
    &&& lo.kind == kind_of(n, sheet)
    &&& node_kind_like(lo.node_kind, n.kind)
    &&& created_style_ok(lo.style, n, parent, sheet)
    &&& lo.size == (LayoutSize { width: 0, height: 0 })
    &&& lo.point == (LayoutPoint { x: 0, y: 0 })
    &&& lo.first_child is None
    &&& lo.next_sibling is None
}

/// Tries to create a box for one DOM node. Returns `None` exactly for the
/// nodes that are never rendered: the document root, the non-rendered
/// element kinds, an element resolved to `display: none`, an empty text run.
pub fn create_layout_object(
    node: &Node,
    parent_style: Option<&ComputedStyle>,
    cssom: &StyleSheet,
) -> (r: Option<LayoutObject>)
    ensures
        (r is Some) == renders(*node, opt_style(parent_style), *cssom),
        r matches Some(lo) ==> created_ok(lo, *node, opt_style(parent_style), *cssom),
{
    match &node.kind {
        NodeKind::Document => None,
        NodeKind::Element(e) => {
            if str_eq(e.tag_name.as_str(), "head") || str_eq(e.tag_name.as_str(), "style")
                || str_eq(e.tag_name.as_str(), "script") || str_eq(e.tag_name.as_str(), "meta") {
                return None;
            }
            let style = crate::css::resolve_style(&e.tag_name, &e.attributes, parent_style, cssom);
            let kind = match style.display() {
                DisplayType::DisplayNone => {
                    return None;
                },
                DisplayType::Inline => LayoutObjectKind::Inline,
                DisplayType::Block => LayoutObjectKind::Block,
            };
            Some(
                LayoutObject {
                    kind,
                    node_kind: clone_node_kind(&node.kind),
                    style,
                    size: LayoutSize { width: 0, height: 0 },
                    point: LayoutPoint { x: 0, y: 0 },
                    first_child: None,
                    next_sibling: None,
                },
            )
        },
        NodeKind::Text(s) => {
            if s.as_str().unicode_len() == 0 {
                return None;
            }
            let empty_tag = String::new();
            let empty_attrs: Vec<crate::attribute::Attribute> = Vec::new();
            let mut style = crate::css::resolve_style(&empty_tag, &empty_attrs, parent_style, cssom);
            style.display = DisplayType::Inline;
            proof {
                assert(attrs_view(empty_attrs@) =~= Seq::<crate::attribute::AttrModel>::empty());
            }
            Some(
                LayoutObject {
                    kind: LayoutObjectKind::Text,
                    node_kind: clone_node_kind(&node.kind),
                    style,
                    size: LayoutSize { width: 0, height: 0 },
                    point: LayoutPoint { x: 0, y: 0 },
                    first_child: None,
                    next_sibling: None,
                },
            )
        },
    }
}

} // verus!

verus! {

/// The stacked height of a sibling chain: each box adds its height, but an
/// inline box standing right after another inline box shares its line,
/// which has already been counted.
pub open spec fn chain_block_height(c: Option<Box<LayoutObject>>, prev_inline: bool) -> u64
    decreases c,
{
    match c {
        None => 0,
        Some(b) => {
            let n = *b;
            let rest = chain_block_height(n.next_sibling, n.kind == LayoutObjectKind::Inline);
            if prev_inline && n.kind == LayoutObjectKind::Inline {
                rest
            } else {
                sat_add(n.size.height, rest)
            }
        },
    }
}

/// The summed width of a sibling chain.
pub open spec fn chain_width_sum(c: Option<Box<LayoutObject>>) -> u64
    decreases c,
{
    match c {
        None => 0,
        Some(b) => {
            let n = *b;
            sat_add(n.size.width, chain_width_sum(n.next_sibling))
        },
    }
}

/// How many lines a run of `total` pixels takes at `width` pixels per line.
pub open spec fn lines_of(total: u64, width: u64) -> u64 {
    (total as int / width as int + if total as int % width as int == 0 {
        0int
    } else {
        1int
    }) as u64
}

/// The size of an inline box whose children sum to `total` pixels of width,
/// wrapped at the parent's width.
pub open spec fn inline_size(total: u64, parent_width: u64) -> LayoutSize {
    if total == 0 {
        LayoutSize { width: 0, height: 0 }
    } else if parent_width == 0 {
        LayoutSize { width: 0, height: GLYPH_HEIGHT }
    } else if total <= parent_width {
        LayoutSize { width: total, height: GLYPH_HEIGHT }
    } else {
        LayoutSize {
            width: parent_width,
            height: sat_mul(lines_of(total, parent_width), GLYPH_HEIGHT),
        }
    }
}

/// The size a box computes for itself once its children are sized: a block
/// takes the parent's width and stacks its children; an inline box sums its
/// children and wraps at the parent's width; a text run is one line of
/// fixed-width glyphs.
pub open spec fn spec_node_size(lo: LayoutObject, parent: LayoutSize) -> LayoutSize {
    match lo.kind {
        LayoutObjectKind::Block => LayoutSize {
            width: parent.width,
            height: chain_block_height(lo.first_child, false),
        },
        LayoutObjectKind::Inline => inline_size(chain_width_sum(lo.first_child), parent.width),
        LayoutObjectKind::Text => match lo.node_kind {
            NodeKind::Text(s) => LayoutSize {
                width: sat_mul(GLYPH_WIDTH, s@.len() as u64),
                height: GLYPH_HEIGHT,
            },
            _ => LayoutSize { width: 0, height: 0 },
        },
    }
}

/// Where a box stands: at the parent's origin with no previous sibling;
/// below the previous box when either of the two is a block; to the right
/// of it when both share an inline line.
pub open spec fn spec_position(
    kind: LayoutObjectKind,
    parent_point: LayoutPoint,
    prev_kind: LayoutObjectKind,
    prev_point: Option<LayoutPoint>,
    prev_size: Option<LayoutSize>,
) -> LayoutPoint {
    match (prev_point, prev_size) {
        (Some(pp), Some(ps)) => {
            if prev_kind == LayoutObjectKind::Block || kind == LayoutObjectKind::Block {
                LayoutPoint { x: parent_point.x, y: sat_add(pp.y, ps.height) }
            } else {
                LayoutPoint { x: sat_add(pp.x, ps.width), y: pp.y }
            }
        },
        _ => parent_point,
    }
}

/// Computes the stacked height of a sibling chain.
fn chain_height(c: &Option<Box<LayoutObject>>, prev_inline: bool) -> (h: u64)
    ensures
        h == chain_block_height(*c, prev_inline),
    decreases *c,
{
    match c {
        None => 0,
        Some(b) => {
            let inline = b.kind == LayoutObjectKind::Inline;
            let rest = chain_height(&b.next_sibling, inline);
            if prev_inline && inline {
                rest
            } else {
                b.size.height.saturating_add(rest)
            }
        },
    }
}

/// Sums the widths of a sibling chain.
fn chain_width(c: &Option<Box<LayoutObject>>) -> (w: u64)
    ensures
        w == chain_width_sum(*c),
    decreases *c,
{
    match c {
        None => 0,
        Some(b) => {
            let rest = chain_width(&b.next_sibling);
            b.size.width.saturating_add(rest)
        },
    }
}

impl LayoutObject {
    /// Computes this box's size from the parent's size and the already
    /// computed sizes of its children; nothing else changes.
    pub fn compute_size(&mut self, parent_size: LayoutSize)
        ensures
            *final(self) == (LayoutObject {
                size: spec_node_size(*old(self), parent_size),
                ..*old(self)
            }),
    {
        match self.kind {
            LayoutObjectKind::Block => {
                let h = chain_height(&self.first_child, false);
                self.size = LayoutSize { width: parent_size.width, height: h };
            },
            LayoutObjectKind::Inline => {
                let total = chain_width(&self.first_child);
                if total == 0 {
                    self.size = LayoutSize { width: 0, height: 0 };
                } else if parent_size.width == 0 {
                    self.size = LayoutSize { width: 0, height: GLYPH_HEIGHT };
                } else if total <= parent_size.width {
                    self.size = LayoutSize { width: total, height: GLYPH_HEIGHT };
                } else {
                    let q = total / parent_size.width;
                    let rm = total % parent_size.width;
                    let lines = if rm == 0 {
                        q
                    } else {
                        proof {
                            assert(q < u64::MAX) by (nonlinear_arith)
                                requires
                                    q == total / parent_size.width,
                                    rm == total % parent_size.width,
                                    parent_size.width > 0,
                                    rm != 0,
                                    total <= u64::MAX,
                            ;
                        }
                        q + 1
                    };
                    self.size = LayoutSize {
                        width: parent_size.width,
                        height: sat_mul_exec(lines, GLYPH_HEIGHT),
                    };
                }
            },
            LayoutObjectKind::Text => {
                match &self.node_kind {
                    NodeKind::Text(s) => {
                        let count = s.as_str().unicode_len();
                        let w = sat_mul_exec(GLYPH_WIDTH, count as u64);
                        self.size = LayoutSize { width: w, height: GLYPH_HEIGHT };
                    },
                    _ => {
                        self.size = LayoutSize { width: 0, height: 0 };
                    },
                }
            },
        }
    }

    /// Computes this box's position from the parent's origin and the
    /// previous sibling's kind and geometry; nothing else changes.
    pub fn compute_position(
        &mut self,
        parent_point: LayoutPoint,
        previous_sibling_kind: LayoutObjectKind,
        previous_sibling_point: Option<LayoutPoint>,
        previous_sibling_size: Option<LayoutSize>,
    )
        ensures
            *final(self) == (LayoutObject {
                point: spec_position(
                    old(self).kind,
                    parent_point,
                    previous_sibling_kind,
                    previous_sibling_point,
                    previous_sibling_size,
                ),
                ..*old(self)
            }),
    {
        match (previous_sibling_point, previous_sibling_size) {
            (Some(pp), Some(ps)) => {
                if previous_sibling_kind == LayoutObjectKind::Block || self.kind
                    == LayoutObjectKind::Block {
                    self.point = LayoutPoint { x: parent_point.x, y: pp.y.saturating_add(ps.height) };
                } else {
                    self.point = LayoutPoint { x: pp.x.saturating_add(ps.width), y: pp.y };
                }
            },
            _ => {
                self.point = parent_point;
            },
        }
    }
}

} // verus!

verus! {

/// Mathematical image of a [`Color`].
#[verifier::ext_equal]
pub ghost struct ColorModel {
    pub name: Option<Seq<char>>,
    pub code: Seq<char>,
}

impl View for Color {
    type V = ColorModel;

    open spec fn view(&self) -> ColorModel {
        ColorModel { name: crate::css::opt_str_view(self.name), code: self.code@ }
    }
}

/// Mathematical image of a [`DisplayItem`].
#[verifier::ext_equal]
pub ghost enum DisplayItemModel {
    Rect { point: LayoutPoint, size: LayoutSize, color: ColorModel },
    Text { point: LayoutPoint, text: Seq<char>, color: ColorModel, font_size: FontSize },
    Link { point: LayoutPoint, text: Seq<char>, href: Seq<char> },
}

impl View for DisplayItem {
    type V = DisplayItemModel;

    open spec fn view(&self) -> DisplayItemModel {
        match self {
            DisplayItem::Rect { point, size, color } => DisplayItemModel::Rect {
                point: *point,
                size: *size,
                color: color@,
            },
            DisplayItem::Text { point, text, color, font_size } => DisplayItemModel::Text {
                point: *point,
                text: text@,
                color: color@,
                font_size: *font_size,
            },
            DisplayItem::Link { point, text, href } => DisplayItemModel::Link {
                point: *point,
                text: text@,
                href: href@,
            },
        }
    }
}

/// The models of a list of display items, in order.
pub open spec fn items_view(s: Seq<DisplayItem>) -> Seq<DisplayItemModel> {
    s.map_values(|d: DisplayItem| d@)
}

/// The text under an anchor: the characters of its direct text children, in
/// order.
pub open spec fn anchor_text(c: Option<Box<LayoutObject>>) -> Seq<char>
    decreases c,
{
    match c {
        None => Seq::empty(),
        Some(b) => {
            let n = *b;
            let own = match n.node_kind {
                NodeKind::Text(s) => s@,
                _ => Seq::<char>::empty(),
            };
            own + anchor_text(n.next_sibling)
        },
    }
}

/// The value of the first attribute named `name`, if any.
pub open spec fn attr_value(attrs: Seq<crate::attribute::AttrModel>, name: Seq<char>) -> Seq<char>
    decreases attrs.len(),
{
    if attrs.len() == 0 {
        Seq::empty()
    } else if attrs[0].name == name {
        attrs[0].value
    } else {
        attr_value(attrs.drop_first(), name)
    }
}

/// A background that must be painted: any color other than the white
/// default's code.
pub open spec fn bg_visible(c: Color) -> bool {
    c.code@ != "#ffffff"@
}

/// The paint instructions one box contributes, in order: its background
/// rectangle when the background is not the default, its text run when it
/// is a text box, and its link region when it renders an anchor.
pub open spec fn spec_node_items(lo: LayoutObject) -> Seq<DisplayItemModel> {
    let rect: Seq<DisplayItemModel> = if bg_visible(lo.style.background_color) {
        seq![
            DisplayItemModel::Rect {
                point: lo.point,
                size: lo.size,
                color: lo.style.background_color@,
            },
        ]
    } else {
        Seq::empty()
    };
    let text: Seq<DisplayItemModel> = match lo.node_kind {
        NodeKind::Text(s) => seq![
            DisplayItemModel::Text {
                point: lo.point,
                text: s@,
                color: lo.style.color@,
                font_size: lo.style.font_size,
            },
        ],
        _ => Seq::empty(),
    };
    let link: Seq<DisplayItemModel> = match lo.node_kind {
        NodeKind::Element(e) => if e.tag_name@ == "a"@ {
            seq![
                DisplayItemModel::Link {
                    point: lo.point,
                    text: anchor_text(lo.first_child),
                    href: attr_value(attrs_view(e.attributes@), "href"@),
                },
            ]
        } else {
            Seq::empty()
        },
        _ => Seq::empty(),
    };
    rect + text + link
}

/// Concatenates the direct text children of an anchor.
fn anchor_text_of(c: &Option<Box<LayoutObject>>) -> (r: String)
    ensures
        r@ == anchor_text(*c),
    decreases *c,
{
    match c {
        None => String::new(),
        Some(b) => {
            let mut s = match &b.node_kind {
                NodeKind::Text(t) => t.clone(),
                _ => String::new(),
            };
            let rest = anchor_text_of(&b.next_sibling);
            s.append(rest.as_str());
            s
        },
    }
}

/// Finds the value of the first attribute named `name`; the empty string
/// when there is none.
#[verifier::loop_isolation(false)]
fn attr_value_of(attrs: &Vec<crate::attribute::Attribute>, name: &str) -> (r: String)
    ensures
        r@ == attr_value(attrs_view(attrs@), name@),
    decreases attrs@.len(),
{
    let ghost am = attrs_view(attrs@);
    let mut i: usize = 0;
    proof {
        assert(am.subrange(0, am.len() as int) =~= am);
    }
    while i < attrs.len()
        invariant
            i <= attrs.len(),
            attr_value(am, name@) == attr_value(am.subrange(i as int, am.len() as int), name@),
        decreases attrs.len() - i,
    {
        let ghost rest = am.subrange(i as int, am.len() as int);
        proof {
            assert(rest[0] == am[i as int]);
            assert(rest.drop_first() =~= am.subrange(i + 1, am.len() as int));
            assert(am[i as int] == attrs@[i as int]@);
        }
        let a = &attrs[i];
        if str_eq(a.name().as_str(), name) {
            return a.value().clone();
        }
        i = i + 1;
    }
    proof {
        assert(am.subrange(am.len() as int, am.len() as int) =~= Seq::<
            crate::attribute::AttrModel,
        >::empty());
    }
    String::new()
}

impl LayoutObject {
    /// Appends this box's own paint instructions to `items`: background
    /// rectangle, then text run, then link region, as far as each applies.
    pub fn paint(&self, items: &mut Vec<DisplayItem>)
        ensures
            items_view(final(items)@) == items_view(old(items)@) + spec_node_items(*self),
    {
        let ghost before = items@;
        if !str_eq(self.style.background_color.code.as_str(), "#ffffff") {
            items.push(
                DisplayItem::Rect {
                    point: self.point,
                    size: self.size,
                    color: self.style.background_color.duplicate(),
                },
            );
        }
        match &self.node_kind {
            NodeKind::Text(s) => {
                items.push(
                    DisplayItem::Text {
                        point: self.point,
                        text: s.clone(),
                        color: self.style.color.duplicate(),
                        font_size: self.style.font_size,
                    },
                );
            },
            _ => {},
        }
        match &self.node_kind {
            NodeKind::Element(e) => {
                if str_eq(e.tag_name.as_str(), "a") {
                    let text = anchor_text_of(&self.first_child);
                    let href = attr_value_of(&e.attributes, "href");
                    items.push(DisplayItem::Link { point: self.point, text, href });
                }
            },
            _ => {},
        }
        proof {
            assert(items_view(items@) =~= items_view(before) + spec_node_items(*self));
        }
    }
}

} // verus!
