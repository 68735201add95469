//! The style side of layout: colors, the recognized style properties, a
//! value model of a parsed style sheet, and the cascade that resolves a
//! computed style for one element.

use vstd::prelude::*;
use vstd::string::StrSliceExecFns;
use crate::attribute::{attrs_view, AttrModel, Attribute};
use crate::strutil::str_eq;

verus! {

/// The view of an optional owned string.
pub open spec fn opt_str_view(o: Option<String>) -> Option<Seq<char>> {
    match o {
        Some(s) => Some(s@),
        None => None,
    }
}

/// An RGB color: its hex code, and its CSS keyword where one names it.
#[derive(Debug, Clone, PartialEq, Eq)]
pub struct Color {
    pub name: Option<String>,
    pub code: String,
}

/// The hex code a CSS color keyword stands for, for the palette this engine
/// recognizes.
pub open spec fn color_code_of(name: Seq<char>) -> Option<Seq<char>> {
    if name == "white"@ {
        Some("#ffffff"@)
    } else if name == "black"@ {
        Some("#000000"@)
    } else if name == "red"@ {
        Some("#ff0000"@)
    } else if name == "green"@ {
        Some("#008000"@)
    } else if name == "blue"@ {
        Some("#0000ff"@)
    } else if name == "yellow"@ {
        Some("#ffff00"@)
    } else if name == "orange"@ {
        Some("#ffa500"@)
    } else if name == "gray"@ {
        Some("#808080"@)
    } else if name == "silver"@ {
        Some("#c0c0c0"@)
    } else if name == "lime"@ {
        Some("#00ff00"@)
    } else {
        None
    }
}

/// The keyword of a hex code, where the palette names it.
pub open spec fn color_name_of(code: Seq<char>) -> Option<Seq<char>> {
    if code == "#ffffff"@ {
        Some("white"@)
    } else if code == "#000000"@ {
        Some("black"@)
    } else if code == "#ff0000"@ {
        Some("red"@)
    } else if code == "#008000"@ {
        Some("green"@)
    } else if code == "#0000ff"@ {
        Some("blue"@)
    } else if code == "#ffff00"@ {
        Some("yellow"@)
    } else if code == "#ffa500"@ {
        Some("orange"@)
    } else if code == "#808080"@ {
        Some("gray"@)
    } else if code == "#c0c0c0"@ {
        Some("silver"@)
    } else if code == "#00ff00"@ {
        Some("lime"@)
    } else {
        None
    }
}

/// `c` carries exactly this keyword and this code.
pub open spec fn color_is(c: Color, name: Option<Seq<char>>, code: Seq<char>) -> bool {
    opt_str_view(c.name) == name && c.code@ == code
}

/// Two colors that agree keyword-for-keyword and code-for-code.
pub open spec fn color_like(a: Color, b: Color) -> bool {
    opt_str_view(a.name) == opt_str_view(b.name) && a.code@ == b.code@
}

/// `c` is the white default.
pub open spec fn is_white(c: Color) -> bool {
    color_is(c, Some("white"@), "#ffffff"@)
}

/// `c` is the black default.
pub open spec fn is_black(c: Color) -> bool {
    color_is(c, Some("black"@), "#000000"@)
}

impl Color {
    /// The color a recognized CSS keyword names; `None` outside the palette.
    pub fn from_name(name: &str) -> (r: Option<Color>)
        ensures
            (r is Some) <==> (color_code_of(name@) is Some),
            r matches Some(c) ==> color_is(c, Some(name@), color_code_of(name@).unwrap()),
    {
        let code: &str = if str_eq(name, "white") {
            "#ffffff"
        } else if str_eq(name, "black") {
            "#000000"
        } else if str_eq(name, "red") {
            "#ff0000"
        } else if str_eq(name, "green") {
            "#008000"
        } else if str_eq(name, "blue") {
            "#0000ff"
        } else if str_eq(name, "yellow") {
            "#ffff00"
        } else if str_eq(name, "orange") {
            "#ffa500"
        } else if str_eq(name, "gray") {
            "#808080"
        } else if str_eq(name, "silver") {
            "#c0c0c0"
        } else if str_eq(name, "lime") {
            "#00ff00"
        } else {
            return None;
        };
        Some(Color { name: Some(String::from_str(name)), code: String::from_str(code) })
    }

    /// The color of a hex code, with its keyword looked up in the palette;
    /// an unknown code keeps no keyword.
    pub fn from_code(code: &str) -> (r: Color)
        ensures
            color_is(r, color_name_of(code@), code@),
    {
        let name: Option<String> = if str_eq(code, "#ffffff") {
            Some(String::from_str("white"))
        } else if str_eq(code, "#000000") {
            Some(String::from_str("black"))
        } else if str_eq(code, "#ff0000") {
            Some(String::from_str("red"))
        } else if str_eq(code, "#008000") {
            Some(String::from_str("green"))
        } else if str_eq(code, "#0000ff") {
            Some(String::from_str("blue"))
        } else if str_eq(code, "#ffff00") {
            Some(String::from_str("yellow"))
        } else if str_eq(code, "#ffa500") {
            Some(String::from_str("orange"))
        } else if str_eq(code, "#808080") {
            Some(String::from_str("gray"))
        } else if str_eq(code, "#c0c0c0") {
            Some(String::from_str("silver"))
        } else if str_eq(code, "#00ff00") {
            Some(String::from_str("lime"))
        } else {
            None
        };
        Color { name, code: String::from_str(code) }
    }

    /// The white default.
    pub fn white() -> (r: Color)
        ensures
            is_white(r),
    {
        Color { name: Some(String::from_str("white")), code: String::from_str("#ffffff") }
    }

    /// The black default.
    pub fn black() -> (r: Color)
        ensures
            is_black(r),
    {
        Color { name: Some(String::from_str("black")), code: String::from_str("#000000") }
    }

    /// A color that agrees with this one keyword-for-keyword and
    /// code-for-code.
    pub fn duplicate(&self) -> (r: Color)
        ensures
            color_like(r, *self),
    {
        let name: Option<String> = match &self.name {
            Some(n) => Some(n.clone()),
            None => None,
        };
        Color { name, code: self.code.clone() }
    }
}

/// The font sizes the engine distinguishes.
#[derive(Debug, Clone, Copy, PartialEq, Eq, Structural)]
pub enum FontSize {
    Medium,
    XLarge,
    XXLarge,
}

/// The display kinds the engine distinguishes.
#[derive(Debug, Clone, Copy, PartialEq, Eq, Structural)]
pub enum DisplayType {
    Block,
    Inline,
    DisplayNone,
}

/// A selector of a style rule: by tag name, by class, or by id.
#[derive(Debug, Clone, PartialEq, Eq)]
pub enum Selector {
    TypeSelector(String),
    ClassSelector(String),
    IdSelector(String),
}

/// One `property: value` pair of a style rule.
#[derive(Debug, Clone, PartialEq, Eq)]
pub struct Declaration {
    pub property: String,
    pub value: String,
}

/// One rule of a style sheet: a selector and its declarations.
#[derive(Debug, Clone, PartialEq, Eq)]
pub struct QualifiedRule {
    pub selector: Selector,
    pub declarations: Vec<Declaration>,
}

/// A parsed style sheet: rules in source order; later rules override.
#[derive(Debug, Clone, PartialEq, Eq)]
pub struct StyleSheet {
    pub rules: Vec<QualifiedRule>,
}

impl StyleSheet {
    /// The empty style sheet.
    pub fn new() -> (r: StyleSheet)
        ensures
            r.rules@ == Seq::<QualifiedRule>::empty(),
    {
        StyleSheet { rules: Vec::new() }
    }
}

/// Whether `sel` selects an element with this tag name and these attributes.
pub open spec fn sel_matches(sel: Selector, tag: Seq<char>, attrs: Seq<AttrModel>) -> bool {
    match sel {
        Selector::TypeSelector(t) => t@ == tag,
        Selector::ClassSelector(cl) => exists|i: int|
            0 <= i < attrs.len() && (#[trigger] attrs[i]).name == "class"@ && attrs[i].value
                == cl@,
        Selector::IdSelector(id) => exists|i: int|
            0 <= i < attrs.len() && (#[trigger] attrs[i]).name == "id"@ && attrs[i].value == id@,
    }
}

/// The value the declarations `decls` give to `prop`, the last one winning;
/// `None` when no declaration names it.
pub open spec fn decls_value(decls: Seq<Declaration>, prop: Seq<char>) -> Option<Seq<char>>
    decreases decls.len(),
{
    if decls.len() == 0 {
        None
    } else {
        let last = decls[decls.len() - 1];
        if last.property@ == prop {
            Some(last.value@)
        } else {
            decls_value(decls.drop_last(), prop)
        }
    }
}

/// The value the cascade gives to `prop` for an element: over the rules in
/// order, the last matching rule with a declaration of `prop` wins.
pub open spec fn cascaded_value(
    rules: Seq<QualifiedRule>,
    tag: Seq<char>,
    attrs: Seq<AttrModel>,
    prop: Seq<char>,
) -> Option<Seq<char>>
    decreases rules.len(),
{
    if rules.len() == 0 {
        None
    } else {
        let last = rules[rules.len() - 1];
        if sel_matches(last.selector, tag, attrs) && decls_value(last.declarations@, prop)
            is Some {
            decls_value(last.declarations@, prop)
        } else {
            cascaded_value(rules.drop_last(), tag, attrs, prop)
        }
    }
}

/// Decides whether `sel` selects the element.
#[verifier::loop_isolation(false)]
pub fn sel_matched(sel: &Selector, tag: &String, attrs: &Vec<Attribute>) -> (r: bool)
    ensures
        r == sel_matches(*sel, tag@, attrs_view(attrs@)),
{
    let ghost am = attrs_view(attrs@);
    match sel {
        Selector::TypeSelector(t) => str_eq(t.as_str(), tag.as_str()),
        Selector::ClassSelector(cl) => {
            let mut i: usize = 0;
            while i < attrs.len()
                invariant
                    i <= attrs.len(),
                    am == attrs_view(attrs@),
                    am.len() == attrs@.len(),
                    forall|j: int| 0 <= j < i ==> !((#[trigger] am[j]).name == "class"@
                        && am[j].value == cl@),
                decreases attrs.len() - i,
            {
                let a = &attrs[i];
                proof {
                    assert(am[i as int] == attrs@[i as int]@);
                }
                if str_eq(a.name().as_str(), "class") && str_eq(a.value().as_str(), cl.as_str()) {
                    proof {
                        assert(am[i as int].name == "class"@ && am[i as int].value == cl@);
                    }
                    return true;
                }
                i = i + 1;
            }
            false
        },
        Selector::IdSelector(id) => {
            let mut i: usize = 0;
            while i < attrs.len()
                invariant
                    i <= attrs.len(),
                    am == attrs_view(attrs@),
                    am.len() == attrs@.len(),
                    forall|j: int| 0 <= j < i ==> !((#[trigger] am[j]).name == "id"@ && am[j].value
                        == id@),
                decreases attrs.len() - i,
            {
                let a = &attrs[i];
                proof {
                    assert(am[i as int] == attrs@[i as int]@);
                }
                if str_eq(a.name().as_str(), "id") && str_eq(a.value().as_str(), id.as_str()) {
                    proof {
                        assert(am[i as int].name == "id"@ && am[i as int].value == id@);
                    }
                    return true;
                }
                i = i + 1;
            }
            false
        },
    }
}

/// Looks the cascade's value for `prop` up, scanning rules from the last to
/// the first so that the first hit is the overriding one.
#[verifier::loop_isolation(false)]
pub fn cascade_lookup(sheet: &StyleSheet, tag: &String, attrs: &Vec<Attribute>, prop: &str) -> (r:
    Option<String>)
    ensures
        opt_str_view(r) == cascaded_value(sheet.rules@, tag@, attrs_view(attrs@), prop@),
{
    let ghost am = attrs_view(attrs@);
    let mut i: usize = sheet.rules.len();
    proof {
        assert(sheet.rules@.subrange(0, sheet.rules@.len() as int) =~= sheet.rules@);
    }
    while i > 0
        invariant
            i <= sheet.rules.len(),
            am == attrs_view(attrs@),
            cascaded_value(sheet.rules@, tag@, am, prop@) == cascaded_value(
                sheet.rules@.subrange(0, i as int),
                tag@,
                am,
                prop@,
            ),
        decreases i,
    {
        i = i - 1;
        let ghost pre = sheet.rules@.subrange(0, i + 1);
        proof {
            assert(pre.drop_last() =~= sheet.rules@.subrange(0, i as int));
            assert(pre[pre.len() - 1] == sheet.rules@[i as int]);
        }
        let rule = &sheet.rules[i];
        let matched = sel_matched(&rule.selector, tag, attrs);
        if matched {
            let ghost dseq = rule.declarations@;
            let mut j: usize = rule.declarations.len();
            proof {
                assert(dseq.subrange(0, dseq.len() as int) =~= dseq);
            }
            while j > 0
                invariant
                    j <= rule.declarations.len(),
                    dseq == rule.declarations@,
                    decls_value(dseq, prop@) == decls_value(dseq.subrange(0, j as int), prop@),
                decreases j,
            {
                j = j - 1;
                let ghost dpre = dseq.subrange(0, j + 1);
                proof {
                    assert(dpre.drop_last() =~= dseq.subrange(0, j as int));
                    assert(dpre[dpre.len() - 1] == dseq[j as int]);
                }
                let d = &rule.declarations[j];
                if str_eq(d.property.as_str(), prop) {
                    proof {
                        assert(decls_value(dseq, prop@) == Some(d.value@));
                        assert(cascaded_value(pre, tag@, am, prop@) == Some(d.value@));
                    }
                    return Some(d.value.clone());
                }
            }
            proof {
                assert(dseq.subrange(0, 0) =~= Seq::<Declaration>::empty());
                assert(decls_value(dseq, prop@) is None);
            }
        }
    }
    proof {
        assert(sheet.rules@.subrange(0, 0) =~= Seq::<QualifiedRule>::empty());
    }
    None
}

} // verus!

verus! {

/// Tags that are block-level by default.
pub open spec fn default_display(tag: Seq<char>) -> DisplayType {
    if tag == "html"@ || tag == "body"@ || tag == "div"@ || tag == "h1"@ || tag == "h2"@ || tag
        == "p"@ || tag == "ul"@ || tag == "ol"@ || tag == "li"@ {
        DisplayType::Block
    } else {
        DisplayType::Inline
    }
}

/// The font size a tag carries by default.
pub open spec fn default_font_size(tag: Seq<char>) -> FontSize {
    if tag == "h1"@ {
        FontSize::XXLarge
    } else if tag == "h2"@ {
        FontSize::XLarge
    } else {
        FontSize::Medium
    }
}

/// The display the cascade gives an element: a declared `block`, `inline`
/// or `none` wins; anything else falls back to the tag's intrinsic default.
pub open spec fn display_of(
    rules: Seq<QualifiedRule>,
    tag: Seq<char>,
    attrs: Seq<AttrModel>,
) -> DisplayType {
    match cascaded_value(rules, tag, attrs, "display"@) {
        Some(v) => if v == "block"@ {
            DisplayType::Block
        } else if v == "inline"@ {
            DisplayType::Inline
        } else if v == "none"@ {
            DisplayType::DisplayNone
        } else {
            default_display(tag)
        },
        None => default_display(tag),
    }
}

/// A declared color value that the engine can read: a hex code, or a
/// keyword of the palette.
pub open spec fn known_color_value(v: Seq<char>) -> bool {
    (v.len() > 0 && v[0] == '#') || color_code_of(v) is Some
}

/// The color a declared value names: a hex code keeps the code and looks
/// the keyword up; a keyword is resolved through the palette.
pub open spec fn value_color_ok(c: Color, v: Seq<char>) -> bool {
    if v.len() > 0 && v[0] == '#' {
        color_is(c, color_name_of(v), v)
    } else if color_code_of(v) is Some {
        color_is(c, Some(v), color_code_of(v).unwrap())
    } else {
        false
    }
}

/// The view of an optional borrowed style.
pub open spec fn opt_style(o: Option<&ComputedStyle>) -> Option<ComputedStyle> {
    match o {
        Some(p) => Some(*p),
        None => None,
    }
}

/// An element's resolved style after cascade, inheritance and defaulting.
#[derive(Debug, Clone, PartialEq, Eq)]
pub struct ComputedStyle {
    pub display: DisplayType,
    pub background_color: Color,
    pub color: Color,
    pub font_size: FontSize,
}

impl ComputedStyle {
    /// The resolved display kind.
    pub fn display(&self) -> (r: DisplayType)
        ensures
            r == self.display,
    {
        self.display
    }

    /// The resolved background color.
    pub fn background_color(&self) -> (r: &Color)
        ensures
            r == &self.background_color,
    {
        &self.background_color
    }

    /// The resolved text color.
    pub fn color(&self) -> (r: &Color)
        ensures
            r == &self.color,
    {
        &self.color
    }

    /// The resolved font size.
    pub fn font_size(&self) -> (r: FontSize)
        ensures
            r == self.font_size,
    {
        self.font_size
    }
}

/// The background color the cascade gives an element: a readable declared
/// value wins; everything else is the white default.
pub open spec fn background_ok(
    c: Color,
    rules: Seq<QualifiedRule>,
    tag: Seq<char>,
    attrs: Seq<AttrModel>,
) -> bool {
    match cascaded_value(rules, tag, attrs, "background-color"@) {
        Some(v) => if known_color_value(v) {
            value_color_ok(c, v)
        } else {
            is_white(c)
        },
        None => is_white(c),
    }
}

/// The text color the cascade gives an element: a readable declared value
/// wins; otherwise the parent's color is inherited, and black is the root
/// default.
pub open spec fn text_color_ok(
    c: Color,
    rules: Seq<QualifiedRule>,
    tag: Seq<char>,
    attrs: Seq<AttrModel>,
    parent: Option<ComputedStyle>,
) -> bool {
    let fallback = match parent {
        Some(p) => color_like(c, p.color),
        None => is_black(c),
    };
    match cascaded_value(rules, tag, attrs, "color"@) {
        Some(v) => if known_color_value(v) {
            value_color_ok(c, v)
        } else {
            fallback
        },
        None => fallback,
    }
}

/// The font size the cascade gives an element: a recognized declared
/// keyword wins; otherwise the parent's size is inherited, and the tag's
/// default is used at the root.
pub open spec fn font_size_ok(
    f: FontSize,
    rules: Seq<QualifiedRule>,
    tag: Seq<char>,
    attrs: Seq<AttrModel>,
    parent: Option<ComputedStyle>,
) -> bool {
    let fallback = match parent {
        Some(p) => f == p.font_size,
        None => f == default_font_size(tag),
    };
    match cascaded_value(rules, tag, attrs, "font-size"@) {
        Some(v) => if v == "medium"@ {
            f == FontSize::Medium
        } else if v == "x-large"@ {
            f == FontSize::XLarge
        } else if v == "xx-large"@ {
            f == FontSize::XXLarge
        } else {
            fallback
        },
        None => fallback,
    }
}

/// The whole resolved style of an element under this sheet and this parent.
pub open spec fn style_resolves_to(
    s: ComputedStyle,
    rules: Seq<QualifiedRule>,
    tag: Seq<char>,
    attrs: Seq<AttrModel>,
    parent: Option<ComputedStyle>,
) -> bool {
    &&& s.display == display_of(rules, tag, attrs)
    &&& background_ok(s.background_color, rules, tag, attrs)
    &&& text_color_ok(s.color, rules, tag, attrs, parent)
    &&& font_size_ok(s.font_size, rules, tag, attrs, parent)
}

/// Reads a declared color value: a hex code or a palette keyword; `None`
/// when the engine cannot read it.
pub fn color_from_value(v: &String) -> (r: Option<Color>)
    ensures
        (r is Some) == known_color_value(v@),
        r matches Some(c) ==> value_color_ok(c, v@),
{
    let n = v.as_str().unicode_len();
    if n > 0 {
        if v.as_str().get_char(0) == '#' {
            return Some(Color::from_code(v.as_str()));
        }
    }
    Color::from_name(v.as_str())
}

/// The tag's intrinsic display kind.
pub fn tag_default_display(tag: &String) -> (r: DisplayType)
    ensures
        r == default_display(tag@),
{
    if str_eq(tag.as_str(), "html") || str_eq(tag.as_str(), "body") || str_eq(tag.as_str(), "div")
        || str_eq(tag.as_str(), "h1") || str_eq(tag.as_str(), "h2") || str_eq(tag.as_str(), "p")
        || str_eq(tag.as_str(), "ul") || str_eq(tag.as_str(), "ol") || str_eq(
        tag.as_str(),
        "li",
    ) {
        DisplayType::Block
    } else {
        DisplayType::Inline
    }
}

/// The tag's intrinsic font size.
pub fn tag_default_font_size(tag: &String) -> (r: FontSize)
    ensures
        r == default_font_size(tag@),
{
    if str_eq(tag.as_str(), "h1") {
        FontSize::XXLarge
    } else if str_eq(tag.as_str(), "h2") {
        FontSize::XLarge
    } else {
        FontSize::Medium
    }
}

/// Resolves an element's computed style: cascade, then inheritance of the
/// inheritable properties from `parent`, then defaults. Never fails; an
/// unreadable value falls back exactly as a missing one does.
pub fn resolve_style(
    tag: &String,
    attrs: &Vec<Attribute>,
    parent: Option<&ComputedStyle>,
    sheet: &StyleSheet,
) -> (s: ComputedStyle)
    ensures
        style_resolves_to(s, sheet.rules@, tag@, attrs_view(attrs@), opt_style(parent)),
{
    let display = match cascade_lookup(sheet, tag, attrs, "display") {
        Some(v) => {
            if str_eq(v.as_str(), "block") {
                DisplayType::Block
            } else if str_eq(v.as_str(), "inline") {
                DisplayType::Inline
            } else if str_eq(v.as_str(), "none") {
                DisplayType::DisplayNone
            } else {
                tag_default_display(tag)
            }
        },
        None => tag_default_display(tag),
    };
    let background_color = match cascade_lookup(sheet, tag, attrs, "background-color") {
        Some(v) => match color_from_value(&v) {
            Some(c) => c,
            None => Color::white(),
        },
        None => Color::white(),
    };
    let color = match cascade_lookup(sheet, tag, attrs, "color") {
        Some(v) => match color_from_value(&v) {
            Some(c) => c,
            None => match parent {
                Some(p) => p.inherit_color(),
                None => Color::black(),
            },
        },
        None => match parent {
            Some(p) => p.inherit_color(),
            None => Color::black(),
        },
    };
    let font_size = match cascade_lookup(sheet, tag, attrs, "font-size") {
        Some(v) => {
            if str_eq(v.as_str(), "medium") {
                FontSize::Medium
            } else if str_eq(v.as_str(), "x-large") {
                FontSize::XLarge
            } else if str_eq(v.as_str(), "xx-large") {
                FontSize::XXLarge
            } else {
                match parent {
                    Some(p) => p.font_size(),
                    None => tag_default_font_size(tag),
                }
            }
        },
        None => match parent {
            Some(p) => p.font_size(),
            None => tag_default_font_size(tag),
        },
    };
    ComputedStyle { display, background_color, color, font_size }
}

impl ComputedStyle {
    /// The color a child inherits from this style.
    pub fn inherit_color(&self) -> (r: Color)
        ensures
            color_like(r, self.color),
    {
        self.color.duplicate()
    }
}

} // verus!
