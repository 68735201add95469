//! One attribute of a start tag: a name buffer and a value buffer, each
//! appendable one character at a time while the tokenizer scans the tag.

use vstd::prelude::*;
use crate::strutil::push_char;

verus! {

/// Mathematical image of an [`Attribute`]: its two buffers as character
/// sequences.
#[verifier::ext_equal]
pub ghost struct AttrModel {
    pub name: Seq<char>,
    pub value: Seq<char>,
}

/// The model of an attribute after one character has been appended to its
/// name buffer (when `is_name` holds) or to its value buffer.
pub open spec fn attr_added(a: AttrModel, c: char, is_name: bool) -> AttrModel {
    if is_name {
        AttrModel { name: a.name.push(c), value: a.value }
    } else {
        AttrModel { name: a.name, value: a.value.push(c) }
    }
}

/// The models of a sequence of attributes, in order.
pub open spec fn attrs_view(s: Seq<Attribute>) -> Seq<AttrModel> {
    s.map_values(|a: Attribute| a@)
}

/// One name/value pair read off a start tag. Names are expected to be
/// pre-lowercased by the tokenizer; values are preserved as read.
#[derive(Debug, Clone, PartialEq, Eq)]
pub struct Attribute {
    name: String,
    value: String,
}

impl View for Attribute {
    type V = AttrModel;

    closed spec fn view(&self) -> AttrModel {
        AttrModel { name: self.name@, value: self.value@ }
    }
}

impl Attribute {
    /// Creates an attribute with empty name and value buffers.
    pub fn new() -> (a: Self)
        ensures
            a@.name == Seq::<char>::empty(),
            a@.value == Seq::<char>::empty(),
    {
        Self { name: String::new(), value: String::new() }
    }

    /// Appends `c` to the name buffer when `is_name` holds, otherwise to the
    /// value buffer.
    pub fn add_char(&mut self, c: char, is_name: bool)
        ensures
            final(self)@ == attr_added(old(self)@, c, is_name),
    {
        if is_name {
            push_char(&mut self.name, c);
        } else {
            push_char(&mut self.value, c);
        }
    }

    /// A copy that agrees with this attribute character-for-character.
    pub fn duplicate(&self) -> (r: Attribute)
        ensures
            r@ == self@,
    {
        Attribute { name: self.name.clone(), value: self.value.clone() }
    }

    /// The attribute's name.
    pub fn name(&self) -> (r: &String)
        ensures
            r@ == self@.name,
    {
        &self.name
    }

    /// The attribute's value.
    pub fn value(&self) -> (r: &String)
        ensures
            r@ == self@.value,
    {
        &self.value
    }
}

} // verus!
