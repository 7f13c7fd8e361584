//! One attribute of a start tag: a name and a value.

use crate::utils::push_char;
use crate::utils::str_eq;
use vstd::prelude::*;

verus! {

/// What an [`Attribute`] holds, as two character sequences.
pub struct AttributeView {
    pub name: Seq<char>,
    pub value: Seq<char>,
}

#[derive(Debug, PartialEq, Eq)]
pub struct Attribute {
    name: String,
    value: String,
}

impl View for Attribute {
    type V = AttributeView;

    closed spec fn view(&self) -> AttributeView {
        AttributeView { name: self.name@, value: self.value@ }
    }
}

/// The views of a sequence of attributes, in the same order.
pub open spec fn attributes_view(attrs: Seq<Attribute>) -> Seq<AttributeView> {
    attrs.map_values(|a: Attribute| a@)
}

impl Attribute {
    /// An attribute with an empty name and an empty value.
    pub fn new() -> (a: Self)
        ensures
            a@ == (AttributeView { name: Seq::empty(), value: Seq::empty() }),
    {
        Self { name: String::new(), value: String::new() }
    }

    /// An attribute with the given name and value.
    pub fn from_parts(name: String, value: String) -> (a: Self)
        ensures
            a@ == (AttributeView { name: name@, value: value@ }),
    {
        Self { name, value }
    }

    /// Appends `c` to the name if `is_name` holds, else to the value.
    pub fn add_char(&mut self, c: char, is_name: bool)
        ensures
            is_name ==> final(self)@ == (AttributeView {
                name: old(self)@.name.push(c),
                value: old(self)@.value,
            }),
            !is_name ==> final(self)@ == (AttributeView {
                name: old(self)@.name,
                value: old(self)@.value.push(c),
            }),
    {
        if is_name {
            push_char(&mut self.name, c);
        } else {
            push_char(&mut self.value, c);
        }
    }

    pub fn name(&self) -> (s: String)
        ensures
            s@ == self@.name,
    {
        self.name.clone()
    }

    /// Whether this attribute has the same name as `other`.
    pub fn same_name(&self, other: &Attribute) -> (r: bool)
        ensures
            r == (self@.name == other@.name),
    {
        self.name == other.name
    }

    /// Whether this attribute has the given name and the given value.
    pub fn is(&self, name: &str, value: &str) -> (r: bool)
        ensures
            r == (self@.name == name@ && self@.value == value@),
    {
        str_eq(self.name.as_str(), name) && str_eq(self.value.as_str(), value)
    }

    pub fn value(&self) -> (s: String)
        ensures
            s@ == self@.value,
    {
        self.value.clone()
    }

}

impl Clone for Attribute {
    fn clone(&self) -> (a: Self)
        ensures
            a@ == self@,
    {
        Self { name: self.name.clone(), value: self.value.clone() }
    }
}

/// Whether some attribute of `attrs` has the name `name` and the value
/// `value`.
pub open spec fn has_attribute(
    attrs: Seq<AttributeView>,
    name: Seq<char>,
    value: Seq<char>,
) -> bool {
    exists|i: int|
        0 <= i < attrs.len() && (#[trigger] attrs[i]).name == name && attrs[i].value == value
}

/// Whether some attribute of `attrs` has the name `name` and the value
/// `value`.
pub fn find_attribute(attrs: &Vec<Attribute>, name: &str, value: &str) -> (r: bool)
    ensures
        r == has_attribute(attributes_view(attrs@), name@, value@),
{
    let mut i: usize = 0;
    while i < attrs.len()
        invariant
            i <= attrs.len(),
            forall|j: int|
                0 <= j < i ==> !((#[trigger] attributes_view(attrs@)[j]).name == name@
                    && attributes_view(attrs@)[j].value == value@),
        decreases attrs.len() - i,
    {
        if attrs[i].is(name, value) {
            assert(attributes_view(attrs@)[i as int] == attrs@[i as int]@);
            return true;
        }
        assert(attributes_view(attrs@)[i as int] == attrs@[i as int]@);
        i += 1;
    }
    false
}

/// A copy of a list of attributes.
pub fn clone_attributes(attrs: &Vec<Attribute>) -> (out: Vec<Attribute>)
    ensures
        attributes_view(out@) == attributes_view(attrs@),
{
    let mut out: Vec<Attribute> = Vec::new();
    let mut i: usize = 0;
    while i < attrs.len()
        invariant
            i <= attrs.len(),
            out.len() == i,
            forall|j: int| 0 <= j < i ==> out@[j]@ == attrs@[j]@,
        decreases attrs.len() - i,
    {
        out.push(attrs[i].clone());
        i += 1;
    }
    assert(attributes_view(out@) =~= attributes_view(attrs@));
    out
}

} // verus!
