//! The attributes of an element: their names, and the bag that holds the
//! attributes of one element in the order in which they were written.

use vstd::prelude::*;
use crate::properties::Property;
use crate::strings::str_eq;

verus! {

/// The name of an attribute.
#[derive(Clone, Copy, Debug, PartialEq, Eq, Structural)]
pub enum Attribute {
    Dx,
    Dy,
    RequiredExtensions,
    RequiredFeatures,
    Style,
    SystemLanguage,
    Transform,
    X,
    XlinkHref,
    Y,
    /// An attribute with the name of a style property.
    Presentation(Property),
    /// Any other attribute.
    Other,
}

impl Attribute {
    /// The attribute that the name `s` stands for.
    pub open spec fn named(s: Seq<char>) -> Attribute {
        if s == "dx"@ {
            Attribute::Dx
        } else if s == "dy"@ {
            Attribute::Dy
        } else if s == "requiredExtensions"@ {
            Attribute::RequiredExtensions
        } else if s == "requiredFeatures"@ {
            Attribute::RequiredFeatures
        } else if s == "style"@ {
            Attribute::Style
        } else if s == "systemLanguage"@ {
            Attribute::SystemLanguage
        } else if s == "transform"@ {
            Attribute::Transform
        } else if s == "x"@ {
            Attribute::X
        } else if s == "xlink:href"@ {
            Attribute::XlinkHref
        } else if s == "y"@ {
            Attribute::Y
        } else {
            match Property::named(s) {
                Some(p) => Attribute::Presentation(p),
                None => Attribute::Other,
            }
        }
    }

    /// The attribute that the name `s` stands for.
    pub fn from_name(s: &str) -> (r: Attribute)
        ensures
            r == Attribute::named(s@),
    {
        if str_eq(s, "dx") {
            Attribute::Dx
        } else if str_eq(s, "dy") {
            Attribute::Dy
        } else if str_eq(s, "requiredExtensions") {
            Attribute::RequiredExtensions
        } else if str_eq(s, "requiredFeatures") {
            Attribute::RequiredFeatures
        } else if str_eq(s, "style") {
            Attribute::Style
        } else if str_eq(s, "systemLanguage") {
            Attribute::SystemLanguage
        } else if str_eq(s, "transform") {
            Attribute::Transform
        } else if str_eq(s, "x") {
            Attribute::X
        } else if str_eq(s, "xlink:href") {
            Attribute::XlinkHref
        } else if str_eq(s, "y") {
            Attribute::Y
        } else {
            match Property::from_name(s) {
                Some(p) => Attribute::Presentation(p),
                None => Attribute::Other,
            }
        }
    }
}

/// One attribute of an element.
pub struct AttributeEntry {
    pub attr: Attribute,
    pub value: String,
}

/// The attributes of one element, in the order in which they were written.
pub struct PropertyBag {
    entries: Vec<AttributeEntry>,
}

impl View for PropertyBag {
    type V = Seq<(Attribute, Seq<char>)>;

    /// The name and the value of each attribute, in order.
    closed spec fn view(&self) -> Seq<(Attribute, Seq<char>)> {
        Seq::new(self.entries@.len(), |i: int| (self.entries@[i].attr, self.entries@[i].value@))
    }
}

impl PropertyBag {
    /// A bag without attributes.
    pub fn new() -> (r: PropertyBag)
        ensures
            r@ == Seq::<(Attribute, Seq<char>)>::empty(),
    {
        let r = PropertyBag { entries: Vec::new() };
        assert(r@ =~= Seq::<(Attribute, Seq<char>)>::empty());
        r
    }

    /// Adds an attribute behind those that the bag holds.
    pub fn push(&mut self, attr: Attribute, value: &str)
        ensures
            final(self)@ == old(self)@.push((attr, value@)),
    {
        self.entries.push(AttributeEntry { attr, value: value.to_owned() });
        assert(self@ =~= old(self)@.push((attr, value@)));
    }

    /// Adds the attribute with the name `name` behind those that the bag
    /// holds.
    pub fn push_named(&mut self, name: &str, value: &str)
        ensures
            final(self)@ == old(self)@.push((Attribute::named(name@), value@)),
    {
        self.push(Attribute::from_name(name), value);
    }

    /// The number of attributes.
    pub fn len(&self) -> (r: usize)
        ensures
            r == self@.len(),
    {
        self.entries.len()
    }

    /// The name of the attribute at place `i`.
    pub fn attribute(&self, i: usize) -> (r: Attribute)
        requires
            i < self@.len(),
        ensures
            r == self@[i as int].0,
    {
        self.entries[i].attr
    }

    /// The value of the attribute at place `i`.
    pub fn value(&self, i: usize) -> (r: &str)
        requires
            i < self@.len(),
        ensures
            r@ == self@[i as int].1,
    {
        self.entries[i].value.as_str()
    }
}

} // verus!
