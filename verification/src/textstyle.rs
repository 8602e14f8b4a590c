//! Character text styles.
//!
//! A text style is a named pair of attribute bags: general style attributes
//! and the text attributes themselves.  Cells use cell styles instead; this
//! style dresses runs of text.

use vstd::prelude::*;

use crate::attrmap::AttrMap2;
use crate::style::Origin;

verus! {

/// A reference to a text style, by name.
#[derive(Debug)]
pub struct TextStyleRef {
    /// The referenced style's name.
    pub name: String,
}

/// How a style is offered to documents.
#[derive(Debug, Clone, Copy, PartialEq, Eq, Structural)]
pub enum StyleUse {
    /// A built-in default.
    Default,
    /// A named style.
    Named,
    /// An automatic style.
    Automatic,
}

/// A named text style with its attribute bags.
#[derive(Debug)]
pub struct TextStyle {
    /// Where the style came from.
    pub origin: Origin,
    /// How the style is offered.
    pub styleuse: StyleUse,
    /// The style's name.
    pub name: String,
    /// General style attributes.
    pub attr: AttrMap2,
    /// The text attributes.
    pub textstyle: AttrMap2,
}

impl TextStyle {
    /// Well-formedness of the attribute bags.
    pub open spec fn wf(&self) -> bool {
        self.attr.wf() && self.textstyle.wf()
    }

    /// A text style with no name yet.
    pub fn new_empty() -> (r: TextStyle)
        ensures
            r.wf(),
            r.name@ == Seq::<char>::empty(),
            r.origin == Origin::Styles,
            r.styleuse == StyleUse::Automatic,
            r.attr@.len() == 0,
            r.textstyle@.len() == 0,
    {
        TextStyle {
            origin: Origin::Styles,
            styleuse: StyleUse::Automatic,
            name: String::new(),
            attr: AttrMap2::new(),
            textstyle: AttrMap2::new(),
        }
    }

    /// A named text style.
    pub fn new(name: String) -> (r: TextStyle)
        ensures
            r.wf(),
            r.name@ == name@,
            r.origin == Origin::Styles,
            r.styleuse == StyleUse::Automatic,
            r.attr@.len() == 0,
            r.textstyle@.len() == 0,
    {
        TextStyle {
            origin: Origin::Styles,
            styleuse: StyleUse::Automatic,
            name,
            attr: AttrMap2::new(),
            textstyle: AttrMap2::new(),
        }
    }

    /// A reference to this style.
    pub fn style_ref(&self) -> (r: TextStyleRef)
        ensures
            r.name@ == self.name@,
    {
        TextStyleRef { name: self.name.clone() }
    }

    /// The style's name.
    pub fn name(&self) -> (r: &String)
        ensures
            r == &self.name,
    {
        &self.name
    }

    /// Renames the style.
    pub fn set_name(&mut self, name: String)
        ensures
            final(self).name@ == name@,
            final(self).origin == old(self).origin,
            final(self).styleuse == old(self).styleuse,
            final(self).attr == old(self).attr,
            final(self).textstyle == old(self).textstyle,
    {
        self.name = name;
    }

    /// The general attributes.
    pub fn attrmap(&self) -> (r: &AttrMap2)
        ensures
            r == &self.attr,
    {
        &self.attr
    }

    /// The general attributes, for changing.
    pub fn attrmap_mut(&mut self) -> (r: &mut AttrMap2)
        ensures
            *final(r) == final(self).attr,
            final(self).name == old(self).name,
    {
        &mut self.attr
    }

    /// The text attributes.
    pub fn textstyle(&self) -> (r: &AttrMap2)
        ensures
            r == &self.textstyle,
    {
        &self.textstyle
    }

    /// The text attributes, for changing.
    pub fn textstyle_mut(&mut self) -> (r: &mut AttrMap2)
        ensures
            *final(r) == final(self).textstyle,
            final(self).name == old(self).name,
    {
        &mut self.textstyle
    }
}

} // verus!
