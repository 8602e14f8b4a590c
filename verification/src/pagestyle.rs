//! Page layout styles.
//!
//! A page style is an opaque bag of layout attributes with a header and a
//! footer bag beside it; the codec stores and returns the attributes without
//! interpreting them.

use vstd::prelude::*;

use crate::attrmap::AttrMap2;
use crate::error::OdsError;
use crate::units::MasterPageUsage;

verus! {

/// A reference to a page style, by name.
#[derive(Debug)]
pub struct PageStyleRef {
    /// The referenced style's name.
    pub name: String,
}

/// Style attributes for a page header or footer.
#[derive(Debug)]
pub struct HeaderFooterStyle {
    /// The attribute bag.
    pub style: AttrMap2,
}

impl HeaderFooterStyle {
    /// An empty bag.
    pub fn new() -> (r: HeaderFooterStyle)
        ensures
            r.style.wf(),
            r.style@.len() == 0,
    {
        HeaderFooterStyle { style: AttrMap2::new() }
    }

    /// The attributes.
    pub fn style(&self) -> (r: &AttrMap2)
        ensures
            r == &self.style,
    {
        &self.style
    }

    /// The attributes, for changing.
    pub fn style_mut(&mut self) -> (r: &mut AttrMap2)
        ensures
            old(self) == old(self),
            *final(r) == final(self).style,
    {
        &mut self.style
    }
}

/// The layout properties of a page: sizes, margins, numbering and the rest,
/// stored as attributes.
#[derive(Debug)]
pub struct PageStyle {
    /// The style's name.
    pub name: String,
    /// The kind of pages the master generates, as attribute text.
    pub master_page_usage: Option<String>,
    /// The page attributes.
    pub style: AttrMap2,
    /// The header attributes.
    pub header: HeaderFooterStyle,
    /// The footer attributes.
    pub footer: HeaderFooterStyle,
}

impl PageStyle {
    /// Well-formedness of the attribute bags.
    pub open spec fn wf(&self) -> bool {
        self.style.wf() && self.header.style.wf() && self.footer.style.wf()
    }

    /// A page style with no name yet.
    pub fn new_empty() -> (r: PageStyle)
        ensures
            r.wf(),
            r.name@ == Seq::<char>::empty(),
            r.master_page_usage is None,
            r.style@.len() == 0,
            r.header.style@.len() == 0,
            r.footer.style@.len() == 0,
    {
        PageStyle {
            name: String::new(),
            master_page_usage: None,
            style: AttrMap2::new(),
            header: HeaderFooterStyle::new(),
            footer: HeaderFooterStyle::new(),
        }
    }

    /// A named page style.
    pub fn new(name: String) -> (r: PageStyle)
        ensures
            r.wf(),
            r.name@ == name@,
            r.master_page_usage is None,
            r.style@.len() == 0,
            r.header.style@.len() == 0,
            r.footer.style@.len() == 0,
    {
        PageStyle {
            name,
            master_page_usage: None,
            style: AttrMap2::new(),
            header: HeaderFooterStyle::new(),
            footer: HeaderFooterStyle::new(),
        }
    }

    /// A reference to this style.
    pub fn style_ref(&self) -> (r: PageStyleRef)
        ensures
            r.name@ == self.name@,
    {
        PageStyleRef { name: self.name.clone() }
    }

    /// The style's name.
    pub fn name(&self) -> (r: &String)
        ensures
            r == &self.name,
    {
        &self.name
    }

    /// Renames the style.
    pub fn set_name(&mut self, name: String)
        ensures
            final(self).name@ == name@,
            final(self).master_page_usage == old(self).master_page_usage,
            final(self).style == old(self).style,
            final(self).header == old(self).header,
            final(self).footer == old(self).footer,
    {
        self.name = name;
    }

    /// Chooses which pages the master generates.
    pub fn set_page_usage(&mut self, usage: Option<MasterPageUsage>)
        ensures
            match usage {
                Some(u) => final(self).master_page_usage matches Some(s) && s@ == match u {
                    MasterPageUsage::All => "all"@,
                    MasterPageUsage::Left => "left"@,
                    MasterPageUsage::Mirrored => "mirrored"@,
                    MasterPageUsage::Right => "right"@,
                },
                None => final(self).master_page_usage is None,
            },
            final(self).name == old(self).name,
            final(self).style == old(self).style,
            final(self).header == old(self).header,
            final(self).footer == old(self).footer,
    {
        match usage {
            Some(u) => {
                self.master_page_usage = Some(u.as_str().to_owned());
            },
            None => {
                self.master_page_usage = None;
            },
        }
    }

    /// Reads back which pages the master generates: the keyword stored by
    /// the setter decodes to its own choice, nothing decodes to nothing, and
    /// an unknown keyword is a format error.
    pub fn page_usage(&self) -> (r: Result<Option<MasterPageUsage>, OdsError>)
        ensures
            match self.master_page_usage {
                None => r == Result::<Option<MasterPageUsage>, OdsError>::Ok(None),
                Some(t) => {
                    ||| (t@ == "all"@ && r == Result::<Option<MasterPageUsage>, OdsError>::Ok(
                        Some(MasterPageUsage::All),
                    ))
                    ||| (t@ == "left"@ && r == Result::<Option<MasterPageUsage>, OdsError>::Ok(
                        Some(MasterPageUsage::Left),
                    ))
                    ||| (t@ == "mirrored"@ && r == Result::<
                        Option<MasterPageUsage>,
                        OdsError,
                    >::Ok(Some(MasterPageUsage::Mirrored)))
                    ||| (t@ == "right"@ && r == Result::<Option<MasterPageUsage>, OdsError>::Ok(
                        Some(MasterPageUsage::Right),
                    ))
                    ||| (t@ != "all"@ && t@ != "left"@ && t@ != "mirrored"@ && t@ != "right"@
                        && r is Err)
                },
            },
    {
        MasterPageUsage::parse_attr(self.master_page_usage.as_ref())
    }

    /// The header attributes.
    pub fn headerstyle(&self) -> (r: &HeaderFooterStyle)
        ensures
            r == &self.header,
    {
        &self.header
    }

    /// The header attributes, for changing.
    pub fn headerstyle_mut(&mut self) -> (r: &mut HeaderFooterStyle)
        ensures
            *final(r) == final(self).header,
            final(self).name == old(self).name,
    {
        &mut self.header
    }

    /// The footer attributes.
    pub fn footerstyle(&self) -> (r: &HeaderFooterStyle)
        ensures
            r == &self.footer,
    {
        &self.footer
    }

    /// The footer attributes, for changing.
    pub fn footerstyle_mut(&mut self) -> (r: &mut HeaderFooterStyle)
        ensures
            *final(r) == final(self).footer,
            final(self).name == old(self).name,
    {
        &mut self.footer
    }

    /// The page attributes.
    pub fn style(&self) -> (r: &AttrMap2)
        ensures
            r == &self.style,
    {
        &self.style
    }

    /// The page attributes, for changing.
    pub fn style_mut(&mut self) -> (r: &mut AttrMap2)
        ensures
            *final(r) == final(self).style,
            final(self).name == old(self).name,
    {
        &mut self.style
    }
}

} // verus!
