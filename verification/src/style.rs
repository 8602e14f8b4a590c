//! Cosmetic styles and font declarations.
//!
//! Styles are opaque property bags: the codec stores their attributes and
//! writes them back, but never interprets them.  Each style belongs to a
//! family and may reference a parent style and a data style by name.

use vstd::prelude::*;

use crate::attrmap::AttrMap2;

verus! {

/// Where a style was defined.
#[derive(Debug, Clone, Copy, PartialEq, Eq, Structural)]
pub enum Origin {
    /// Built in or created by the caller.
    Styles,
    /// Loaded from the document's content.
    Content,
}

/// Which table part a style addresses.
#[derive(Debug, Clone, Copy, PartialEq, Eq, Structural)]
pub enum Family {
    /// A whole table.
    Table,
    /// A table column.
    TableColumn,
    /// A table row.
    TableRow,
    /// A table cell.
    TableCell,
    /// Not yet assigned.
    Unassigned,
}

/// A named cosmetic style: a family, optional references, and one property
/// bag per table part.
#[derive(Debug)]
pub struct Style {
    /// The style's name.
    pub name: String,
    /// Where the style came from.
    pub origin: Origin,
    /// Which table part it addresses.
    pub family: Family,
    /// The shown name, if it differs from the name.
    pub display_name: Option<String>,
    /// The parent style's name, if any.
    pub parent: Option<String>,
    /// The named value format this style renders values with, if any.
    pub value_style: Option<String>,
    /// Table properties.
    pub table_prp: Option<AttrMap2>,
    /// Table-column properties.
    pub table_col_prp: Option<AttrMap2>,
    /// Table-row properties.
    pub table_row_prp: Option<AttrMap2>,
    /// Table-cell properties.
    pub table_cell_prp: Option<AttrMap2>,
    /// Paragraph properties.
    pub paragraph_prp: Option<AttrMap2>,
    /// Text properties.
    pub text_prp: Option<AttrMap2>,
}

/// Binds `k` to `v` in an optional property bag, creating the bag first
/// when none is there.
pub fn set_in_opt_map(m: &mut Option<AttrMap2>, k: String, v: String)
    requires
        opt_map_wf(*old(m)),
    ensures
        *final(m) matches Some(a) && a.wf() && crate::attrmap::map_get(a@, k@) == Some(v@),
        opt_map_view(*final(m)) == crate::attrmap::map_set(opt_map_view(*old(m)), k@, v@),
{
    match m {
        Some(a) => a.set(k, v),
        None => {
            let mut a = AttrMap2::new();
            let ghost empty_view = a@;
            a.set(k, v);
            proof {
                assert(empty_view =~= Seq::<(Seq<char>, Seq<char>)>::empty());
            }
            *m = Some(a);
        },
    }
}

/// The entries of an optional property bag; absence is the empty bag.
pub open spec fn opt_map_view(m: Option<AttrMap2>) -> Seq<(Seq<char>, Seq<char>)> {
    match m {
        Some(a) => a@,
        None => Seq::empty(),
    }
}

/// Whether an optional property bag is well formed.
pub open spec fn opt_map_wf(m: Option<AttrMap2>) -> bool {
    match m {
        Some(a) => a.wf(),
        None => true,
    }
}

impl Style {
    /// Well-formedness: every property bag holds each key once.
    pub open spec fn wf(&self) -> bool {
        &&& opt_map_wf(self.table_prp)
        &&& opt_map_wf(self.table_col_prp)
        &&& opt_map_wf(self.table_row_prp)
        &&& opt_map_wf(self.table_cell_prp)
        &&& opt_map_wf(self.paragraph_prp)
        &&& opt_map_wf(self.text_prp)
    }

    /// An unnamed style from the given origin.
    pub fn new_origin(origin: Origin) -> (r: Style)
        ensures
            r.wf(),
            r.origin == origin,
            r.family == Family::Unassigned,
            r.name@ == Seq::<char>::empty(),
            r.display_name is None,
            r.parent is None,
            r.value_style is None,
            r.table_prp is None,
            r.table_col_prp is None,
            r.table_row_prp is None,
            r.table_cell_prp is None,
            r.paragraph_prp is None,
            r.text_prp is None,
    {
        Style {
            name: String::new(),
            origin,
            family: Family::Unassigned,
            display_name: None,
            parent: None,
            value_style: None,
            table_prp: None,
            table_col_prp: None,
            table_row_prp: None,
            table_cell_prp: None,
            paragraph_prp: None,
            text_prp: None,
        }
    }

    /// Names the style.
    pub fn set_name(&mut self, name: String)
        ensures
            final(self).name@ == name@,
            *final(self) == (Style { name: final(self).name, ..*old(self) }),
    {
        self.name = name;
    }

    /// Binds a table property.
    pub fn set_table_prp(&mut self, k: String, v: String)
        requires
            old(self).wf(),
        ensures
            final(self).wf(),
            opt_map_view(final(self).table_prp) == crate::attrmap::map_set(
                opt_map_view(old(self).table_prp),
                k@,
                v@,
            ),
            final(self).table_prp matches Some(a) && crate::attrmap::map_get(a@, k@) == Some(v@),
            *final(self) == (Style { table_prp: final(self).table_prp, ..*old(self) }),
    {
        set_in_opt_map(&mut self.table_prp, k, v);
    }

    /// Binds a table-column property.
    pub fn set_table_col_prp(&mut self, k: String, v: String)
        requires
            old(self).wf(),
        ensures
            final(self).wf(),
            opt_map_view(final(self).table_col_prp) == crate::attrmap::map_set(
                opt_map_view(old(self).table_col_prp),
                k@,
                v@,
            ),
            final(self).table_col_prp matches Some(a) && crate::attrmap::map_get(a@, k@) == Some(
                v@,
            ),
            *final(self) == (Style { table_col_prp: final(self).table_col_prp, ..*old(self) }),
    {
        set_in_opt_map(&mut self.table_col_prp, k, v);
    }

    /// Binds a table-row property.
    pub fn set_table_row_prp(&mut self, k: String, v: String)
        requires
            old(self).wf(),
        ensures
            final(self).wf(),
            opt_map_view(final(self).table_row_prp) == crate::attrmap::map_set(
                opt_map_view(old(self).table_row_prp),
                k@,
                v@,
            ),
            final(self).table_row_prp matches Some(a) && crate::attrmap::map_get(a@, k@) == Some(
                v@,
            ),
            *final(self) == (Style { table_row_prp: final(self).table_row_prp, ..*old(self) }),
    {
        set_in_opt_map(&mut self.table_row_prp, k, v);
    }

    /// Binds a table-cell property.
    pub fn set_table_cell_prp(&mut self, k: String, v: String)
        requires
            old(self).wf(),
        ensures
            final(self).wf(),
            opt_map_view(final(self).table_cell_prp) == crate::attrmap::map_set(
                opt_map_view(old(self).table_cell_prp),
                k@,
                v@,
            ),
            final(self).table_cell_prp matches Some(a) && crate::attrmap::map_get(a@, k@) == Some(
                v@,
            ),
            *final(self) == (Style { table_cell_prp: final(self).table_cell_prp, ..*old(self) }),
    {
        set_in_opt_map(&mut self.table_cell_prp, k, v);
    }

    /// Binds a paragraph property.
    pub fn set_paragraph_prp(&mut self, k: String, v: String)
        requires
            old(self).wf(),
        ensures
            final(self).wf(),
            opt_map_view(final(self).paragraph_prp) == crate::attrmap::map_set(
                opt_map_view(old(self).paragraph_prp),
                k@,
                v@,
            ),
            final(self).paragraph_prp matches Some(a) && crate::attrmap::map_get(a@, k@) == Some(
                v@,
            ),
            *final(self) == (Style { paragraph_prp: final(self).paragraph_prp, ..*old(self) }),
    {
        set_in_opt_map(&mut self.paragraph_prp, k, v);
    }

    /// Binds a text property.
    pub fn set_text_prp(&mut self, k: String, v: String)
        requires
            old(self).wf(),
        ensures
            final(self).wf(),
            opt_map_view(final(self).text_prp) == crate::attrmap::map_set(
                opt_map_view(old(self).text_prp),
                k@,
                v@,
            ),
            opt_map_view(final(self).text_prp) == crate::attrmap::map_set(
                opt_map_view(old(self).text_prp),
                k@,
                v@,
            ),
            final(self).text_prp matches Some(a) && crate::attrmap::map_get(a@, k@) == Some(v@),
            *final(self) == (Style { text_prp: final(self).text_prp, ..*old(self) }),
    {
        set_in_opt_map(&mut self.text_prp, k, v);
    }
}

/// A declared font: a name and an opaque property bag.
#[derive(Debug)]
pub struct FontDecl {
    /// The font's name.
    pub name: String,
    /// Where the declaration came from.
    pub origin: Origin,
    /// The declaration's attributes.
    pub prp: Option<AttrMap2>,
}

impl FontDecl {
    /// Well-formedness of the property bag.
    pub open spec fn wf(&self) -> bool {
        opt_map_wf(self.prp)
    }

    /// The declaration's attributes; absence is the empty bag.
    pub open spec fn prp_view(&self) -> Seq<(Seq<char>, Seq<char>)> {
        opt_map_view(self.prp)
    }

    /// An unnamed declaration from the given origin.
    pub fn new_origin(origin: Origin) -> (r: FontDecl)
        ensures
            r.wf(),
            r.origin == origin,
            r.name@ == Seq::<char>::empty(),
            r.prp is None,
    {
        FontDecl { name: String::new(), origin, prp: None }
    }

    /// Names the font.
    pub fn set_name(&mut self, name: String)
        ensures
            final(self).name@ == name@,
            final(self).origin == old(self).origin,
            final(self).prp == old(self).prp,
    {
        self.name = name;
    }

    /// Binds a declaration attribute.
    pub fn set_prp(&mut self, k: String, v: String)
        requires
            old(self).wf(),
        ensures
            final(self).wf(),
            final(self).prp_view() == crate::attrmap::map_set(old(self).prp_view(), k@, v@),
            final(self).prp matches Some(a) && crate::attrmap::map_get(a@, k@) == Some(v@),
            final(self).name == old(self).name,
            final(self).origin == old(self).origin,
    {
        set_in_opt_map(&mut self.prp, k, v);
    }
}

} // verus!
