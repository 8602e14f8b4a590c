//! The structural parser.
//!
//! One forward pass over the XML events rebuilds the workbook: table
//! elements open sheets, row and cell events move a position cursor and
//! commit sparse entries, and the style regions fill the catalogs.  Repeated
//! rows and cells are expanded by moving the cursor; a repeated cell
//! materializes entries only when it carries a value, a style or a formula,
//! so fully empty regions cost nothing in memory.

use vstd::prelude::*;

use crate::attrmap::map_get;
use crate::book::SCell;
use crate::book::SColumn;
use crate::book::Sheet;
use crate::book::WorkBook;
use crate::digits::all_digits;
use crate::digits::digits_val;
use crate::digits::str_eq;
use crate::digits::strip_zeros;
use crate::error::OdsError;
use crate::format::FormatPart;
use crate::format::FormatType;
use crate::format::ValueFormat;
use crate::style::FontDecl;
use crate::style::Origin;
use crate::style::Style;
use crate::value::parse_value;
use crate::value::Value;
use crate::value::ValueType;
use crate::xml::attrs_view;
use crate::xml::XmlEvent;

verus! {

/// The first value of the attribute named `key`, if any.
pub fn attr_get<'a>(attrs: &'a Vec<(String, String)>, key: &str) -> (r: Option<&'a String>)
    ensures
        match r {
            Some(v) => map_get(attrs_view(attrs@), key@) == Some(v@),
            None => map_get(attrs_view(attrs@), key@) is None,
        },
{
    let mut i: usize = 0;
    while i < attrs.len()
        invariant
            i <= attrs@.len(),
            forall|j: int| 0 <= j < i ==> (#[trigger] attrs_view(attrs@)[j]).0 != key@,
        decreases attrs@.len() - i,
    {
        if str_eq(attrs[i].0.as_str(), key) {
            proof {
                crate::attrmap::lemma_map_get_at(attrs_view(attrs@), i as int);
            }
            return Some(&attrs[i].1);
        }
        i += 1;
    }
    proof {
        crate::attrmap::lemma_map_get_none(attrs_view(attrs@), key@);
    }
    None
}

/// The repeat count an attribute list writes under `key`: the parsed
/// counter, or one when the attribute is missing; an unreadable counter is
/// a numeric error.
pub open spec fn spec_repeat(attrs: Seq<(Seq<char>, Seq<char>)>, key: Seq<char>) -> nat {
    match map_get(attrs, key) {
        Some(s) => digits_val(s),
        None => 1,
    }
}

/// Whether the repeat attribute under `key` is readable: absent, or a
/// digit run of sane width whose value is not zero.
pub open spec fn repeat_ok(attrs: Seq<(Seq<char>, Seq<char>)>, key: Seq<char>) -> bool {
    match map_get(attrs, key) {
        Some(s) => s.len() > 0 && all_digits(s) && strip_zeros(s).len() <= 9 && digits_val(s)
            > 0,
        None => true,
    }
}

/// A property bag built by binding each of the first `n` attributes in
/// order, later bindings replacing earlier ones of the same name.
pub open spec fn attrs_fold(attrs: Seq<(Seq<char>, Seq<char>)>, n: int) -> Seq<
    (Seq<char>, Seq<char>),
>
    decreases n,
{
    if n <= 0 {
        Seq::empty()
    } else {
        crate::attrmap::map_set(attrs_fold(attrs, n - 1), attrs[n - 1].0, attrs[n - 1].1)
    }
}

/// A name and a property bag accumulated from the first `n` attributes: the
/// name attribute feeds the name, everything else the bag.
pub open spec fn named_fold(
    attrs: Seq<(Seq<char>, Seq<char>)>,
    n: int,
    name0: Seq<char>,
    m0: Seq<(Seq<char>, Seq<char>)>,
) -> (Seq<char>, Seq<(Seq<char>, Seq<char>)>)
    decreases n,
{
    if n <= 0 {
        (name0, m0)
    } else {
        let (nm, m) = named_fold(attrs, n - 1, name0, m0);
        if attrs[n - 1].0 == "style:name"@ {
            (attrs[n - 1].1, m)
        } else {
            (nm, crate::attrmap::map_set(m, attrs[n - 1].0, attrs[n - 1].1))
        }
    }
}

/// The identity attributes of a style element, accumulated in order.
pub ghost struct StyleIdent {
    /// The style's name.
    pub name: Seq<char>,
    /// The table part it addresses.
    pub family: crate::style::Family,
    /// The parent style reference.
    pub parent: Option<Seq<char>>,
    /// The data-style reference.
    pub value_style: Option<Seq<char>>,
}

/// How a style element's own attributes shape its identity.
pub open spec fn style_ident_fold(
    attrs: Seq<(Seq<char>, Seq<char>)>,
    n: int,
    st0: StyleIdent,
) -> StyleIdent
    decreases n,
{
    if n <= 0 {
        st0
    } else {
        let st = style_ident_fold(attrs, n - 1, st0);
        let k = attrs[n - 1].0;
        let v = attrs[n - 1].1;
        if k == "style:name"@ {
            StyleIdent { name: v, ..st }
        } else if k == "style:family"@ {
            if v == "table"@ {
                StyleIdent { family: crate::style::Family::Table, ..st }
            } else if v == "table-column"@ {
                StyleIdent { family: crate::style::Family::TableColumn, ..st }
            } else if v == "table-row"@ {
                StyleIdent { family: crate::style::Family::TableRow, ..st }
            } else if v == "table-cell"@ {
                StyleIdent { family: crate::style::Family::TableCell, ..st }
            } else {
                st
            }
        } else if k == "style:parent-style-name"@ {
            StyleIdent { parent: Some(v), ..st }
        } else if k == "style:data-style-name"@ {
            StyleIdent { value_style: Some(v), ..st }
        } else {
            st
        }
    }
}

/// The typed value attribute the parser selects from an attribute list: the
/// plain value first, then the date, time and boolean forms.
pub open spec fn selected_value_attr(a: Seq<(Seq<char>, Seq<char>)>) -> Option<Seq<char>> {
    if map_get(a, "office:value"@) is Some {
        map_get(a, "office:value"@)
    } else if map_get(a, "office:date-value"@) is Some {
        map_get(a, "office:date-value"@)
    } else if map_get(a, "office:time-value"@) is Some {
        map_get(a, "office:time-value"@)
    } else {
        map_get(a, "office:boolean-value"@)
    }
}

/// Whether the value-type marker of an attribute list, if any, names a
/// known kind.
pub open spec fn cell_vt_ok(a: Seq<(Seq<char>, Seq<char>)>) -> bool {
    match map_get(a, "office:value-type"@) {
        Some(s) => crate::value::decode_type_spec(s) is Some,
        None => true,
    }
}

/// The value kind an attribute list declares, if any.
pub open spec fn cell_vt(a: Seq<(Seq<char>, Seq<char>)>) -> Option<ValueType> {
    match map_get(a, "office:value-type"@) {
        Some(s) => crate::value::decode_type_spec(s),
        None => None,
    }
}

/// Reads the repeat count named `key` from an attribute list.
pub fn read_repeat(attrs: &Vec<(String, String)>, key: &str) -> (r: Result<u32, OdsError>)
    ensures
        r is Ok <==> repeat_ok(attrs_view(attrs@), key@),
        r is Ok ==> (r->Ok_0) as nat == spec_repeat(attrs_view(attrs@), key@),
{
    match attr_get(attrs, key) {
        Some(s) => match crate::digits::parse_u32(s.as_str()) {
            Some(v) => if v > 0 {
                Ok(v)
            } else {
                Err(OdsError::ParseInt("repeat count of zero".to_owned()))
            },
            None => Err(OdsError::ParseInt("unreadable repeat count".to_owned())),
        },
        None => Ok(1),
    }
}

/// A copy of an attribute value.
fn attr_owned(attrs: &Vec<(String, String)>, key: &str) -> (r: Option<String>)
    ensures
        match r {
            Some(v) => map_get(attrs_view(attrs@), key@) == Some(v@),
            None => map_get(attrs_view(attrs@), key@) is None,
        },
{
    match attr_get(attrs, key) {
        Some(s) => Some(s.clone()),
        None => None,
    }
}

/// Applies a sheet's own attributes: its name and its style reference.
pub fn read_table(attrs: &Vec<(String, String)>, sheet: &mut Sheet)
    requires
        old(sheet).wf(),
    ensures
        final(sheet).wf(),
        final(sheet).columns == old(sheet).columns,
        final(sheet).rows == old(sheet).rows,
        final(sheet).data == old(sheet).data,
        match map_get(attrs_view(attrs@), "table:name"@) {
            Some(n) => final(sheet).name@ == n,
            None => final(sheet).name == old(sheet).name,
        },
        match map_get(attrs_view(attrs@), "table:style-name"@) {
            Some(st) => final(sheet).style matches Some(s2) && s2@ == st,
            None => final(sheet).style == old(sheet).style,
        },
{
    match attr_owned(attrs, "table:name") {
        Some(n) => sheet.set_name(n),
        None => {},
    }
    match attr_owned(attrs, "table:style-name") {
        Some(st) => sheet.set_style(st),
        None => {},
    }
}

/// Reads a row start: its repeat count and its style reference.
pub fn read_table_row(attrs: &Vec<(String, String)>) -> (r: Result<
    (u32, Option<String>),
    OdsError,
>)
    ensures
        r is Ok <==> repeat_ok(attrs_view(attrs@), "table:number-rows-repeated"@),
        r is Ok ==> (r->Ok_0).0 as nat == spec_repeat(
            attrs_view(attrs@),
            "table:number-rows-repeated"@,
        ),
        r is Ok ==> match map_get(attrs_view(attrs@), "table:style-name"@) {
            Some(st) => (r->Ok_0).1 matches Some(s2) && s2@ == st,
            None => (r->Ok_0).1 is None,
        },
{
    let repeat = read_repeat(attrs, "table:number-rows-repeated")?;
    let style = attr_owned(attrs, "table:style-name");
    Ok((repeat, style))
}

/// Reads a column declaration and materializes one entry per covered
/// column index, as column metadata always does.
pub fn read_table_column(attrs: &Vec<(String, String)>, tcol: u32, sheet: &mut Sheet) -> (r:
    Result<u32, OdsError>)
    requires
        old(sheet).wf(),
    ensures
        final(sheet).wf(),
        final(sheet).data == old(sheet).data,
        final(sheet).rows == old(sheet).rows,
        final(sheet).name == old(sheet).name,
        final(sheet).style == old(sheet).style,
        r is Ok <==> repeat_ok(attrs_view(attrs@), "table:number-columns-repeated"@) && tcol
            as nat + spec_repeat(attrs_view(attrs@), "table:number-columns-repeated"@)
            <= 0xFFFFFFFF,
        r is Err ==> final(sheet).columns == old(sheet).columns,
        r is Ok ==> ({
            let a = attrs_view(attrs@);
            let rep = spec_repeat(a, "table:number-columns-repeated"@);
            &&& r->Ok_0 as nat == tcol as nat + rep
            &&& forall|k: u64|
                tcol as nat <= k as nat && (k as nat) < tcol as nat + rep ==> ((#[trigger] crate::book::assoc_at(
                    final(sheet).columns@,
                    k,
                )) matches Some(sc) && sc@.style == map_get(a, "table:style-name"@)
                    && sc@.def_cell_style == map_get(a, "table:default-cell-style-name"@))
            &&& forall|k: u64|
                !(tcol as nat <= k as nat && (k as nat) < tcol as nat + rep) ==> #[trigger] crate::book::assoc_at(
                    final(sheet).columns@,
                    k,
                ) == crate::book::assoc_at(old(sheet).columns@, k)
        }),
{
    let ghost a = attrs_view(attrs@);
    let repeat = match read_repeat(attrs, "table:number-columns-repeated") {
        Ok(n) => n,
        Err(e) => {
            return Err(e);
        },
    };
    let style = attr_owned(attrs, "table:style-name");
    let def_cell_style = attr_owned(attrs, "table:default-cell-style-name");
    if tcol as u64 + repeat as u64 > 0xFFFFFFFFu64 {
        return Err(OdsError::Ods("column index out of range".to_owned()));
    }
    let mut c = tcol;
    let end = tcol + repeat;
    while c < end
        invariant
            sheet.wf(),
            tcol <= c <= end,
            sheet.data == old(sheet).data,
            sheet.rows == old(sheet).rows,
            sheet.name == old(sheet).name,
            sheet.style == old(sheet).style,
            a == attrs_view(attrs@),
            match style {
                Some(s) => map_get(a, "table:style-name"@) == Some(s@),
                None => map_get(a, "table:style-name"@) is None,
            },
            match def_cell_style {
                Some(s) => map_get(a, "table:default-cell-style-name"@) == Some(s@),
                None => map_get(a, "table:default-cell-style-name"@) is None,
            },
            forall|k: u64|
                tcol <= k < c ==> ((#[trigger] crate::book::assoc_at(sheet.columns@, k))
                    matches Some(sc) && sc@.style == map_get(a, "table:style-name"@)
                    && sc@.def_cell_style == map_get(a, "table:default-cell-style-name"@)),
            forall|k: u64|
                !(tcol <= k < c) ==> #[trigger] crate::book::assoc_at(sheet.columns@, k)
                    == crate::book::assoc_at(old(sheet).columns@, k),
        decreases end - c,
    {
        let column = SColumn {
            style: crate::book::copy_opt_string(&style),
            def_cell_style: crate::book::copy_opt_string(&def_cell_style),
        };
        sheet.set_column(c, column);
        c += 1;
    }
    Ok(end)
}

/// Reads an empty cell element: the cursor advances over the covered
/// columns, and entries materialize only when the cell carries a style or a
/// formula — a wholly blank repeated cell leaves the grid untouched.
pub fn read_empty_table_cell(
    attrs: &Vec<(String, String)>,
    row: u32,
    col: u32,
    sheet: &mut Sheet,
) -> (r: Result<u32, OdsError>)
    requires
        old(sheet).wf(),
    ensures
        final(sheet).wf(),
        final(sheet).rows == old(sheet).rows,
        final(sheet).columns == old(sheet).columns,
        final(sheet).name == old(sheet).name,
        final(sheet).style == old(sheet).style,
        r is Ok <==> repeat_ok(attrs_view(attrs@), "table:number-columns-repeated"@) && col
            as nat + spec_repeat(attrs_view(attrs@), "table:number-columns-repeated"@)
            <= 0xFFFFFFFF,
        r is Ok ==> r->Ok_0 as nat == col as nat + spec_repeat(
            attrs_view(attrs@),
            "table:number-columns-repeated"@,
        ),
        (map_get(attrs_view(attrs@), "table:style-name"@) is None && map_get(
            attrs_view(attrs@),
            "table:formula"@,
        ) is None) ==> final(sheet).data == old(sheet).data,
        r is Err ==> final(sheet).data == old(sheet).data,
        r is Ok && !(map_get(attrs_view(attrs@), "table:style-name"@) is None && map_get(
            attrs_view(attrs@),
            "table:formula"@,
        ) is None) ==> ({
            let a = attrs_view(attrs@);
            let rep = spec_repeat(a, "table:number-columns-repeated"@);
            let pos0 = crate::book::pos_key(row as nat, col as nat);
            &&& forall|k: u64|
                pos0 <= k as nat && (k as nat) < pos0 + rep ==> ((#[trigger] crate::book::assoc_at(
                    final(sheet).data@,
                    k,
                )) matches Some(cl) && cl@.value is None && cl@.style == map_get(
                    a,
                    "table:style-name"@,
                ) && cl@.formula == map_get(a, "table:formula"@))
            &&& forall|k: u64|
                !(pos0 <= k as nat && (k as nat) < pos0 + rep) ==> #[trigger] crate::book::assoc_at(
                    final(sheet).data@,
                    k,
                ) == crate::book::assoc_at(old(sheet).data@, k)
        }),
{
    let ghost a = attrs_view(attrs@);
    let repeat = match read_repeat(attrs, "table:number-columns-repeated") {
        Ok(n) => n,
        Err(e) => {
            return Err(e);
        },
    };
    if col as u64 + repeat as u64 > 0xFFFFFFFFu64 {
        return Err(OdsError::Ods("column index out of range".to_owned()));
    }
    let style = attr_owned(attrs, "table:style-name");
    let formula = attr_owned(attrs, "table:formula");
    let styled = match (&style, &formula) {
        (None, None) => false,
        _ => true,
    };
    let ghost pos0 = crate::book::pos_key(row as nat, col as nat);
    if styled {
        let mut c = col;
        let end = col + repeat;
        while c < end
            invariant
                sheet.wf(),
                col <= c <= end,
                end as nat <= 0x100000000,
                sheet.rows == old(sheet).rows,
                sheet.columns == old(sheet).columns,
                sheet.name == old(sheet).name,
                sheet.style == old(sheet).style,
                a == attrs_view(attrs@),
                pos0 == crate::book::pos_key(row as nat, col as nat),
                match style {
                    Some(s) => map_get(a, "table:style-name"@) == Some(s@),
                    None => map_get(a, "table:style-name"@) is None,
                },
                match formula {
                    Some(s) => map_get(a, "table:formula"@) == Some(s@),
                    None => map_get(a, "table:formula"@) is None,
                },
                forall|k: u64|
                    pos0 <= k as nat && (k as nat) < pos0 + (c - col) ==> ((#[trigger] crate::book::assoc_at(
                        sheet.data@,
                        k,
                    )) matches Some(cl) && cl@.value is None && cl@.style == map_get(
                        a,
                        "table:style-name"@,
                    ) && cl@.formula == map_get(a, "table:formula"@)),
                forall|k: u64|
                    !(pos0 <= k as nat && (k as nat) < pos0 + (c - col)) ==> #[trigger] crate::book::assoc_at(
                        sheet.data@,
                        k,
                    ) == crate::book::assoc_at(old(sheet).data@, k),
            decreases end - c,
        {
            let cell = SCell {
                value: None,
                style: crate::book::copy_opt_string(&style),
                formula: crate::book::copy_opt_string(&formula),
            };
            proof {
                assert(crate::book::pos_key(row as nat, c as nat) == pos0 + (c - col));
            }
            sheet.add_cell(row, c, cell);
            c += 1;
        }
    }
    Ok(col + repeat)
}

/// The models of an event sequence./// The models of an event sequence.
pub open spec fn events_view(s: Seq<XmlEvent>) -> Seq<crate::xml::XmlEventModel> {
    s.map_values(|e: XmlEvent| e@)
}

/// Where an open cell's payload ends: the first cell-end or end-of-input
/// marker at or after `from`, or one past the stream.
pub open spec fn cell_stop(ev: Seq<crate::xml::XmlEventModel>, from: int) -> int
    decreases ev.len() - from,
{
    if from < 0 || from >= ev.len() {
        ev.len() as int
    } else {
        match ev[from] {
            crate::xml::XmlEventModel::End(n) => if n == "table:table-cell"@ {
                from
            } else {
                cell_stop(ev, from + 1)
            },
            crate::xml::XmlEventModel::Eof => from,
            _ => cell_stop(ev, from + 1),
        }
    }
}

/// Whether the open cell closes properly before the input ends.
pub open spec fn cell_scan_ok(ev: Seq<crate::xml::XmlEventModel>, from: int) -> bool {
    let stop = cell_stop(ev, from);
    stop < ev.len() && (ev[stop] matches crate::xml::XmlEventModel::End(_))
}

/// The text runs between `from` and `upto`, joined in order; nothing when
/// no text occurs.
pub open spec fn cell_raw_text(
    ev: Seq<crate::xml::XmlEventModel>,
    from: int,
    upto: int,
) -> Option<Seq<char>>
    decreases upto - from,
{
    if upto <= from {
        None
    } else {
        let pre = cell_raw_text(ev, from, upto - 1);
        match ev[upto - 1] {
            crate::xml::XmlEventModel::Text(t) => match pre {
                Some(p) => Some(p + t),
                None => Some(t),
            },
            _ => pre,
        }
    }
}

/// The element text an open cell resolves to: the joined runs, trimmed at
/// both ends as a whole.
pub open spec fn cell_content_spec(ev: Seq<crate::xml::XmlEventModel>, from: int) -> Option<
    Seq<char>,
> {
    match cell_raw_text(ev, from, cell_stop(ev, from)) {
        Some(t) => Some(crate::digits::trim_back(crate::digits::trim_front(t))),
        None => None,
    }
}

/// The payload stops exactly where the first stopper stands.
proof fn lemma_cell_stop_at(ev: Seq<crate::xml::XmlEventModel>, from: int, m: int)
    requires
        0 <= from <= m <= ev.len(),
        forall|j: int|
            from <= j < m ==> !((#[trigger] ev[j]) matches crate::xml::XmlEventModel::Eof)
                && !(ev[j] matches crate::xml::XmlEventModel::End(n) && n
                == "table:table-cell"@),
        m == ev.len() || (ev[m] matches crate::xml::XmlEventModel::Eof) || (
        ev[m] matches crate::xml::XmlEventModel::End(n) && n == "table:table-cell"@),
    ensures
        cell_stop(ev, from) == m,
    decreases m - from,
{
    if from < m {
        lemma_cell_stop_at(ev, from + 1, m);
    }
}

/// Reads an occupied cell: its attributes, its text content up to the end
/// of the element, and the typed value the wire tuple resolves to, then
/// commits one entry per covered column.
///
/// Success is owed exactly when the repeat counter reads, the covered
/// columns stay addressable, the kind marker (if any) is known, the element
/// closes before the input ends, and the wire tuple resolves to a value.
pub fn read_table_cell(
    events: &Vec<XmlEvent>,
    start: usize,
    attrs: &Vec<(String, String)>,
    row: u32,
    col: u32,
    sheet: &mut Sheet,
) -> (r: Result<(usize, u32), OdsError>)
    requires
        old(sheet).wf(),
        start <= events@.len(),
    ensures
        final(sheet).wf(),
        final(sheet).rows == old(sheet).rows,
        final(sheet).columns == old(sheet).columns,
        final(sheet).name == old(sheet).name,
        final(sheet).style == old(sheet).style,
        r is Ok ==> start < (r->Ok_0).0 <= events@.len(),
        r is Err ==> final(sheet).data == old(sheet).data,
        r is Ok <==> ({
            let a = attrs_view(attrs@);
            let ev = events_view(events@);
            &&& repeat_ok(a, "table:number-columns-repeated"@)
            &&& col as nat + spec_repeat(a, "table:number-columns-repeated"@) <= 0xFFFFFFFF
            &&& cell_vt_ok(a)
            &&& cell_scan_ok(ev, start as int)
            &&& crate::value::parse_value_accepts(
                cell_vt(a),
                selected_value_attr(a),
                map_get(a, "office:currency"@),
            )
        }),
        r is Ok ==> ({
            let a = attrs_view(attrs@);
            let ev = events_view(events@);
            let rep = spec_repeat(a, "table:number-columns-repeated"@);
            let pos0 = crate::book::pos_key(row as nat, col as nat);
            let model = crate::value::parse_value_model(
                cell_vt(a),
                selected_value_attr(a),
                cell_content_spec(ev, start as int),
                map_get(a, "office:currency"@),
            );
            &&& (r->Ok_0).0 == cell_stop(ev, start as int) + 1
            &&& (r->Ok_0).1 as nat == col as nat + rep
            &&& forall|k: u64|
                pos0 <= k as nat && (k as nat) < pos0 + rep ==> ((
                #[trigger] crate::book::assoc_at(final(sheet).data@, k)) matches Some(cl) && (
                match cl@.value {
                    Some(v) => Some(v),
                    None => None,
                }) == model && cl@.style == map_get(a, "table:style-name"@) && cl@.formula
                    == map_get(a, "table:formula"@))
            &&& forall|k: u64|
                !(pos0 <= k as nat && (k as nat) < pos0 + rep) ==> #[trigger] crate::book::assoc_at(
                    final(sheet).data@,
                    k,
                ) == crate::book::assoc_at(old(sheet).data@, k)
        }),
{
    let ghost a = attrs_view(attrs@);
    let ghost ev = events_view(events@);
    let repeat = match read_repeat(attrs, "table:number-columns-repeated") {
        Ok(n) => n,
        Err(e) => {
            return Err(e);
        },
    };
    if col as u64 + repeat as u64 > 0xFFFFFFFFu64 {
        return Err(OdsError::Ods("column index out of range".to_owned()));
    }
    let style = attr_owned(attrs, "table:style-name");
    let formula = attr_owned(attrs, "table:formula");
    let value_type: Option<ValueType> = match attr_get(attrs, "office:value-type") {
        Some(s) => match crate::value::decode_value_type(s.as_str()) {
            Ok(vt) => Some(vt),
            Err(e) => {
                return Err(e);
            },
        },
        None => None,
    };
    proof {
        assert(value_type == cell_vt(a));
    }
    let mut cell_value: Option<String> = attr_owned(attrs, "office:value");
    if cell_value.is_none() {
        cell_value = attr_owned(attrs, "office:date-value");
    }
    if cell_value.is_none() {
        cell_value = attr_owned(attrs, "office:time-value");
    }
    if cell_value.is_none() {
        cell_value = attr_owned(attrs, "office:boolean-value");
    }
    proof {
        assert(crate::value::opt_chars(cell_value) == selected_value_attr(a));
    }
    let cell_currency: Option<String> = attr_owned(attrs, "office:currency");
    // Collect the element text up to the cell's end, trimmed at both ends
    // as a whole, so interior spacing survives.
    let (i, raw_content) = match collect_cell_text(events, start) {
        Ok(p) => p,
        Err(e) => {
            return Err(e);
        },
    };
    let content: Option<String> = match raw_content {
        Some(c) => Some(crate::digits::trim_both(c.as_str())),
        None => None,
    };
    proof {
        assert(crate::value::opt_chars(content) == cell_content_spec(ev, start as int));
    }
    let value = match parse_value(value_type, cell_value, content, cell_currency) {
        Ok(v) => v,
        Err(e) => {
            return Err(e);
        },
    };
    let ghost model = crate::value::opt_value_view(value);
    let ghost pos0 = crate::book::pos_key(row as nat, col as nat);
    let mut c = col;
    let end = col + repeat;
    while c < end
        invariant
            sheet.wf(),
            col <= c <= end,
            end as nat <= 0x100000000,
            sheet.rows == old(sheet).rows,
            sheet.columns == old(sheet).columns,
            sheet.name == old(sheet).name,
            sheet.style == old(sheet).style,
            a == attrs_view(attrs@),
            pos0 == crate::book::pos_key(row as nat, col as nat),
            match &value {
                Some(v) => v.wf(),
                None => true,
            },
            crate::value::opt_value_view(value) == model,
            match style {
                Some(s) => map_get(a, "table:style-name"@) == Some(s@),
                None => map_get(a, "table:style-name"@) is None,
            },
            match formula {
                Some(s) => map_get(a, "table:formula"@) == Some(s@),
                None => map_get(a, "table:formula"@) is None,
            },
            forall|k: u64|
                pos0 <= k as nat && (k as nat) < pos0 + (c - col) ==> ((
                #[trigger] crate::book::assoc_at(sheet.data@, k)) matches Some(cl) && (
                match cl@.value {
                    Some(v) => Some(v),
                    None => None,
                }) == model && cl@.style == map_get(a, "table:style-name"@) && cl@.formula
                    == map_get(a, "table:formula"@)),
            forall|k: u64|
                !(pos0 <= k as nat && (k as nat) < pos0 + (c - col)) ==> #[trigger] crate::book::assoc_at(
                    sheet.data@,
                    k,
                ) == crate::book::assoc_at(old(sheet).data@, k),
        decreases end - c,
    {
        let cell = SCell {
            value: copy_opt_value(&value),
            style: crate::book::copy_opt_string(&style),
            formula: crate::book::copy_opt_string(&formula),
        };
        proof {
            assert(crate::book::pos_key(row as nat, c as nat) == pos0 + (c - col));
        }
        sheet.add_cell(row, c, cell);
        c += 1;
    }
    Ok((i, end))
}

/// Reads the font declarations/// Where a delimited region ends: the first end element named `end_name`
/// or end-of-input marker at or after `from`, or one past the stream.
pub open spec fn region_stop(
    ev: Seq<crate::xml::XmlEventModel>,
    from: int,
    end_name: Seq<char>,
) -> int
    decreases ev.len() - from,
{
    if from < 0 || from >= ev.len() {
        ev.len() as int
    } else {
        match ev[from] {
            crate::xml::XmlEventModel::End(n) => if n == end_name {
                from
            } else {
                region_stop(ev, from + 1, end_name)
            },
            crate::xml::XmlEventModel::Eof => from,
            _ => region_stop(ev, from + 1, end_name),
        }
    }
}

/// The cursor a region reader hands back: one past its end element, or the
/// stop itself when the input ran out first.
pub open spec fn region_next(
    ev: Seq<crate::xml::XmlEventModel>,
    from: int,
    end_name: Seq<char>,
) -> int {
    let stop = region_stop(ev, from, end_name);
    if stop < ev.len() && (ev[stop] matches crate::xml::XmlEventModel::End(_)) {
        stop + 1
    } else {
        stop
    }
}

/// A region stops exactly where its first stopper stands.
proof fn lemma_region_stop_at(
    ev: Seq<crate::xml::XmlEventModel>,
    from: int,
    m: int,
    end_name: Seq<char>,
)
    requires
        0 <= from <= m <= ev.len(),
        forall|j: int|
            from <= j < m ==> !((#[trigger] ev[j]) matches crate::xml::XmlEventModel::Eof) && !(
            ev[j] matches crate::xml::XmlEventModel::End(n) && n == end_name),
        m == ev.len() || (ev[m] matches crate::xml::XmlEventModel::Eof) || (
        ev[m] matches crate::xml::XmlEventModel::End(n) && n == end_name),
    ensures
        region_stop(ev, from, end_name) == m,
    decreases m - from,
{
    if from < m {
        lemma_region_stop_at(ev, from + 1, m, end_name);
    }
}

/// The font declarations a region's events carry, in order: one name and
/// attribute bag per font-face element.
pub open spec fn fonts_scan(
    ev: Seq<crate::xml::XmlEventModel>,
    from: int,
    upto: int,
) -> Seq<(Seq<char>, Seq<(Seq<char>, Seq<char>)>)>
    decreases upto - from,
{
    if upto <= from {
        Seq::empty()
    } else {
        let pre = fonts_scan(ev, from, upto - 1);
        match ev[upto - 1] {
            crate::xml::XmlEventModel::Start(n, a) => if n == "style:font-face"@ {
                pre.push(named_fold(a, a.len() as int, ""@, Seq::empty()))
            } else {
                pre
            },
            crate::xml::XmlEventModel::Empty(n, a) => if n == "style:font-face"@ {
                pre.push(named_fold(a, a.len() as int, ""@, Seq::empty()))
            } else {
                pre
            },
            _ => pre,
        }
    }
}

/// Reads the font declarations up to the end of their region: one content
/// declaration per font-face element, name and attributes in order.
pub fn read_fonts(events: &Vec<XmlEvent>, from: usize, book: &mut WorkBook) -> (r: Result<
    usize,
    OdsError,
>)
    requires
        from <= events@.len(),
        old(book).wf(),
    ensures
        final(book).wf(),
        final(book).sheets == old(book).sheets,
        final(book).styles == old(book).styles,
        final(book).formats == old(book).formats,
        final(book).defs == old(book).defs,
        final(book).file == old(book).file,
        r is Ok,
        r is Ok ==> r->Ok_0 == region_next(
            events_view(events@),
            from as int,
            "office:font-face-decls"@,
        ) && from <= r->Ok_0 <= events@.len(),
        ({
            let scan = fonts_scan(
                events_view(events@),
                from as int,
                region_stop(events_view(events@), from as int, "office:font-face-decls"@),
            );
            &&& final(book).fonts@.len() == old(book).fonts@.len() + scan.len()
            &&& (forall|j: int|
                0 <= j < old(book).fonts@.len() ==> #[trigger] final(book).fonts@[j] == old(
                    book,
                ).fonts@[j])
            &&& (forall|j: int|
                0 <= j < scan.len() ==> ((#[trigger] final(book).fonts@[old(book).fonts@.len()
                    + j]).name@ == scan[j].0 && final(book).fonts@[old(book).fonts@.len()
                    + j].prp_view() == scan[j].1 && final(book).fonts@[old(book).fonts@.len()
                    + j].origin == Origin::Content))
        }),
{
    let ghost ev = events_view(events@);
    let mut i = from;
    while i < events.len()
        invariant
            from <= i <= events@.len(),
            ev == events_view(events@),
            book.wf(),
            book.sheets == old(book).sheets,
            book.styles == old(book).styles,
            book.formats == old(book).formats,
            book.defs == old(book).defs,
            book.file == old(book).file,
            forall|j: int|
                from <= j < i ==> !((#[trigger] ev[j]) matches crate::xml::XmlEventModel::Eof)
                    && !(ev[j] matches crate::xml::XmlEventModel::End(n) && n
                    == "office:font-face-decls"@),
            ({
                let scan = fonts_scan(ev, from as int, i as int);
                &&& book.fonts@.len() == old(book).fonts@.len() + scan.len()
                &&& (forall|j: int|
                    0 <= j < old(book).fonts@.len() ==> #[trigger] book.fonts@[j] == old(
                        book,
                    ).fonts@[j])
                &&& (forall|j: int|
                    0 <= j < scan.len() ==> ((#[trigger] book.fonts@[old(book).fonts@.len()
                        + j]).name@ == scan[j].0 && book.fonts@[old(book).fonts@.len()
                        + j].prp_view() == scan[j].1 && book.fonts@[old(book).fonts@.len()
                        + j].origin == Origin::Content))
            }),
        decreases events@.len() - i,
    {
        proof {
            assert(ev[i as int] == events@[i as int]@);
        }
        match &events[i] {
            XmlEvent::Start(n, attrs) | XmlEvent::Empty(n, attrs) => {
                if str_eq(n.as_str(), "style:font-face") {
                    let mut font = FontDecl::new_origin(Origin::Content);
                    proof {
                        reveal_strlit("");
                        assert(font.name@ =~= ""@);
                        assert(font.prp_view() =~= Seq::<(Seq<char>, Seq<char>)>::empty());
                        assert((font.name@, font.prp_view()) == named_fold(
                            attrs_view(attrs@),
                            0,
                            ""@,
                            Seq::<(Seq<char>, Seq<char>)>::empty(),
                        ));
                    }
                    let mut j: usize = 0;
                    while j < attrs.len()
                        invariant
                            j <= attrs@.len(),
                            font.wf(),
                            font.origin == Origin::Content,
                            (font.name@, font.prp_view()) == named_fold(
                                attrs_view(attrs@),
                                j as int,
                                ""@,
                                Seq::<(Seq<char>, Seq<char>)>::empty(),
                            ),
                        decreases attrs@.len() - j,
                    {
                        proof {
                            assert(attrs_view(attrs@)[j as int] == (
                                attrs@[j as int].0@,
                                attrs@[j as int].1@,
                            ));
                        }
                        if str_eq(attrs[j].0.as_str(), "style:name") {
                            font.set_name(attrs[j].1.clone());
                        } else {
                            font.set_prp(attrs[j].0.clone(), attrs[j].1.clone());
                        }
                        j += 1;
                    }
                    book.add_font(font);
                    proof {
                        assert(fonts_scan(ev, from as int, i + 1) == fonts_scan(
                            ev,
                            from as int,
                            i as int,
                        ).push(named_fold(
                            attrs_view(attrs@),
                            attrs@.len() as int,
                            ""@,
                            Seq::<(Seq<char>, Seq<char>)>::empty(),
                        )));
                    }
                } else {
                    proof {
                        assert(fonts_scan(ev, from as int, i + 1) == fonts_scan(
                            ev,
                            from as int,
                            i as int,
                        ));
                    }
                }
            },
            XmlEvent::End(n) => {
                if str_eq(n.as_str(), "office:font-face-decls") {
                    proof {
                        lemma_region_stop_at(ev, from as int, i as int, "office:font-face-decls"@);
                    }
                    return Ok(i + 1);
                }
                proof {
                    assert(fonts_scan(ev, from as int, i + 1) == fonts_scan(
                        ev,
                        from as int,
                        i as int,
                    ));
                }
            },
            XmlEvent::Eof => {
                proof {
                    lemma_region_stop_at(ev, from as int, i as int, "office:font-face-decls"@);
                }
                return Ok(i);
            },
            _ => {
                proof {
                    assert(fonts_scan(ev, from as int, i + 1) == fonts_scan(
                        ev,
                        from as int,
                        i as int,
                    ));
                }
            },
        }
        i += 1;
    }
    proof {
        lemma_region_stop_at(ev, from as int, events@.len() as int, "office:font-face-decls"@);
    }
    Ok(i)
}

/// Applies a style element's own attributes/// Applies a style element's own attributes, in order: the name, the
/// family keyword, and the parent and data-style references.
pub fn read_style(attrs: &Vec<(String, String)>, style: &mut Style)
    requires
        old(style).wf(),
    ensures
        final(style).wf(),
        ({
            let ident = style_ident_fold(
                attrs_view(attrs@),
                attrs@.len() as int,
                StyleIdent {
                    name: old(style).name@,
                    family: old(style).family,
                    parent: crate::value::opt_chars(old(style).parent),
                    value_style: crate::value::opt_chars(old(style).value_style),
                },
            );
            &&& final(style).name@ == ident.name
            &&& final(style).family == ident.family
            &&& crate::value::opt_chars(final(style).parent) == ident.parent
            &&& crate::value::opt_chars(final(style).value_style) == ident.value_style
        }),
        final(style).origin == old(style).origin,
        final(style).display_name == old(style).display_name,
        final(style).table_prp == old(style).table_prp,
        final(style).table_col_prp == old(style).table_col_prp,
        final(style).table_row_prp == old(style).table_row_prp,
        final(style).table_cell_prp == old(style).table_cell_prp,
        final(style).paragraph_prp == old(style).paragraph_prp,
        final(style).text_prp == old(style).text_prp,
{
    let ghost st0 = StyleIdent {
        name: old(style).name@,
        family: old(style).family,
        parent: crate::value::opt_chars(old(style).parent),
        value_style: crate::value::opt_chars(old(style).value_style),
    };
    let ghost av = attrs_view(attrs@);
    let mut j: usize = 0;
    while j < attrs.len()
        invariant
            style.wf(),
            j <= attrs@.len(),
            av == attrs_view(attrs@),
            ({
                let ident = style_ident_fold(av, j as int, st0);
                &&& style.name@ == ident.name
                &&& style.family == ident.family
                &&& crate::value::opt_chars(style.parent) == ident.parent
                &&& crate::value::opt_chars(style.value_style) == ident.value_style
            }),
            style.origin == old(style).origin,
            style.display_name == old(style).display_name,
            style.table_prp == old(style).table_prp,
            style.table_col_prp == old(style).table_col_prp,
            style.table_row_prp == old(style).table_row_prp,
            style.table_cell_prp == old(style).table_cell_prp,
            style.paragraph_prp == old(style).paragraph_prp,
            style.text_prp == old(style).text_prp,
        decreases attrs@.len() - j,
    {
        let k = &attrs[j].0;
        let v = &attrs[j].1;
        proof {
            assert(av[j as int] == (attrs@[j as int].0@, attrs@[j as int].1@));
        }
        if str_eq(k.as_str(), "style:name") {
            style.set_name(v.clone());
        } else if str_eq(k.as_str(), "style:family") {
            if str_eq(v.as_str(), "table") {
                style.family = crate::style::Family::Table;
            } else if str_eq(v.as_str(), "table-column") {
                style.family = crate::style::Family::TableColumn;
            } else if str_eq(v.as_str(), "table-row") {
                style.family = crate::style::Family::TableRow;
            } else if str_eq(v.as_str(), "table-cell") {
                style.family = crate::style::Family::TableCell;
            }
        } else if str_eq(k.as_str(), "style:parent-style-name") {
            style.parent = Some(v.clone());
        } else if str_eq(k.as_str(), "style:data-style-name") {
            style.value_style = Some(v.clone());
        }
        j += 1;
    }
}

/// Applies a value-format element's own attributes and its value kind: the
/// name attribute names the format, every other attribute lands in its bag.
pub fn read_value_style(
    vt: ValueType,
    value_style: &mut ValueFormat,
    attrs: &Vec<(String, String)>,
)
    requires
        old(value_style).wf(),
    ensures
        final(value_style).wf(),
        final(value_style).v_type == vt,
        (final(value_style).name@, crate::style::opt_map_view(final(value_style).prp))
            == named_fold(
            attrs_view(attrs@),
            attrs@.len() as int,
            old(value_style).name@,
            crate::style::opt_map_view(old(value_style).prp),
        ),
        final(value_style).parts == old(value_style).parts,
        final(value_style).truncate_on_overflow == old(value_style).truncate_on_overflow,
        final(value_style).origin == old(value_style).origin,
        final(value_style).locale == old(value_style).locale,
{
    value_style.v_type = vt;
    let ghost name0 = old(value_style).name@;
    let ghost m0 = crate::style::opt_map_view(old(value_style).prp);
    let ghost av = attrs_view(attrs@);
    let mut j: usize = 0;
    while j < attrs.len()
        invariant
            value_style.wf(),
            value_style.v_type == vt,
            j <= attrs@.len(),
            av == attrs_view(attrs@),
            (value_style.name@, crate::style::opt_map_view(value_style.prp)) == named_fold(
                av,
                j as int,
                name0,
                m0,
            ),
            value_style.parts == old(value_style).parts,
            value_style.truncate_on_overflow == old(value_style).truncate_on_overflow,
            value_style.origin == old(value_style).origin,
            value_style.locale == old(value_style).locale,
        decreases attrs@.len() - j,
    {
        proof {
            assert(av[j as int] == (attrs@[j as int].0@, attrs@[j as int].1@));
        }
        if str_eq(attrs[j].0.as_str(), "style:name") {
            value_style.set_name(attrs[j].1.clone());
        } else {
            value_style.set_prp(attrs[j].0.clone(), attrs[j].1.clone());
        }
        j += 1;
    }
}

/// Builds a format part of the given kind, binding every element attribute
/// into its bag in order.
pub fn read_part(attrs: &Vec<(String, String)>, ftype: FormatType) -> (r: FormatPart)
    ensures
        r.prp.wf(),
        r@.ftype == ftype,
        r@.content is None,
        r@.prp == attrs_fold(attrs_view(attrs@), attrs@.len() as int),
{
    let mut part = FormatPart::new(ftype);
    let ghost av = attrs_view(attrs@);
    proof {
        assert(part@.prp =~= attrs_fold(av, 0));
    }
    let mut j: usize = 0;
    while j < attrs.len()
        invariant
            part.prp.wf(),
            part@.ftype == ftype,
            part@.content is None,
            j <= attrs@.len(),
            av == attrs_view(attrs@),
            part@.prp == attrs_fold(av, j as int),
        decreases attrs@.len() - j,
    {
        proof {
            assert(av[j as int] == (attrs@[j as int].0@, attrs@[j as int].1@));
        }
        part.set_prp(attrs[j].0.clone(), attrs[j].1.clone());
        j += 1;
    }
    part
}

/// Copies an element's attributes, in order, into the style's property bag
/// chosen by `which`; every other field stays untouched.
fn copy_style_properties(style: &mut Style, which: u8, attrs: &Vec<(String, String)>)
    requires
        old(style).wf(),
        which < 6,
    ensures
        final(style).wf(),
        which == 0 ==> crate::style::opt_map_view(final(style).table_prp) == fold_onto(
            attrs_view(attrs@),
            attrs@.len() as int,
            crate::style::opt_map_view(old(style).table_prp),
        ) && untouched_but_table(*old(style), *final(style)),
        which == 1 ==> crate::style::opt_map_view(final(style).table_col_prp) == fold_onto(
            attrs_view(attrs@),
            attrs@.len() as int,
            crate::style::opt_map_view(old(style).table_col_prp),
        ) && untouched_but_col(*old(style), *final(style)),
        which == 2 ==> crate::style::opt_map_view(final(style).table_row_prp) == fold_onto(
            attrs_view(attrs@),
            attrs@.len() as int,
            crate::style::opt_map_view(old(style).table_row_prp),
        ) && untouched_but_row(*old(style), *final(style)),
        which == 3 ==> crate::style::opt_map_view(final(style).table_cell_prp) == fold_onto(
            attrs_view(attrs@),
            attrs@.len() as int,
            crate::style::opt_map_view(old(style).table_cell_prp),
        ) && untouched_but_cell(*old(style), *final(style)),
        which == 4 ==> crate::style::opt_map_view(final(style).paragraph_prp) == fold_onto(
            attrs_view(attrs@),
            attrs@.len() as int,
            crate::style::opt_map_view(old(style).paragraph_prp),
        ) && untouched_but_para(*old(style), *final(style)),
        which == 5 ==> crate::style::opt_map_view(final(style).text_prp) == fold_onto(
            attrs_view(attrs@),
            attrs@.len() as int,
            crate::style::opt_map_view(old(style).text_prp),
        ) && untouched_but_text(*old(style), *final(style)),
{
    let ghost av = attrs_view(attrs@);
    let mut j: usize = 0;
    while j < attrs.len()
        invariant
            style.wf(),
            which < 6,
            j <= attrs@.len(),
            av == attrs_view(attrs@),
            which == 0 ==> crate::style::opt_map_view(style.table_prp) == fold_onto(
                av,
                j as int,
                crate::style::opt_map_view(old(style).table_prp),
            ) && untouched_but_table(*old(style), *style),
            which == 1 ==> crate::style::opt_map_view(style.table_col_prp) == fold_onto(
                av,
                j as int,
                crate::style::opt_map_view(old(style).table_col_prp),
            ) && untouched_but_col(*old(style), *style),
            which == 2 ==> crate::style::opt_map_view(style.table_row_prp) == fold_onto(
                av,
                j as int,
                crate::style::opt_map_view(old(style).table_row_prp),
            ) && untouched_but_row(*old(style), *style),
            which == 3 ==> crate::style::opt_map_view(style.table_cell_prp) == fold_onto(
                av,
                j as int,
                crate::style::opt_map_view(old(style).table_cell_prp),
            ) && untouched_but_cell(*old(style), *style),
            which == 4 ==> crate::style::opt_map_view(style.paragraph_prp) == fold_onto(
                av,
                j as int,
                crate::style::opt_map_view(old(style).paragraph_prp),
            ) && untouched_but_para(*old(style), *style),
            which == 5 ==> crate::style::opt_map_view(style.text_prp) == fold_onto(
                av,
                j as int,
                crate::style::opt_map_view(old(style).text_prp),
            ) && untouched_but_text(*old(style), *style),
        decreases attrs@.len() - j,
    {
        proof {
            assert(av[j as int] == (attrs@[j as int].0@, attrs@[j as int].1@));
        }
        let k = attrs[j].0.clone();
        let v = attrs[j].1.clone();
        if which == 0 {
            style.set_table_prp(k, v);
        } else if which == 1 {
            style.set_table_col_prp(k, v);
        } else if which == 2 {
            style.set_table_row_prp(k, v);
        } else if which == 3 {
            style.set_table_cell_prp(k, v);
        } else if which == 4 {
            style.set_paragraph_prp(k, v);
        } else {
            style.set_text_prp(k, v);
        }
        j += 1;
    }
}

/// A bag extended by binding the first `n` attributes onto a start value.
pub open spec fn fold_onto(
    attrs: Seq<(Seq<char>, Seq<char>)>,
    n: int,
    m0: Seq<(Seq<char>, Seq<char>)>,
) -> Seq<(Seq<char>, Seq<char>)>
    decreases n,
{
    if n <= 0 {
        m0
    } else {
        crate::attrmap::map_set(fold_onto(attrs, n - 1, m0), attrs[n - 1].0, attrs[n - 1].1)
    }
}

/// Everything of a style except its table bag is unchanged.
pub open spec fn untouched_but_table(a: Style, b: Style) -> bool {
    b == (Style { table_prp: b.table_prp, ..a })
}

/// Everything of a style except its column bag is unchanged.
pub open spec fn untouched_but_col(a: Style, b: Style) -> bool {
    b == (Style { table_col_prp: b.table_col_prp, ..a })
}

/// Everything of a style except its row bag is unchanged.
pub open spec fn untouched_but_row(a: Style, b: Style) -> bool {
    b == (Style { table_row_prp: b.table_row_prp, ..a })
}

/// Everything of a style except its cell bag is unchanged.
pub open spec fn untouched_but_cell(a: Style, b: Style) -> bool {
    b == (Style { table_cell_prp: b.table_cell_prp, ..a })
}

/// Everything of a style except its paragraph bag is unchanged.
pub open spec fn untouched_but_para(a: Style, b: Style) -> bool {
    b == (Style { paragraph_prp: b.paragraph_prp, ..a })
}

/// Everything of a style except its text bag is unchanged.
pub open spec fn untouched_but_text(a: Style, b: Style) -> bool {
    b == (Style { text_prp: b.text_prp, ..a })
}

/// The scan image of a cosmetic style under construction.
pub ghost struct StyleScanModel {
    /// The identity attributes.
    pub ident: StyleIdent,
    /// The table properties.
    pub table_prp: Seq<(Seq<char>, Seq<char>)>,
    /// The table-column properties.
    pub table_col_prp: Seq<(Seq<char>, Seq<char>)>,
    /// The table-row properties.
    pub table_row_prp: Seq<(Seq<char>, Seq<char>)>,
    /// The table-cell properties.
    pub table_cell_prp: Seq<(Seq<char>, Seq<char>)>,
    /// The paragraph properties.
    pub paragraph_prp: Seq<(Seq<char>, Seq<char>)>,
    /// The text properties.
    pub text_prp: Seq<(Seq<char>, Seq<char>)>,
}

/// The scan image of a value format under construction.
pub ghost struct FormatScanModel {
    /// The format's name.
    pub name: Seq<char>,
    /// The value kind it renders.
    pub v_type: ValueType,
    /// The format element's own attributes.
    pub prp: Seq<(Seq<char>, Seq<char>)>,
    /// The parts, in document order.
    pub parts: Seq<crate::format::FormatPartModel>,
}

/// A style's scan image.
pub open spec fn style_scan_of(s: Style) -> StyleScanModel {
    StyleScanModel {
        ident: StyleIdent {
            name: s.name@,
            family: s.family,
            parent: crate::value::opt_chars(s.parent),
            value_style: crate::value::opt_chars(s.value_style),
        },
        table_prp: crate::style::opt_map_view(s.table_prp),
        table_col_prp: crate::style::opt_map_view(s.table_col_prp),
        table_row_prp: crate::style::opt_map_view(s.table_row_prp),
        table_cell_prp: crate::style::opt_map_view(s.table_cell_prp),
        paragraph_prp: crate::style::opt_map_view(s.paragraph_prp),
        text_prp: crate::style::opt_map_view(s.text_prp),
    }
}

/// A value format's scan image.
pub open spec fn format_scan_of(f: ValueFormat) -> FormatScanModel {
    FormatScanModel {
        name: f.name@,
        v_type: f.v_type,
        prp: crate::style::opt_map_view(f.prp),
        parts: f.parts_view(),
    }
}

/// The image of a freshly begun style.
pub open spec fn fresh_style_model() -> StyleScanModel {
    StyleScanModel {
        ident: StyleIdent {
            name: Seq::empty(),
            family: crate::style::Family::Unassigned,
            parent: None,
            value_style: None,
        },
        table_prp: Seq::empty(),
        table_col_prp: Seq::empty(),
        table_row_prp: Seq::empty(),
        table_cell_prp: Seq::empty(),
        paragraph_prp: Seq::empty(),
        text_prp: Seq::empty(),
    }
}

/// The image of a freshly begun format.
pub open spec fn fresh_format_model() -> FormatScanModel {
    FormatScanModel {
        name: Seq::empty(),
        v_type: ValueType::Text,
        prp: Seq::empty(),
        parts: Seq::empty(),
    }
}

/// The style reader's state: the two builders, the pending literal part,
/// and what was committed.
pub ghost struct StylesScan {
    /// The cosmetic style being built.
    pub style: StyleScanModel,
    /// The value format being built.
    pub fmt: FormatScanModel,
    /// A literal part awaiting its element text.
    pub pending: Option<crate::format::FormatPartModel>,
    /// The styles committed so far.
    pub styles: Seq<StyleScanModel>,
    /// The formats committed so far.
    pub formats: Seq<FormatScanModel>,
}

/// The style reader before any event.
pub open spec fn styles_scan_init() -> StylesScan {
    StylesScan {
        style: fresh_style_model(),
        fmt: fresh_format_model(),
        pending: None,
        styles: Seq::empty(),
        formats: Seq::empty(),
    }
}

/// A fresh part's scan image: its kind and every element attribute in order.
pub open spec fn part_model_of(a: Seq<(Seq<char>, Seq<char>)>, ft: FormatType) -> crate::format::FormatPartModel {
    crate::format::FormatPartModel { ftype: ft, prp: attrs_fold(a, a.len() as int), content: None }
}

/// A format with one more part.
pub open spec fn fmt_push(f: FormatScanModel, p: crate::format::FormatPartModel) -> FormatScanModel {
    FormatScanModel { parts: f.parts.push(p), ..f }
}

/// A number style element applied to the format builder.
pub open spec fn fmt_head(f: FormatScanModel, vt: ValueType, a: Seq<(Seq<char>, Seq<char>)>) -> FormatScanModel {
    let (name, prp) = named_fold(a, a.len() as int, f.name, f.prp);
    FormatScanModel { name, v_type: vt, prp, ..f }
}

/// One event of the style reader.
pub open spec fn styles_scan_step(st: StylesScan, ev: crate::xml::XmlEventModel) -> StylesScan {
    match ev {
        crate::xml::XmlEventModel::Start(n, a) => {
            if n == "style:style"@ {
                StylesScan { style: StyleScanModel { ident: style_ident_fold(a, a.len() as int, st.style.ident), ..st.style }, ..st }
            } else if n == "style:table-properties"@ {
                StylesScan { style: StyleScanModel { table_prp: fold_onto(a, a.len() as int, st.style.table_prp), ..st.style }, ..st }
            } else if n == "style:table-column-properties"@ {
                StylesScan { style: StyleScanModel { table_col_prp: fold_onto(a, a.len() as int, st.style.table_col_prp), ..st.style }, ..st }
            } else if n == "style:table-row-properties"@ {
                StylesScan { style: StyleScanModel { table_row_prp: fold_onto(a, a.len() as int, st.style.table_row_prp), ..st.style }, ..st }
            } else if n == "style:table-cell-properties"@ {
                StylesScan { style: StyleScanModel { table_cell_prp: fold_onto(a, a.len() as int, st.style.table_cell_prp), ..st.style }, ..st }
            } else if n == "style:paragraph-properties"@ {
                StylesScan { style: StyleScanModel { paragraph_prp: fold_onto(a, a.len() as int, st.style.paragraph_prp), ..st.style }, ..st }
            } else if n == "style:text-properties"@ {
                StylesScan { style: StyleScanModel { text_prp: fold_onto(a, a.len() as int, st.style.text_prp), ..st.style }, ..st }
            } else if n == "number:boolean-style"@ {
                StylesScan { fmt: fmt_head(st.fmt, ValueType::Boolean, a), ..st }
            } else if n == "number:date-style"@ {
                StylesScan { fmt: fmt_head(st.fmt, ValueType::DateTime, a), ..st }
            } else if n == "number:time-style"@ {
                StylesScan { fmt: fmt_head(st.fmt, ValueType::TimeDuration, a), ..st }
            } else if n == "number:number-style"@ {
                StylesScan { fmt: fmt_head(st.fmt, ValueType::Number, a), ..st }
            } else if n == "number:currency-style"@ {
                StylesScan { fmt: fmt_head(st.fmt, ValueType::Currency, a), ..st }
            } else if n == "number:percentage-style"@ {
                StylesScan { fmt: fmt_head(st.fmt, ValueType::Percentage, a), ..st }
            } else if n == "number:text-style"@ {
                StylesScan { fmt: fmt_head(st.fmt, ValueType::Text, a), ..st }
            } else if n == "number:boolean"@ {
                StylesScan { fmt: fmt_push(st.fmt, part_model_of(a, FormatType::Boolean)), ..st }
            } else if n == "number:number"@ {
                StylesScan { fmt: fmt_push(st.fmt, part_model_of(a, FormatType::Number)), ..st }
            } else if n == "number:scientific-number"@ {
                StylesScan { fmt: fmt_push(st.fmt, part_model_of(a, FormatType::Scientific)), ..st }
            } else if n == "number:day"@ {
                StylesScan { fmt: fmt_push(st.fmt, part_model_of(a, FormatType::Day)), ..st }
            } else if n == "number:month"@ {
                StylesScan { fmt: fmt_push(st.fmt, part_model_of(a, FormatType::Month)), ..st }
            } else if n == "number:year"@ {
                StylesScan { fmt: fmt_push(st.fmt, part_model_of(a, FormatType::Year)), ..st }
            } else if n == "number:era"@ {
                StylesScan { fmt: fmt_push(st.fmt, part_model_of(a, FormatType::Era)), ..st }
            } else if n == "number:day-of-week"@ {
                StylesScan { fmt: fmt_push(st.fmt, part_model_of(a, FormatType::DayOfWeek)), ..st }
            } else if n == "number:week-of-year"@ {
                StylesScan { fmt: fmt_push(st.fmt, part_model_of(a, FormatType::WeekOfYear)), ..st }
            } else if n == "number:quarter"@ {
                StylesScan { fmt: fmt_push(st.fmt, part_model_of(a, FormatType::Quarter)), ..st }
            } else if n == "number:hours"@ {
                StylesScan { fmt: fmt_push(st.fmt, part_model_of(a, FormatType::Hours)), ..st }
            } else if n == "number:minutes"@ {
                StylesScan { fmt: fmt_push(st.fmt, part_model_of(a, FormatType::Minutes)), ..st }
            } else if n == "number:seconds"@ {
                StylesScan { fmt: fmt_push(st.fmt, part_model_of(a, FormatType::Seconds)), ..st }
            } else if n == "number:fraction"@ {
                StylesScan { fmt: fmt_push(st.fmt, part_model_of(a, FormatType::Fraction)), ..st }
            } else if n == "number:am-pm"@ {
                StylesScan { fmt: fmt_push(st.fmt, part_model_of(a, FormatType::AmPm)), ..st }
            } else if n == "number:embedded-text"@ {
                StylesScan { fmt: fmt_push(st.fmt, part_model_of(a, FormatType::EmbeddedText)), ..st }
            } else if n == "number:text-content"@ {
                StylesScan { fmt: fmt_push(st.fmt, part_model_of(a, FormatType::TextContent)), ..st }
            } else if n == "style:text"@ {
                StylesScan { fmt: fmt_push(st.fmt, part_model_of(a, FormatType::StyleText)), ..st }
            } else if n == "style:map"@ {
                StylesScan { fmt: fmt_push(st.fmt, part_model_of(a, FormatType::StyleMap)), ..st }
            } else if n == "number:currency-symbol"@ {
                StylesScan { pending: Some(part_model_of(a, FormatType::CurrencySymbol)), ..st }
            } else if n == "number:text"@ {
                StylesScan { pending: Some(part_model_of(a, FormatType::Text)), ..st }
            } else {
                st
            }
        },
        crate::xml::XmlEventModel::Empty(n, a) => {
            if n == "style:style"@ {
                StylesScan {
                    style: fresh_style_model(),
                    styles: st.styles.push(StyleScanModel { ident: style_ident_fold(a, a.len() as int, st.style.ident), ..st.style }),
                    ..st
                }
            } else if n == "style:table-properties"@ {
                StylesScan { style: StyleScanModel { table_prp: fold_onto(a, a.len() as int, st.style.table_prp), ..st.style }, ..st }
            } else if n == "style:table-column-properties"@ {
                StylesScan { style: StyleScanModel { table_col_prp: fold_onto(a, a.len() as int, st.style.table_col_prp), ..st.style }, ..st }
            } else if n == "style:table-row-properties"@ {
                StylesScan { style: StyleScanModel { table_row_prp: fold_onto(a, a.len() as int, st.style.table_row_prp), ..st.style }, ..st }
            } else if n == "style:table-cell-properties"@ {
                StylesScan { style: StyleScanModel { table_cell_prp: fold_onto(a, a.len() as int, st.style.table_cell_prp), ..st.style }, ..st }
            } else if n == "style:paragraph-properties"@ {
                StylesScan { style: StyleScanModel { paragraph_prp: fold_onto(a, a.len() as int, st.style.paragraph_prp), ..st.style }, ..st }
            } else if n == "style:text-properties"@ {
                StylesScan { style: StyleScanModel { text_prp: fold_onto(a, a.len() as int, st.style.text_prp), ..st.style }, ..st }
            } else if n == "number:boolean-style"@ {
                StylesScan { fmt: fmt_head(st.fmt, ValueType::Boolean, a), ..st }
            } else if n == "number:date-style"@ {
                StylesScan { fmt: fmt_head(st.fmt, ValueType::DateTime, a), ..st }
            } else if n == "number:time-style"@ {
                StylesScan { fmt: fmt_head(st.fmt, ValueType::TimeDuration, a), ..st }
            } else if n == "number:number-style"@ {
                StylesScan { fmt: fmt_head(st.fmt, ValueType::Number, a), ..st }
            } else if n == "number:currency-style"@ {
                StylesScan { fmt: fmt_head(st.fmt, ValueType::Currency, a), ..st }
            } else if n == "number:percentage-style"@ {
                StylesScan { fmt: fmt_head(st.fmt, ValueType::Percentage, a), ..st }
            } else if n == "number:text-style"@ {
                StylesScan { fmt: fmt_head(st.fmt, ValueType::Text, a), ..st }
            } else if n == "number:boolean"@ {
                StylesScan { fmt: fmt_push(st.fmt, part_model_of(a, FormatType::Boolean)), ..st }
            } else if n == "number:number"@ {
                StylesScan { fmt: fmt_push(st.fmt, part_model_of(a, FormatType::Number)), ..st }
            } else if n == "number:scientific-number"@ {
                StylesScan { fmt: fmt_push(st.fmt, part_model_of(a, FormatType::Scientific)), ..st }
            } else if n == "number:day"@ {
                StylesScan { fmt: fmt_push(st.fmt, part_model_of(a, FormatType::Day)), ..st }
            } else if n == "number:month"@ {
                StylesScan { fmt: fmt_push(st.fmt, part_model_of(a, FormatType::Month)), ..st }
            } else if n == "number:year"@ {
                StylesScan { fmt: fmt_push(st.fmt, part_model_of(a, FormatType::Year)), ..st }
            } else if n == "number:era"@ {
                StylesScan { fmt: fmt_push(st.fmt, part_model_of(a, FormatType::Era)), ..st }
            } else if n == "number:day-of-week"@ {
                StylesScan { fmt: fmt_push(st.fmt, part_model_of(a, FormatType::DayOfWeek)), ..st }
            } else if n == "number:week-of-year"@ {
                StylesScan { fmt: fmt_push(st.fmt, part_model_of(a, FormatType::WeekOfYear)), ..st }
            } else if n == "number:quarter"@ {
                StylesScan { fmt: fmt_push(st.fmt, part_model_of(a, FormatType::Quarter)), ..st }
            } else if n == "number:hours"@ {
                StylesScan { fmt: fmt_push(st.fmt, part_model_of(a, FormatType::Hours)), ..st }
            } else if n == "number:minutes"@ {
                StylesScan { fmt: fmt_push(st.fmt, part_model_of(a, FormatType::Minutes)), ..st }
            } else if n == "number:seconds"@ {
                StylesScan { fmt: fmt_push(st.fmt, part_model_of(a, FormatType::Seconds)), ..st }
            } else if n == "number:fraction"@ {
                StylesScan { fmt: fmt_push(st.fmt, part_model_of(a, FormatType::Fraction)), ..st }
            } else if n == "number:am-pm"@ {
                StylesScan { fmt: fmt_push(st.fmt, part_model_of(a, FormatType::AmPm)), ..st }
            } else if n == "number:embedded-text"@ {
                StylesScan { fmt: fmt_push(st.fmt, part_model_of(a, FormatType::EmbeddedText)), ..st }
            } else if n == "number:text-content"@ {
                StylesScan { fmt: fmt_push(st.fmt, part_model_of(a, FormatType::TextContent)), ..st }
            } else if n == "style:text"@ {
                StylesScan { fmt: fmt_push(st.fmt, part_model_of(a, FormatType::StyleText)), ..st }
            } else if n == "style:map"@ {
                StylesScan { fmt: fmt_push(st.fmt, part_model_of(a, FormatType::StyleMap)), ..st }
            } else if n == "number:currency-symbol"@ {
                StylesScan { fmt: fmt_push(st.fmt, part_model_of(a, FormatType::CurrencySymbol)), pending: None, ..st }
            } else if n == "number:text"@ {
                StylesScan { fmt: fmt_push(st.fmt, part_model_of(a, FormatType::Text)), pending: None, ..st }
            } else {
                st
            }
        },
        crate::xml::XmlEventModel::Text(t) => {
            match st.pending {
                Some(p) => StylesScan {
                    pending: Some(crate::format::FormatPartModel {
                        content: Some(crate::digits::trim_back(crate::digits::trim_front(t))),
                        ..p
                    }),
                    ..st
                },
                None => st,
            }
        },
        crate::xml::XmlEventModel::End(n) => {
            if n == "style:style"@ {
                StylesScan { style: fresh_style_model(), styles: st.styles.push(st.style), ..st }
            } else if n == "number:boolean-style"@ || n == "number:date-style"@ || n
                == "number:time-style"@ || n == "number:number-style"@ || n
                == "number:currency-style"@ || n == "number:percentage-style"@ || n
                == "number:text-style"@ {
                StylesScan { fmt: fresh_format_model(), formats: st.formats.push(st.fmt), ..st }
            } else if n == "number:currency-symbol"@ || n == "number:text"@ {
                match st.pending {
                    Some(p) => StylesScan { fmt: fmt_push(st.fmt, p), pending: None, ..st },
                    None => StylesScan { pending: None, ..st },
                }
            } else {
                st
            }
        },
        _ => st,
    }
}

/// The style reader folded over a span of events.
pub open spec fn styles_scan(
    ev: Seq<crate::xml::XmlEventModel>,
    from: int,
    upto: int,
) -> StylesScan
    decreases upto - from,
{
    if upto <= from {
        styles_scan_init()
    } else {
        styles_scan_step(styles_scan(ev, from, upto - 1), ev[upto - 1])
    }
}

/// A freshly begun style scans as the fresh model.
proof fn lemma_fresh_style(s: Style)
    requires
        s.name@ == Seq::<char>::empty(),
        s.family == crate::style::Family::Unassigned,
        s.parent is None,
        s.value_style is None,
        s.table_prp is None,
        s.table_col_prp is None,
        s.table_row_prp is None,
        s.table_cell_prp is None,
        s.paragraph_prp is None,
        s.text_prp is None,
    ensures
        style_scan_of(s) == fresh_style_model(),
{
}

/// A freshly begun format scans as the fresh model.
proof fn lemma_fresh_format(f: ValueFormat)
    requires
        f.name@ == Seq::<char>::empty(),
        f.v_type == ValueType::Text,
        f.prp is None,
        f.parts_view().len() == 0,
    ensures
        format_scan_of(f) == fresh_format_model(),
{
    assert(f.parts_view() =~= Seq::<crate::format::FormatPartModel>::empty());
}

/// The scan image of a pending part.
pub open spec fn pending_model(p: Option<FormatPart>) -> Option<crate::format::FormatPartModel> {
    match p {
        Some(q) => Some(q@),
        None => None,
    }
}

/// Reads the automatic-styles region: cosmetic styles with their property
/// bags, and value formats with their ordered parts, consumed exactly up to
/// the region's end element.  The styles and formats land in the book in
/// document order; nothing else of the book moves.
#[verifier::rlimit(100)]
#[verifier::spinoff_prover]
pub fn read_styles(events: &Vec<XmlEvent>, from: usize, book: &mut WorkBook) -> (r: Result<
    usize,
    OdsError,
>)
    requires
        from <= events@.len(),
        old(book).wf(),
    ensures
        final(book).wf(),
        final(book).sheets == old(book).sheets,
        final(book).fonts == old(book).fonts,
        final(book).defs == old(book).defs,
        final(book).file == old(book).file,
        final(book).styles@.len() >= old(book).styles@.len(),
        forall|j: int|
            0 <= j < old(book).styles@.len() ==> #[trigger] final(book).styles@[j] == old(
                book,
            ).styles@[j],
        final(book).formats@.len() >= old(book).formats@.len(),
        forall|j: int|
            0 <= j < old(book).formats@.len() ==> #[trigger] final(book).formats@[j] == old(
                book,
            ).formats@[j],
        ({
            let sc = styles_scan(
                events_view(events@),
                from as int,
                region_stop(events_view(events@), from as int, "office:automatic-styles"@),
            );
            &&& final(book).styles@.map_values(|s: Style| style_scan_of(s)) == old(
                book,
            ).styles@.map_values(|s: Style| style_scan_of(s)) + sc.styles
            &&& final(book).formats@.map_values(|f: ValueFormat| format_scan_of(f)) == old(
                book,
            ).formats@.map_values(|f: ValueFormat| format_scan_of(f)) + sc.formats
        }),
        r is Ok,
        r is Ok ==> r->Ok_0 == region_next(
            events_view(events@),
            from as int,
            "office:automatic-styles"@,
        ) && from <= r->Ok_0 <= events@.len(),
{
    let ghost ev = events_view(events@);
    let mut style = Style::new_origin(Origin::Content);
    let mut value_style = ValueFormat::new_origin(Origin::Content);
    let mut pending: Option<FormatPart> = None;
    proof {
        reveal_strlit("");
        assert(style.name@ =~= Seq::<char>::empty());
        assert(value_style.name@ =~= Seq::<char>::empty());
        lemma_fresh_style(style);
        lemma_fresh_format(value_style);
    }
    let mut i = from;
    while i < events.len()
        invariant
            from <= i <= events@.len(),
            ev == events_view(events@),
            book.wf(),
            book.sheets == old(book).sheets,
            book.fonts == old(book).fonts,
            book.defs == old(book).defs,
            book.file == old(book).file,
            book.styles@.len() >= old(book).styles@.len(),
            forall|j: int|
                0 <= j < old(book).styles@.len() ==> #[trigger] book.styles@[j] == old(
                    book,
                ).styles@[j],
            book.formats@.len() >= old(book).formats@.len(),
            forall|j: int|
                0 <= j < old(book).formats@.len() ==> #[trigger] book.formats@[j] == old(
                    book,
                ).formats@[j],
            forall|j: int|
                from <= j < i ==> !((#[trigger] ev[j]) matches crate::xml::XmlEventModel::Eof)
                    && !(ev[j] matches crate::xml::XmlEventModel::End(n) && n
                    == "office:automatic-styles"@),
            style.wf(),
            value_style.wf(),
            match pending {
                Some(p) => p.prp.wf(),
                None => true,
            },
            style_scan_of(style) == styles_scan(ev, from as int, i as int).style,
            format_scan_of(value_style) == styles_scan(ev, from as int, i as int).fmt,
            pending_model(pending) == styles_scan(ev, from as int, i as int).pending,
            book.styles@.map_values(|s: Style| style_scan_of(s)) == old(book).styles@.map_values(
                |s: Style| style_scan_of(s),
            ) + styles_scan(ev, from as int, i as int).styles,
            book.formats@.map_values(|f: ValueFormat| format_scan_of(f)) == old(
                book,
            ).formats@.map_values(|f: ValueFormat| format_scan_of(f)) + styles_scan(
                ev,
                from as int,
                i as int,
            ).formats,
        decreases events@.len() - i,
    {
        let ghost pre_scan = styles_scan(ev, from as int, i as int);
        proof {
            assert(ev[i as int] == events@[i as int]@);
            assert(styles_scan(ev, from as int, i + 1) == styles_scan_step(
                pre_scan,
                ev[i as int],
            ));
        }
        let is_empty_tag = matches!(&events[i], XmlEvent::Empty(_, _));
        match &events[i] {
            XmlEvent::Start(n, attrs) | XmlEvent::Empty(n, attrs) => {
                if str_eq(n.as_str(), "style:style") {
                    read_style(attrs, &mut style);
                    if is_empty_tag {
                        let ghost pre_map = book.styles@.map_values(|s: Style| style_scan_of(s));
                        let ghost pre_vec = book.styles@;
                        let ghost committed = style_scan_of(style);
                        book.add_style(style);
                        style = Style::new_origin(Origin::Content);
                        proof {
                            reveal_strlit("");
                            assert(style.name@ =~= Seq::<char>::empty());
                            lemma_fresh_style(style);
                            assert(book.styles@.map_values(|s: Style| style_scan_of(s))
                                =~= pre_map.push(committed)) by {
                                assert(forall|j: int|
                                    0 <= j < pre_vec.len() ==> #[trigger] pre_map[j]
                                        == style_scan_of(pre_vec[j]));
                            }
                        }
                    }
                } else if str_eq(n.as_str(), "style:table-properties") {
                    copy_style_properties(&mut style, 0, attrs);
                } else if str_eq(n.as_str(), "style:table-column-properties") {
                    copy_style_properties(&mut style, 1, attrs);
                } else if str_eq(n.as_str(), "style:table-row-properties") {
                    copy_style_properties(&mut style, 2, attrs);
                } else if str_eq(n.as_str(), "style:table-cell-properties") {
                    copy_style_properties(&mut style, 3, attrs);
                } else if str_eq(n.as_str(), "style:paragraph-properties") {
                    copy_style_properties(&mut style, 4, attrs);
                } else if str_eq(n.as_str(), "style:text-properties") {
                    copy_style_properties(&mut style, 5, attrs);
                } else if str_eq(n.as_str(), "number:boolean-style") {
                    read_value_style(ValueType::Boolean, &mut value_style, attrs);
                } else if str_eq(n.as_str(), "number:date-style") {
                    read_value_style(ValueType::DateTime, &mut value_style, attrs);
                } else if str_eq(n.as_str(), "number:time-style") {
                    read_value_style(ValueType::TimeDuration, &mut value_style, attrs);
                } else if str_eq(n.as_str(), "number:number-style") {
                    read_value_style(ValueType::Number, &mut value_style, attrs);
                } else if str_eq(n.as_str(), "number:currency-style") {
                    read_value_style(ValueType::Currency, &mut value_style, attrs);
                } else if str_eq(n.as_str(), "number:percentage-style") {
                    read_value_style(ValueType::Percentage, &mut value_style, attrs);
                } else if str_eq(n.as_str(), "number:text-style") {
                    read_value_style(ValueType::Text, &mut value_style, attrs);
                } else if str_eq(n.as_str(), "number:boolean") {
                    value_style.push_part(read_part(attrs, FormatType::Boolean));
                } else if str_eq(n.as_str(), "number:number") {
                    value_style.push_part(read_part(attrs, FormatType::Number));
                } else if str_eq(n.as_str(), "number:scientific-number") {
                    value_style.push_part(read_part(attrs, FormatType::Scientific));
                } else if str_eq(n.as_str(), "number:day") {
                    value_style.push_part(read_part(attrs, FormatType::Day));
                } else if str_eq(n.as_str(), "number:month") {
                    value_style.push_part(read_part(attrs, FormatType::Month));
                } else if str_eq(n.as_str(), "number:year") {
                    value_style.push_part(read_part(attrs, FormatType::Year));
                } else if str_eq(n.as_str(), "number:era") {
                    value_style.push_part(read_part(attrs, FormatType::Era));
                } else if str_eq(n.as_str(), "number:day-of-week") {
                    value_style.push_part(read_part(attrs, FormatType::DayOfWeek));
                } else if str_eq(n.as_str(), "number:week-of-year") {
                    value_style.push_part(read_part(attrs, FormatType::WeekOfYear));
                } else if str_eq(n.as_str(), "number:quarter") {
                    value_style.push_part(read_part(attrs, FormatType::Quarter));
                } else if str_eq(n.as_str(), "number:hours") {
                    value_style.push_part(read_part(attrs, FormatType::Hours));
                } else if str_eq(n.as_str(), "number:minutes") {
                    value_style.push_part(read_part(attrs, FormatType::Minutes));
                } else if str_eq(n.as_str(), "number:seconds") {
                    value_style.push_part(read_part(attrs, FormatType::Seconds));
                } else if str_eq(n.as_str(), "number:fraction") {
                    value_style.push_part(read_part(attrs, FormatType::Fraction));
                } else if str_eq(n.as_str(), "number:am-pm") {
                    value_style.push_part(read_part(attrs, FormatType::AmPm));
                } else if str_eq(n.as_str(), "number:embedded-text") {
                    value_style.push_part(read_part(attrs, FormatType::EmbeddedText));
                } else if str_eq(n.as_str(), "number:text-content") {
                    value_style.push_part(read_part(attrs, FormatType::TextContent));
                } else if str_eq(n.as_str(), "style:text") {
                    value_style.push_part(read_part(attrs, FormatType::StyleText));
                } else if str_eq(n.as_str(), "style:map") {
                    value_style.push_part(read_part(attrs, FormatType::StyleMap));
                } else if str_eq(n.as_str(), "number:currency-symbol") {
                    let part = read_part(attrs, FormatType::CurrencySymbol);
                    if is_empty_tag {
                        value_style.push_part(part);
                        pending = None;
                    } else {
                        pending = Some(part);
                    }
                } else if str_eq(n.as_str(), "number:text") {
                    let part = read_part(attrs, FormatType::Text);
                    if is_empty_tag {
                        value_style.push_part(part);
                        pending = None;
                    } else {
                        pending = Some(part);
                    }
                }
            },
            XmlEvent::Text(t) => {
                pending = match pending {
                    Some(mut p) => {
                        p.content = Some(crate::digits::trim_both(t.as_str()));
                        Some(p)
                    },
                    None => None,
                };
            },
            XmlEvent::End(n) => {
                if str_eq(n.as_str(), "office:automatic-styles") {
                    proof {
                        lemma_region_stop_at(ev, from as int, i as int, "office:automatic-styles"@);
                    }
                    return Ok(i + 1);
                }
                if str_eq(n.as_str(), "style:style") {
                    let ghost pre_map = book.styles@.map_values(|s: Style| style_scan_of(s));
                    let ghost pre_vec = book.styles@;
                    let ghost committed = style_scan_of(style);
                    book.add_style(style);
                    style = Style::new_origin(Origin::Content);
                    proof {
                        reveal_strlit("");
                        assert(style.name@ =~= Seq::<char>::empty());
                        lemma_fresh_style(style);
                        assert(book.styles@.map_values(|s: Style| style_scan_of(s)) =~= pre_map.push(
                            committed,
                        )) by {
                            assert(forall|j: int|
                                0 <= j < pre_vec.len() ==> #[trigger] pre_map[j] == style_scan_of(
                                    pre_vec[j],
                                ));
                        }
                    }
                } else if str_eq(n.as_str(), "number:boolean-style") || str_eq(
                    n.as_str(),
                    "number:date-style",
                ) || str_eq(n.as_str(), "number:time-style") || str_eq(
                    n.as_str(),
                    "number:number-style",
                ) || str_eq(n.as_str(), "number:currency-style") || str_eq(
                    n.as_str(),
                    "number:percentage-style",
                ) || str_eq(n.as_str(), "number:text-style") {
                    let ghost pre_map = book.formats@.map_values(
                        |f: ValueFormat| format_scan_of(f),
                    );
                    let ghost pre_vec = book.formats@;
                    let ghost committed = format_scan_of(value_style);
                    book.add_format(value_style);
                    value_style = ValueFormat::new_origin(Origin::Content);
                    proof {
                        reveal_strlit("");
                        assert(value_style.name@ =~= Seq::<char>::empty());
                        lemma_fresh_format(value_style);
                        assert(book.formats@.map_values(|f: ValueFormat| format_scan_of(f))
                            =~= pre_map.push(committed)) by {
                            assert(forall|j: int|
                                0 <= j < pre_vec.len() ==> #[trigger] pre_map[j] == format_scan_of(
                                    pre_vec[j],
                                ));
                        }
                    }
                } else if str_eq(n.as_str(), "number:currency-symbol") || str_eq(
                    n.as_str(),
                    "number:text",
                ) {
                    match pending {
                        Some(p) => {
                            value_style.push_part(p);
                        },
                        None => {},
                    }
                    pending = None;
                }
            },
            XmlEvent::Eof => {
                proof {
                    lemma_region_stop_at(ev, from as int, i as int, "office:automatic-styles"@);
                }
                return Ok(i);
            },
            _ => {},
        }
        i += 1;
    }
    proof {
        lemma_region_stop_at(ev, from as int, events@.len() as int, "office:automatic-styles"@);
    }
    Ok(i)
}


/// One sheet as the reader's scan rebuilds it.
pub ghost struct SheetScan {
    /// The sheet's name.
    pub name: Seq<char>,
    /// The sheet's style reference.
    pub style: Option<Seq<char>>,
    /// The column metadata by column index.
    pub columns: Map<u64, crate::book::SColumnModel>,
    /// The row styles by row index.
    pub rows: Map<u64, Option<Seq<char>>>,
    /// The occupied cells by packed position.
    pub data: Map<u64, crate::book::SCellModel>,
}

/// A sheet before any of its events.
pub open spec fn sheet_scan_init() -> SheetScan {
    SheetScan {
        name: Seq::empty(),
        style: None,
        columns: Map::empty(),
        rows: Map::empty(),
        data: Map::empty(),
    }
}

/// The reader's whole state: committed sheets, the open sheet, the gathered
/// fonts, and the position cursors.
pub ghost struct ContentScan {
    /// The sheets committed so far.
    pub sheets: Seq<SheetScan>,
    /// The sheet being filled.
    pub cur: SheetScan,
    /// The fonts gathered so far.
    pub fonts: Seq<(Seq<char>, Seq<(Seq<char>, Seq<char>)>)>,
    /// The column-declaration cursor.
    pub tcol: nat,
    /// The row cursor.
    pub row: nat,
    /// The column cursor.
    pub col: nat,
    /// The pending row repeat.
    pub rrep: nat,
    /// The pending row style.
    pub rstyle: Option<Seq<char>>,
}

/// The reader before any event.
pub open spec fn content_scan_init() -> ContentScan {
    ContentScan {
        sheets: Seq::empty(),
        cur: sheet_scan_init(),
        fonts: Seq::empty(),
        tcol: 0,
        row: 0,
        col: 0,
        rrep: 1,
        rstyle: None,
    }
}

/// A map with every key of a contiguous range bound to one value.
pub open spec fn map_range_set<V>(m: Map<u64, V>, lo: nat, hi: nat, v: V) -> Map<u64, V> {
    Map::new(
        |k: u64| m.dom().contains(k) || (lo <= k as nat && (k as nat) < hi),
        |k: u64|
            if lo <= k as nat && (k as nat) < hi {
                v
            } else {
                m[k]
            },
    )
}

/// A sheet's own attributes applied: the name and the style reference.
pub open spec fn table_attrs_step(st: ContentScan, a: Seq<(Seq<char>, Seq<char>)>) -> ContentScan {
    let name = match map_get(a, "table:name"@) {
        Some(n) => n,
        None => st.cur.name,
    };
    let style = match map_get(a, "table:style-name"@) {
        Some(s) => Some(s),
        None => st.cur.style,
    };
    ContentScan { cur: SheetScan { name, style, ..st.cur }, ..st }
}

/// A column declaration applied, or nothing when its counter is unreadable
/// or the covered indexes leave the addressable range.
pub open spec fn column_step(st: ContentScan, a: Seq<(Seq<char>, Seq<char>)>) -> Option<
    ContentScan,
> {
    let rep = spec_repeat(a, "table:number-columns-repeated"@);
    if repeat_ok(a, "table:number-columns-repeated"@) && st.tcol + rep <= 0xFFFFFFFF {
        Some(
            ContentScan {
                cur: SheetScan {
                    columns: map_range_set(
                        st.cur.columns,
                        st.tcol,
                        st.tcol + rep,
                        crate::book::SColumnModel {
                            style: map_get(a, "table:style-name"@),
                            def_cell_style: map_get(a, "table:default-cell-style-name"@),
                        },
                    ),
                    ..st.cur
                },
                tcol: st.tcol + rep,
                ..st
            },
        )
    } else {
        None
    }
}

/// An empty cell element applied: the cursor advances, and entries
/// materialize only when a style or formula rides along.
pub open spec fn empty_cell_step(st: ContentScan, a: Seq<(Seq<char>, Seq<char>)>) -> Option<
    ContentScan,
> {
    let rep = spec_repeat(a, "table:number-columns-repeated"@);
    if repeat_ok(a, "table:number-columns-repeated"@) && st.col + rep <= 0xFFFFFFFF {
        let styled = map_get(a, "table:style-name"@) is Some || map_get(a, "table:formula"@)
            is Some;
        let pos0 = crate::book::pos_key(st.row, st.col);
        let data = if styled {
            map_range_set(
                st.cur.data,
                pos0,
                pos0 + rep,
                crate::book::SCellModel {
                    value: None,
                    style: map_get(a, "table:style-name"@),
                    formula: map_get(a, "table:formula"@),
                },
            )
        } else {
            st.cur.data
        };
        Some(ContentScan { cur: SheetScan { data, ..st.cur }, col: st.col + rep, ..st })
    } else {
        None
    }
}

/// An occupied cell applied: the wire tuple resolves through the value
/// codec and lands at every covered position.
pub open spec fn cell_step(
    st: ContentScan,
    a: Seq<(Seq<char>, Seq<char>)>,
    ev: Seq<crate::xml::XmlEventModel>,
    payload_from: int,
) -> Option<ContentScan> {
    let rep = spec_repeat(a, "table:number-columns-repeated"@);
    let model = crate::value::parse_value_model(
        cell_vt(a),
        selected_value_attr(a),
        cell_content_spec(ev, payload_from),
        map_get(a, "office:currency"@),
    );
    if repeat_ok(a, "table:number-columns-repeated"@) && st.col + rep <= 0xFFFFFFFF && cell_vt_ok(
        a,
    ) && cell_scan_ok(ev, payload_from) && crate::value::parse_value_accepts(
        cell_vt(a),
        selected_value_attr(a),
        map_get(a, "office:currency"@),
    ) {
        let pos0 = crate::book::pos_key(st.row, st.col);
        Some(
            ContentScan {
                cur: SheetScan {
                    data: map_range_set(
                        st.cur.data,
                        pos0,
                        pos0 + rep,
                        crate::book::SCellModel {
                            value: model,
                            style: map_get(a, "table:style-name"@),
                            formula: map_get(a, "table:formula"@),
                        },
                    ),
                    ..st.cur
                },
                col: st.col + rep,
                ..st
            },
        )
    } else {
        None
    }
}

/// A row's end applied: its style covers every repeated row, the row cursor
/// advances by the repeat, and the column cursor resets.
pub open spec fn row_end_step(st: ContentScan) -> Option<ContentScan> {
    if st.row + st.rrep <= 0xFFFFFFFF {
        let rows = match st.rstyle {
            Some(s) => map_range_set(st.cur.rows, st.row, st.row + st.rrep, Some(s)),
            None => st.cur.rows,
        };
        Some(
            ContentScan {
                cur: SheetScan { rows, ..st.cur },
                row: st.row + st.rrep,
                col: 0,
                rrep: 1,
                rstyle: None,
                ..st
            },
        )
    } else {
        None
    }
}

/// The whole reader, one event at a time: how a content stream maps to
/// sheets, fonts and the cursors, or to a read error.  Style regions are
/// consumed to their end; what they gather is stated on the style reader
/// itself.
pub open spec fn content_scan(
    ev: Seq<crate::xml::XmlEventModel>,
    i: int,
    st: ContentScan,
) -> Option<ContentScan>
    decreases ev.len() - i,
        when 0 <= i
    via content_scan_dec
{
    if i >= ev.len() {
        Some(st)
    } else {
        match ev[i] {
            crate::xml::XmlEventModel::Eof => Some(st),
            crate::xml::XmlEventModel::Start(n, a) => {
                if n == "table:table"@ {
                    content_scan(ev, i + 1, table_attrs_step(st, a))
                } else if n == "table:table-column"@ {
                    match column_step(st, a) {
                        Some(st2) => content_scan(ev, i + 1, st2),
                        None => None,
                    }
                } else if n == "table:table-row"@ {
                    if repeat_ok(a, "table:number-rows-repeated"@) {
                        content_scan(
                            ev,
                            i + 1,
                            ContentScan {
                                rrep: spec_repeat(a, "table:number-rows-repeated"@),
                                rstyle: map_get(a, "table:style-name"@),
                                ..st
                            },
                        )
                    } else {
                        None
                    }
                } else if n == "table:table-cell"@ {
                    match cell_step(st, a, ev, i + 1) {
                        Some(st2) => content_scan(ev, cell_stop(ev, i + 1) + 1, st2),
                        None => None,
                    }
                } else if n == "office:font-face-decls"@ {
                    content_scan(
                        ev,
                        region_next(ev, i + 1, "office:font-face-decls"@),
                        ContentScan {
                            fonts: st.fonts + fonts_scan(
                                ev,
                                i + 1,
                                region_stop(ev, i + 1, "office:font-face-decls"@),
                            ),
                            ..st
                        },
                    )
                } else if n == "office:automatic-styles"@ {
                    content_scan(ev, region_next(ev, i + 1, "office:automatic-styles"@), st)
                } else {
                    content_scan(ev, i + 1, st)
                }
            },
            crate::xml::XmlEventModel::Empty(n, a) => {
                if n == "table:table-column"@ {
                    match column_step(st, a) {
                        Some(st2) => content_scan(ev, i + 1, st2),
                        None => None,
                    }
                } else if n == "table:table-cell"@ {
                    match empty_cell_step(st, a) {
                        Some(st2) => content_scan(ev, i + 1, st2),
                        None => None,
                    }
                } else {
                    content_scan(ev, i + 1, st)
                }
            },
            crate::xml::XmlEventModel::End(n) => {
                if n == "table:table"@ {
                    content_scan(
                        ev,
                        i + 1,
                        ContentScan {
                            sheets: st.sheets.push(st.cur),
                            cur: sheet_scan_init(),
                            tcol: 0,
                            row: 0,
                            col: 0,
                            ..st
                        },
                    )
                } else if n == "table:table-row"@ {
                    match row_end_step(st) {
                        Some(st2) => content_scan(ev, i + 1, st2),
                        None => None,
                    }
                } else {
                    content_scan(ev, i + 1, st)
                }
            },
            _ => content_scan(ev, i + 1, st),
        }
    }
}

/// The scan's jumps always move forward and stay inside the stream.
#[via_fn]
proof fn content_scan_dec(ev: Seq<crate::xml::XmlEventModel>, i: int, st: ContentScan) {
    if 0 <= i + 1 <= ev.len() {
        lemma_cell_stop_bounds(ev, i + 1);
        lemma_region_stop_bounds(ev, i + 1, "office:font-face-decls"@);
        lemma_region_stop_bounds(ev, i + 1, "office:automatic-styles"@);
    }
}

/// The payload stop never runs backward nor past the stream.
proof fn lemma_cell_stop_bounds(ev: Seq<crate::xml::XmlEventModel>, from: int)
    requires
        0 <= from <= ev.len(),
    ensures
        from <= cell_stop(ev, from) <= ev.len(),
    decreases ev.len() - from,
{
    if from < ev.len() {
        lemma_cell_stop_bounds(ev, from + 1);
    }
}

/// A region stop never runs backward nor past the stream.
proof fn lemma_region_stop_bounds(
    ev: Seq<crate::xml::XmlEventModel>,
    from: int,
    end_name: Seq<char>,
)
    requires
        0 <= from <= ev.len(),
    ensures
        from <= region_stop(ev, from, end_name) <= ev.len(),
    decreases ev.len() - from,
{
    if from < ev.len() {
        lemma_region_stop_bounds(ev, from + 1, end_name);
    }
}

/// The column metadata of a sheet, as a map.
pub open spec fn cols_map(s: Seq<(u64, SColumn)>) -> Map<u64, crate::book::SColumnModel> {
    Map::new(
        |k: u64| crate::book::assoc_at(s, k) is Some,
        |k: u64| (crate::book::assoc_at(s, k)->0)@,
    )
}

/// The row styles of a sheet, as a map.
pub open spec fn rows_map(s: Seq<(u64, crate::book::SRow)>) -> Map<u64, Option<Seq<char>>> {
    Map::new(
        |k: u64| crate::book::assoc_at(s, k) is Some,
        |k: u64| crate::value::opt_chars((crate::book::assoc_at(s, k)->0).style),
    )
}

/// The occupied cells of a sheet, as a map.
pub open spec fn data_map(s: Seq<(u64, SCell)>) -> Map<u64, crate::book::SCellModel> {
    Map::new(
        |k: u64| crate::book::assoc_at(s, k) is Some,
        |k: u64| (crate::book::assoc_at(s, k)->0)@,
    )
}

/// A sheet's scan image.
pub open spec fn sheet_scan_of(s: Sheet) -> SheetScan {
    SheetScan {
        name: s.name@,
        style: crate::value::opt_chars(s.style),
        columns: cols_map(s.columns@),
        rows: rows_map(s.rows@),
        data: data_map(s.data@),
    }
}

/// The fonts' scan image.
pub open spec fn fonts_of(fs: Seq<FontDecl>) -> Seq<(Seq<char>, Seq<(Seq<char>, Seq<char>)>)> {
    fs.map_values(|f: FontDecl| (f.name@, f.prp_view()))
}

/// The scan image of the reader's live state.
pub open spec fn state_of(
    book: WorkBook,
    sheet: Sheet,
    tcol: u32,
    row: u32,
    col: u32,
    rrep: u32,
    rstyle: Option<String>,
) -> ContentScan {
    ContentScan {
        sheets: book.sheets@.map_values(|s: Sheet| sheet_scan_of(s)),
        cur: sheet_scan_of(sheet),
        fonts: fonts_of(book.fonts@),
        tcol: tcol as nat,
        row: row as nat,
        col: col as nat,
        rrep: rrep as nat,
        rstyle: crate::value::opt_chars(rstyle),
    }
}

/// A fresh sheet scans as the empty sheet.
proof fn lemma_fresh_sheet_scan(s: Sheet)
    requires
        s.name@ == Seq::<char>::empty(),
        s.style is None,
        s.columns@.len() == 0,
        s.rows@.len() == 0,
        s.data@.len() == 0,
    ensures
        sheet_scan_of(s) == sheet_scan_init(),
{
    assert(cols_map(s.columns@) =~= Map::<u64, crate::book::SColumnModel>::empty());
    assert(rows_map(s.rows@) =~= Map::<u64, Option<Seq<char>>>::empty());
    assert(data_map(s.data@) =~= Map::<u64, crate::book::SCellModel>::empty());
}

/// Reads a whole content document from its event stream: fonts, styles and
/// every sheet with its expanded grid.  The result is exactly what the
/// one-step reader scan (`content_scan`) yields over the events — the same
/// committed sheets with the same names, styles, columns, row styles and
/// occupied cells, and the same fonts — and the read fails exactly when the
/// scan does.  The first failure aborts the read; no partial workbook is
/// handed out.
#[verifier::rlimit(100)]
pub fn read_content(events: &Vec<XmlEvent>) -> (r: Result<WorkBook, OdsError>)
    ensures
        r is Ok ==> (r->Ok_0).wf(),
        r is Ok <==> content_scan(events_view(events@), 0, content_scan_init()) is Some,
        r is Ok ==> ({
            let st = content_scan(events_view(events@), 0, content_scan_init())->0;
            &&& (r->Ok_0).sheets@.map_values(|s: Sheet| sheet_scan_of(s)) == st.sheets
            &&& fonts_of((r->Ok_0).fonts@) == st.fonts
        }),
{
    let ghost ev = events_view(events@);
    let mut book = WorkBook::new();
    let mut sheet = Sheet::new();
    let mut tcol: u32 = 0;
    let mut row: u32 = 0;
    let mut col: u32 = 0;
    let mut row_repeat: u32 = 1;
    let mut row_style: Option<String> = None;
    let mut i: usize = 0;
    proof {
        lemma_fresh_sheet_scan(sheet);
        assert(book.sheets@.map_values(|s: Sheet| sheet_scan_of(s)) =~= Seq::<SheetScan>::empty());
        assert(fonts_of(book.fonts@) =~= Seq::<(Seq<char>, Seq<(Seq<char>, Seq<char>)>)>::empty());
        assert(state_of(book, sheet, tcol, row, col, row_repeat, row_style)
            == content_scan_init());
    }
    while i < events.len()
        invariant
            i <= events@.len(),
            ev == events_view(events@),
            book.wf(),
            sheet.wf(),
            content_scan(ev, 0, content_scan_init()) == content_scan(
                ev,
                i as int,
                state_of(book, sheet, tcol, row, col, row_repeat, row_style),
            ),
        decreases events@.len() - i,
    {
        let ghost st_now = state_of(book, sheet, tcol, row, col, row_repeat, row_style);
        proof {
            assert(ev[i as int] == events@[i as int]@);
        }
        let is_empty_tag = matches!(&events[i], XmlEvent::Empty(_, _));
        let mut next_i = i + 1;
        match &events[i] {
            XmlEvent::Start(n, attrs) | XmlEvent::Empty(n, attrs) => {
                if str_eq(n.as_str(), "table:table") && !is_empty_tag {
                    read_table(attrs, &mut sheet);
                    proof {
                        assert(sheet_scan_of(sheet) == table_attrs_step(
                            st_now,
                            attrs_view(attrs@),
                        ).cur);
                        assert(state_of(book, sheet, tcol, row, col, row_repeat, row_style)
                            == table_attrs_step(st_now, attrs_view(attrs@)));
                    }
                } else if str_eq(n.as_str(), "table:table-column") {
                    let ghost pre_cols = sheet.columns@;
                    tcol = match read_table_column(attrs, tcol, &mut sheet) {
                        Ok(n2) => n2,
                        Err(e) => {
                            proof {
                                assert(column_step(st_now, attrs_view(attrs@)) is None);
                            }
                            return Err(e);
                        },
                    };
                    proof {
                        let a = attrs_view(attrs@);
                        let rep = spec_repeat(a, "table:number-columns-repeated"@);
                        let stepped = column_step(st_now, a)->0;
                        assert(cols_map(sheet.columns@) =~= stepped.cur.columns) by {
                            assert(forall|k: u64|
                                #[trigger] crate::book::assoc_at(pre_cols, k) is Some
                                    <==> cols_map(pre_cols).dom().contains(k));
                        }
                        assert(state_of(book, sheet, tcol, row, col, row_repeat, row_style)
                            == stepped);
                    }
                } else if str_eq(n.as_str(), "table:table-row") && !is_empty_tag {
                    let (rr, rs) = match read_table_row(attrs) {
                        Ok(p) => p,
                        Err(e) => {
                            return Err(e);
                        },
                    };
                    row_repeat = rr;
                    row_style = rs;
                    proof {
                        assert(crate::value::opt_chars(row_style) == map_get(
                            attrs_view(attrs@),
                            "table:style-name"@,
                        ));
                        assert(state_of(book, sheet, tcol, row, col, row_repeat, row_style)
                            == (ContentScan {
                            rrep: spec_repeat(attrs_view(attrs@), "table:number-rows-repeated"@),
                            rstyle: map_get(attrs_view(attrs@), "table:style-name"@),
                            ..st_now
                        }));
                    }
                } else if str_eq(n.as_str(), "table:table-cell") {
                    if is_empty_tag {
                        let ghost pre_data = sheet.data@;
                        col = match read_empty_table_cell(attrs, row, col, &mut sheet) {
                            Ok(c2) => c2,
                            Err(e) => {
                                proof {
                                    assert(empty_cell_step(st_now, attrs_view(attrs@)) is None);
                                }
                                return Err(e);
                            },
                        };
                        proof {
                            let a = attrs_view(attrs@);
                            let stepped = empty_cell_step(st_now, a)->0;
                            assert(data_map(sheet.data@) =~= stepped.cur.data) by {
                                assert(forall|k: u64|
                                    #[trigger] crate::book::assoc_at(pre_data, k) is Some
                                        <==> data_map(pre_data).dom().contains(k));
                            }
                            assert(state_of(book, sheet, tcol, row, col, row_repeat, row_style)
                                == stepped);
                        }
                    } else {
                        let ghost pre_data = sheet.data@;
                        let (ni, nc) = match read_table_cell(
                            events,
                            i + 1,
                            attrs,
                            row,
                            col,
                            &mut sheet,
                        ) {
                            Ok(p) => p,
                            Err(e) => {
                                proof {
                                    assert(cell_step(st_now, attrs_view(attrs@), ev, i + 1)
                                        is None);
                                }
                                return Err(e);
                            },
                        };
                        next_i = ni;
                        col = nc;
                        proof {
                            let a = attrs_view(attrs@);
                            let stepped = cell_step(st_now, a, ev, i + 1)->0;
                            assert(data_map(sheet.data@) =~= stepped.cur.data) by {
                                assert(forall|k: u64|
                                    #[trigger] crate::book::assoc_at(pre_data, k) is Some
                                        <==> data_map(pre_data).dom().contains(k));
                            }
                            assert(state_of(book, sheet, tcol, row, col, row_repeat, row_style)
                                == stepped);
                            assert(next_i == cell_stop(ev, i + 1) + 1);
                        }
                    }
                } else if str_eq(n.as_str(), "office:font-face-decls") && !is_empty_tag {
                    let ghost pre_fonts = book.fonts@;
                    next_i = match read_fonts(events, i + 1, &mut book) {
                        Ok(n2) => n2,
                        Err(e) => {
                            return Err(e);
                        },
                    };
                    proof {
                        let scan = fonts_scan(
                            ev,
                            i + 1,
                            region_stop(ev, i + 1, "office:font-face-decls"@),
                        );
                        let fo_pre = fonts_of(pre_fonts);
                        let fo_new = fonts_of(book.fonts@);
                        assert(forall|j: int|
                            0 <= j < pre_fonts.len() ==> #[trigger] fo_pre[j] == (
                                pre_fonts[j].name@,
                                pre_fonts[j].prp_view(),
                            ));
                        assert(forall|j: int|
                            0 <= j < book.fonts@.len() ==> #[trigger] fo_new[j] == (
                                book.fonts@[j].name@,
                                book.fonts@[j].prp_view(),
                            ));
                        assert(forall|j: int|
                            0 <= j < scan.len() ==> #[trigger] scan[j] == (
                                scan[j].0,
                                scan[j].1,
                            ));
                        assert forall|idx: int|
                            pre_fonts.len() <= idx < book.fonts@.len() implies #[trigger] fo_new[idx]
                            == scan[idx - pre_fonts.len()] by {
                            let j = idx - pre_fonts.len();
                            assert(book.fonts@[pre_fonts.len() + j].name@ == scan[j].0);
                            assert(book.fonts@[pre_fonts.len() + j].prp_view() == scan[j].1);
                        }
                        assert(fo_new =~= fo_pre + scan);
                        assert(state_of(book, sheet, tcol, row, col, row_repeat, row_style)
                            == (ContentScan { fonts: st_now.fonts + scan, ..st_now }));
                    }
                } else if str_eq(n.as_str(), "office:automatic-styles") && !is_empty_tag {
                    next_i = match read_styles(events, i + 1, &mut book) {
                        Ok(n2) => n2,
                        Err(e) => {
                            return Err(e);
                        },
                    };
                    proof {
                        assert(state_of(book, sheet, tcol, row, col, row_repeat, row_style)
                            == st_now);
                    }
                }
            },
            XmlEvent::End(n) => {
                if str_eq(n.as_str(), "table:table") {
                    row = 0;
                    col = 0;
                    tcol = 0;
                    let ghost pre_sheets = book.sheets@;
                    let ghost committed = sheet_scan_of(sheet);
                    book.push_sheet(sheet);
                    sheet = Sheet::new();
                    proof {
                        lemma_fresh_sheet_scan(sheet);
                        let ghost mapped = pre_sheets.map_values(|s: Sheet| sheet_scan_of(s));
                        assert(book.sheets@.map_values(|s: Sheet| sheet_scan_of(s)) =~= mapped.push(
                            committed,
                        )) by {
                            assert(forall|j: int|
                                0 <= j < pre_sheets.len() ==> #[trigger] mapped[j]
                                    == sheet_scan_of(pre_sheets[j]));
                        }
                        assert(state_of(book, sheet, tcol, row, col, row_repeat, row_style)
                            == (ContentScan {
                            sheets: st_now.sheets.push(st_now.cur),
                            cur: sheet_scan_init(),
                            tcol: 0,
                            row: 0,
                            col: 0,
                            ..st_now
                        }));
                    }
                } else if str_eq(n.as_str(), "table:table-row") {
                    if row as u64 + row_repeat as u64 > 0xFFFFFFFFu64 {
                        proof {
                            assert(row_end_step(st_now) is None);
                        }
                        return Err(OdsError::Ods("row index out of range".to_owned()));
                    }
                    let ghost pre_rows = sheet.rows@;
                    let ghost pre_sheet = sheet;
                    match &row_style {
                        Some(st) => {
                            let mut rr: u32 = row;
                            let endr = row + row_repeat;
                            while rr < endr
                                invariant
                                    sheet.wf(),
                                    row <= rr <= endr,
                                    endr as nat <= 0x100000000,
                                    sheet.columns == pre_sheet.columns,
                                    sheet.data == pre_sheet.data,
                                    sheet.name == pre_sheet.name,
                                    sheet.style == pre_sheet.style,
                                    pre_rows == pre_sheet.rows@,
                                    row_style matches Some(s3) && s3@ == st_now.rstyle->0,
                                    st_now.rstyle is Some,
                                    forall|k: u64|
                                        row <= k < rr ==> ((#[trigger] crate::book::assoc_at(
                                            sheet.rows@,
                                            k,
                                        )) matches Some(r2) && crate::value::opt_chars(r2.style)
                                            == st_now.rstyle),
                                    forall|k: u64|
                                        !(row <= k < rr) ==> #[trigger] crate::book::assoc_at(
                                            sheet.rows@,
                                            k,
                                        ) == crate::book::assoc_at(pre_rows, k),
                                decreases endr - rr,
                            {
                                match &row_style {
                                    Some(st2) => {
                                        sheet.set_row_style(rr, st2.clone());
                                    },
                                    None => {},
                                }
                                rr += 1;
                            }
                        },
                        None => {},
                    }
                    proof {
                        let stepped = row_end_step(st_now)->0;
                        assert(rows_map(sheet.rows@) =~= stepped.cur.rows) by {
                            assert(forall|k: u64|
                                #[trigger] crate::book::assoc_at(pre_rows, k) is Some
                                    <==> rows_map(pre_rows).dom().contains(k));
                        }
                    }
                    row_style = None;
                    row = row + row_repeat;
                    col = 0;
                    row_repeat = 1;
                    proof {
                        assert(state_of(book, sheet, tcol, row, col, row_repeat, row_style)
                            == row_end_step(st_now)->0);
                    }
                }
            },
            XmlEvent::Eof => {
                proof {
                    assert(content_scan(ev, i as int, st_now) == Some(st_now));
                }
                return Ok(book);
            },
            _ => {},
        }
        proof {
            assert(i < next_i <= events@.len());
        }
        i = next_i;
    }
    Ok(book)
}

/// Scans from `from` to the end of the open cell element/// Scans from `from` to the end of the open cell element, gathering its
/// text; split text runs are joined back together.
fn collect_cell_text(events: &Vec<XmlEvent>, from: usize) -> (r: Result<
    (usize, Option<String>),
    OdsError,
>)
    requires
        from <= events@.len(),
    ensures
        r is Ok <==> cell_scan_ok(events_view(events@), from as int),
        r is Ok ==> (r->Ok_0).0 == cell_stop(events_view(events@), from as int) + 1,
        r is Ok ==> from < (r->Ok_0).0 <= events@.len(),
        r is Ok ==> crate::value::opt_chars((r->Ok_0).1) == cell_raw_text(
            events_view(events@),
            from as int,
            cell_stop(events_view(events@), from as int),
        ),
{
    let ghost ev = events_view(events@);
    let mut content: Option<String> = None;
    let mut i = from;
    while i < events.len()
        invariant
            from <= i <= events@.len(),
            ev == events_view(events@),
            crate::value::opt_chars(content) == cell_raw_text(ev, from as int, i as int),
            forall|j: int|
                from <= j < i ==> !((#[trigger] ev[j]) matches crate::xml::XmlEventModel::Eof)
                    && !(ev[j] matches crate::xml::XmlEventModel::End(n) && n
                    == "table:table-cell"@),
        decreases events@.len() - i,
    {
        proof {
            assert(ev[i as int] == events@[i as int]@);
        }
        match &events[i] {
            XmlEvent::Text(t) => {
                content = match content {
                    Some(mut c) => {
                        c.append(t.as_str());
                        Some(c)
                    },
                    None => Some(t.clone()),
                };
            },
            XmlEvent::End(n) => {
                if str_eq(n.as_str(), "table:table-cell") {
                    proof {
                        lemma_cell_stop_at(ev, from as int, i as int);
                    }
                    return Ok((i + 1, content));
                }
            },
            XmlEvent::Eof => {
                proof {
                    lemma_cell_stop_at(ev, from as int, i as int);
                }
                return Err(OdsError::Xml("cell element never ends".to_owned()));
            },
            _ => {},
        }
        i += 1;
    }
    proof {
        lemma_cell_stop_at(ev, from as int, events@.len() as int);
    }
    Err(OdsError::Xml("cell element never ends".to_owned()))
}

/// A copy of an optional value./// A copy of an optional value.
fn copy_opt_value(v: &Option<Value>) -> (r: Option<Value>)
    requires
        match v {
            Some(x) => x.wf(),
            None => true,
        },
    ensures
        match (&r, v) {
            (Some(a), Some(b)) => a@ == b@ && a.wf(),
            (None, None) => true,
            _ => false,
        },
{
    match v {
        Some(x) => Some(copy_value(x)),
        None => None,
    }
}

/// A copy of a typed value.
pub fn copy_value(v: &Value) -> (r: Value)
    requires
        v.wf(),
    ensures
        r@ == v@,
        r.wf(),
{
    match v {
        Value::Text(s) => Value::Text(s.clone()),
        Value::Number(d) => Value::Number(d.duplicate()),
        Value::Percentage(d) => Value::Percentage(d.duplicate()),
        Value::Currency(c, d) => Value::Currency(c.clone(), d.duplicate()),
        Value::Boolean(b) => Value::Boolean(*b),
        Value::DateTime(dt) => Value::DateTime(*dt),
        Value::TimeDuration(du) => Value::TimeDuration(*du),
    }
}

} // verus!
