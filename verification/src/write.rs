//! The structural serializer.
//!
//! Walks the sparse grid in row-major order and reconstructs the format's
//! repeat-count compression: a forward lookahead to the next occupied cell
//! (or the used extent) sizes the gap after each cell, and a backward delta
//! from the previously written cell decides when rows close, how many empty
//! rows stand between, and how wide a row's leading gap is.  The output is a
//! stream of XML events whose element count grows with the number of
//! occupied cells, never with the size of the gaps.

use vstd::prelude::*;

use crate::book::assoc_at;
use crate::book::find_def;
use crate::book::find_format_named;
use crate::book::keys_sorted;
use crate::book::used_cols;
use crate::book::used_rows;
use crate::book::value_style_ref;
use crate::book::SCell;
use crate::book::SRow;
use crate::book::Sheet;
use crate::book::WorkBook;
use crate::digits::dec_chars;
use crate::digits::push_u64;
use crate::format::render_boolean;
use crate::format::render_datetime;
use crate::format::render_duration;
use crate::format::render_float;
use crate::format::render_str;
use crate::format::parts_have_ampm;
use crate::format::ValueFormat;
use crate::style::Style;
use crate::value::wire_type_chars;
use crate::value::ValModel;
use crate::value::Value;
use crate::value::ValueType;
use crate::xml::attrs_view;
use crate::xml::XmlEvent;
use crate::xml::XmlEventModel;

verus! {

/// The decimal text of a counter.
pub fn u64_text(n: u64) -> (r: String)
    ensures
        r@ == dec_chars(n as nat),
{
    let mut s = String::new();
    push_u64(&mut s, n);
    s
}

/// The attribute list of an empty-row block: a repeat count when more than
/// one row is covered.
pub open spec fn rows_rep_attrs(count: nat) -> Seq<(Seq<char>, Seq<char>)> {
    if count > 1 {
        seq![("table:number-rows-repeated"@, dec_chars(count))]
    } else {
        Seq::empty()
    }
}

/// The three events that stand for `count` fully empty rows of width `mc`.
pub open spec fn empty_rows_events(count: nat, mc: nat) -> Seq<XmlEventModel> {
    seq![
        XmlEventModel::Start("table:table-row"@, rows_rep_attrs(count)),
        XmlEventModel::Empty(
            "table:table-cell"@,
            seq![("table:number-columns-repeated"@, dec_chars(mc))],
        ),
        XmlEventModel::End("table:table-row"@),
    ]
}

/// The attribute list of an occupied row: its style, when one is recorded.
pub open spec fn row_attrs(rows: Seq<(u64, SRow)>, r: nat) -> Seq<(Seq<char>, Seq<char>)> {
    match assoc_at(rows, r as u64) {
        Some(sr) => match sr.style {
            Some(st) => seq![("table:style-name"@, st@)],
            None => Seq::empty(),
        },
        None => Seq::empty(),
    }
}

/// The events that open a row whose first occupied cell sits at column
/// `lead`: the row start, and one gap cell when the lead is not zero.
pub open spec fn row_open_events(rows: Seq<(u64, SRow)>, r: nat, lead: nat) -> Seq<XmlEventModel> {
    let start = seq![XmlEventModel::Start("table:table-row"@, row_attrs(rows, r))];
    if lead > 0 {
        start + seq![
            XmlEventModel::Empty(
                "table:table-cell"@,
                seq![("table:number-columns-repeated"@, dec_chars(lead))],
            ),
        ]
    } else {
        start
    }
}

/// The single event that stands for `g` empty cells.
pub open spec fn gap_events(g: nat) -> Seq<XmlEventModel> {
    seq![
        XmlEventModel::Empty(
            "table:table-cell"@,
            seq![("table:number-columns-repeated"@, dec_chars(g))],
        ),
    ]
}

/// The style attribute a cell writes: its own style, or the workbook's
/// default for the value's kind.
pub open spec fn cell_style_attrs(
    defs: Seq<(ValueType, String)>,
    cell: SCell,
) -> Seq<(Seq<char>, Seq<char>)> {
    match cell@.style {
        Some(st) => seq![("table:style-name"@, st)],
        None => match cell@.value {
            Some(v) => match find_def(defs, crate::value::model_type(v)) {
                Some(st) => seq![("table:style-name"@, st)],
                None => Seq::empty(),
            },
            None => Seq::empty(),
        },
    }
}

/// The formula attribute a cell writes.
pub open spec fn cell_formula_attrs(cell: SCell) -> Seq<(Seq<char>, Seq<char>)> {
    match cell@.formula {
        Some(f) => seq![("table:formula"@, f)],
        None => Seq::empty(),
    }
}

/// The typed wire attributes of a value: its kind marker and its encoded
/// attribute under the kind's own attribute name.
pub open spec fn value_attrs(v: ValModel) -> Seq<(Seq<char>, Seq<char>)> {
    let marker = seq![("office:value-type"@, wire_type_chars(crate::value::model_type(v)))];
    match v {
        ValModel::Text(_) => marker,
        ValModel::Number(d) => marker + seq![
            ("office:value"@, crate::decimal::dec_chars_m(d)),
        ],
        ValModel::Percentage(d) => marker + seq![
            ("office:value"@, crate::decimal::dec_chars_m(d)),
        ],
        ValModel::Currency(c, d) => marker + seq![("office:currency"@, c)] + seq![
            ("office:value"@, crate::decimal::dec_chars_m(d)),
        ],
        ValModel::Boolean(b) => marker + seq![
            (
                "office:boolean-value"@,
                if b {
                    "true"@
                } else {
                    "false"@
                },
            ),
        ],
        ValModel::DateTime(dt) => marker + seq![
            ("office:date-value"@, crate::datetime::datetime_chars(dt)),
        ],
        ValModel::TimeDuration(du) => marker + seq![
            ("office:time-value"@, crate::duration::dur_chars(du)),
        ],
    }
}

/// The full attribute list of an occupied cell.
pub open spec fn cell_attrs(defs: Seq<(ValueType, String)>, cell: SCell) -> Seq<
    (Seq<char>, Seq<char>),
> {
    let base = cell_formula_attrs(cell) + cell_style_attrs(defs, cell);
    match cell@.value {
        Some(v) => base + value_attrs(v),
        None => base,
    }
}

/// The format that renders a cell, resolved through its explicit style.
pub open spec fn resolved_format(
    styles: Seq<Style>,
    formats: Seq<ValueFormat>,
    cell: SCell,
) -> Option<ValueFormat> {
    match cell@.style {
        Some(st) => match value_style_ref(styles, st) {
            Some(vs) => find_format_named(formats, vs),
            None => None,
        },
        None => None,
    }
}

/// The display text of a value under a resolved format, or the built-in
/// fallback text when no format resolves.
pub open spec fn display_text(fmt: Option<ValueFormat>, v: ValModel) -> Seq<char> {
    match fmt {
        Some(f) => match v {
            ValModel::Text(s) => render_str(f.parts_view(), s),
            ValModel::Number(d) => render_float(f.parts_view(), d),
            ValModel::Percentage(d) => render_float(f.parts_view(), shift2(d)),
            ValModel::Currency(_, d) => render_float(f.parts_view(), d),
            ValModel::Boolean(b) => render_boolean(f.parts_view(), b),
            ValModel::DateTime(dt) => render_datetime(
                f.parts_view(),
                dt,
                parts_have_ampm(f.parts_view()),
            ),
            ValModel::TimeDuration(du) => render_duration(
                f.parts_view(),
                du,
                f.truncate_on_overflow,
            ),
        },
        None => match v {
            ValModel::Text(s) => s,
            ValModel::Number(d) => crate::decimal::dec_chars_m(d),
            ValModel::Percentage(d) => crate::decimal::dec_chars_m(shift2(d)),
            ValModel::Currency(c, d) => c + " "@ + crate::decimal::dec_chars_m(d),
            ValModel::Boolean(b) => if b {
                "true"@
            } else {
                "false"@
            },
            ValModel::DateTime(dt) => crate::digits::padded_chars(dt.day as nat, 2) + seq!['.']
                + crate::digits::padded_chars(dt.month as nat, 2) + seq!['.']
                + crate::digits::padded_chars(dt.year as nat, 4),
            ValModel::TimeDuration(du) => crate::duration::dur_display_chars(du),
        },
    }
}

/// A percentage shifted into its displayed scale.
pub open spec fn shift2(d: crate::decimal::DecModel) -> crate::decimal::DecModel {
    crate::decimal::DecModel {
        neg: d.neg,
        int_digits: crate::decimal::strip0u(
            d.int_digits + crate::decimal::pad2(d.frac_digits).take(2),
        ),
        frac_digits: crate::decimal::pad2(d.frac_digits).skip(2),
    }
}

/// The events one occupied cell writes: a bare empty element for a cell with
/// no value, else a typed element holding its display text.
pub open spec fn cell_events(
    styles: Seq<Style>,
    formats: Seq<ValueFormat>,
    defs: Seq<(ValueType, String)>,
    cell: SCell,
) -> Seq<XmlEventModel> {
    match cell@.value {
        None => seq![XmlEventModel::Empty("table:table-cell"@, cell_attrs(defs, cell))],
        Some(v) => seq![
            XmlEventModel::Start("table:table-cell"@, cell_attrs(defs, cell)),
            XmlEventModel::Start("text:p"@, Seq::empty()),
            XmlEventModel::Text(display_text(resolved_format(styles, formats, cell), v)),
            XmlEventModel::End("text:p"@),
            XmlEventModel::End("table:table-cell"@),
        ],
    }
}

/// The row of the grid entry at `i`.
pub open spec fn cur_row(d: Seq<(u64, SCell)>, i: int) -> nat {
    d[i].0 as nat / 4294967296
}

/// The column of the grid entry at `i`.
pub open spec fn cur_col(d: Seq<(u64, SCell)>, i: int) -> nat {
    d[i].0 as nat % 4294967296
}

/// The events the cell at index `i` contributes: closing the previous row
/// when the row advanced, a block for skipped empty rows, the new row's
/// start with its leading gap, the cell itself, and the gap to the next
/// occupied position.
pub open spec fn cell_chunk(
    styles: Seq<Style>,
    formats: Seq<ValueFormat>,
    defs: Seq<(ValueType, String)>,
    rows: Seq<(u64, SRow)>,
    d: Seq<(u64, SCell)>,
    i: int,
    mr: nat,
    mc: nat,
) -> Seq<XmlEventModel> {
    let first = i == 0;
    let lr: nat = if first {
        0
    } else {
        cur_row(d, i - 1)
    };
    let r = cur_row(d, i);
    let c = cur_col(d, i);
    let nr: nat = if i + 1 < d.len() {
        cur_row(d, i + 1)
    } else {
        mr
    };
    let nc: nat = if i + 1 < d.len() {
        cur_col(d, i + 1)
    } else {
        mc
    };
    let bdr = r - lr;
    let fdc: int = if nr > r {
        mc - c
    } else {
        nc - c
    };
    let close: Seq<XmlEventModel> = if bdr > 0 && !first {
        seq![XmlEventModel::End("table:table-row"@)]
    } else {
        Seq::empty()
    };
    let ecount: int = if first {
        bdr
    } else {
        bdr - 1
    };
    let empties: Seq<XmlEventModel> = if ecount > 0 {
        empty_rows_events(ecount as nat, mc)
    } else {
        Seq::empty()
    };
    let open: Seq<XmlEventModel> = if bdr > 0 || first {
        row_open_events(rows, r, c)
    } else {
        Seq::empty()
    };
    let gap: Seq<XmlEventModel> = if fdc > 1 {
        gap_events((fdc - 1) as nat)
    } else {
        Seq::empty()
    };
    close + empties + open + cell_events(styles, formats, defs, d[i].1) + gap
}

/// The events of the first `n` cells of a sheet body.
pub open spec fn body_events_upto(
    styles: Seq<Style>,
    formats: Seq<ValueFormat>,
    defs: Seq<(ValueType, String)>,
    rows: Seq<(u64, SRow)>,
    d: Seq<(u64, SCell)>,
    n: int,
    mr: nat,
    mc: nat,
) -> Seq<XmlEventModel>
    decreases n,
{
    if n <= 0 {
        Seq::empty()
    } else {
        body_events_upto(styles, formats, defs, rows, d, n - 1, mr, mc) + cell_chunk(
            styles,
            formats,
            defs,
            rows,
            d,
            n - 1,
            mr,
            mc,
        )
    }
}

/// The whole cell body of a sheet: every cell's chunk, and the close of the
/// final open row.
pub open spec fn body_events(
    styles: Seq<Style>,
    formats: Seq<ValueFormat>,
    defs: Seq<(ValueType, String)>,
    rows: Seq<(u64, SRow)>,
    d: Seq<(u64, SCell)>,
    mr: nat,
    mc: nat,
) -> Seq<XmlEventModel> {
    let cells = body_events_upto(styles, formats, defs, rows, d, d.len() as int, mr, mc);
    if d.len() > 0 {
        cells + seq![XmlEventModel::End("table:table-row"@)]
    } else {
        cells
    }
}

/// Writes the block standing for fully empty rows.
fn write_empty_rows_before(count: u64, mc: u64, out: &mut Vec<XmlEvent>)
    requires
        count > 0,
    ensures
        final(out)@.map_values(|e: XmlEvent| e@) == old(out)@.map_values(|e: XmlEvent| e@)
            + empty_rows_events(count as nat, mc as nat),
{
    let mut attrs: Vec<(String, String)> = Vec::new();
    if count > 1 {
        attrs.push(("table:number-rows-repeated".to_owned(), u64_text(count)));
    }
    proof {
        assert(attrs_view(attrs@) =~= rows_rep_attrs(count as nat));
    }
    let mut cattrs: Vec<(String, String)> = Vec::new();
    cattrs.push(("table:number-columns-repeated".to_owned(), u64_text(mc)));
    let e1 = XmlEvent::Start("table:table-row".to_owned(), attrs);
    let e2 = XmlEvent::Empty("table:table-cell".to_owned(), cattrs);
    let e3 = XmlEvent::End("table:table-row".to_owned());
    proof {
        assert(e1@ == empty_rows_events(count as nat, mc as nat)[0]);
        assert(e2@ == empty_rows_events(count as nat, mc as nat)[1]) by {
            assert(attrs_view(e2->Empty_1@) =~= seq![
                ("table:number-columns-repeated"@, dec_chars(mc as nat)),
            ]);
        }
        assert(e3@ == empty_rows_events(count as nat, mc as nat)[2]);
    }
    out.push(e1);
    out.push(e2);
    out.push(e3);
    proof {
        assert(out@.map_values(|e: XmlEvent| e@) =~= old(out)@.map_values(|e: XmlEvent| e@)
            + empty_rows_events(count as nat, mc as nat));
    }
}

/// Opens the row holding the next occupied cell, with its leading gap.
fn write_start_current_row(sheet: &Sheet, row: u32, lead: u64, out: &mut Vec<XmlEvent>)
    ensures
        final(out)@.map_values(|e: XmlEvent| e@) == old(out)@.map_values(|e: XmlEvent| e@)
            + row_open_events(sheet.rows@, row as nat, lead as nat),
{
    let mut attrs: Vec<(String, String)> = Vec::new();
    match crate::book::assoc_get(&sheet.rows, row as u64) {
        Some(sr) => match &sr.style {
            Some(st) => {
                attrs.push(("table:style-name".to_owned(), st.clone()));
            },
            None => {},
        },
        None => {},
    }
    proof {
        assert(attrs_view(attrs@) =~= row_attrs(sheet.rows@, row as nat));
    }
    let e1 = XmlEvent::Start("table:table-row".to_owned(), attrs);
    proof {
        assert(e1@ == row_open_events(sheet.rows@, row as nat, lead as nat)[0]);
    }
    out.push(e1);
    if lead > 0 {
        let mut cattrs: Vec<(String, String)> = Vec::new();
        cattrs.push(("table:number-columns-repeated".to_owned(), u64_text(lead)));
        let e2 = XmlEvent::Empty("table:table-cell".to_owned(), cattrs);
        proof {
            assert(e2@ == row_open_events(sheet.rows@, row as nat, lead as nat)[1]) by {
                assert(attrs_view(e2->Empty_1@) =~= seq![
                    ("table:number-columns-repeated"@, dec_chars(lead as nat)),
                ]);
            }
        }
        out.push(e2);
    }
    proof {
        assert(out@.map_values(|e: XmlEvent| e@) =~= old(out)@.map_values(|e: XmlEvent| e@)
            + row_open_events(sheet.rows@, row as nat, lead as nat));
    }
}

/// Writes the single element standing for `gap` empty cells.
fn write_empty_cells(gap: u64, out: &mut Vec<XmlEvent>)
    requires
        gap > 0,
    ensures
        final(out)@.map_values(|e: XmlEvent| e@) == old(out)@.map_values(|e: XmlEvent| e@)
            + gap_events(gap as nat),
{
    let mut cattrs: Vec<(String, String)> = Vec::new();
    cattrs.push(("table:number-columns-repeated".to_owned(), u64_text(gap)));
    let e = XmlEvent::Empty("table:table-cell".to_owned(), cattrs);
    proof {
        assert(e@ == gap_events(gap as nat)[0]) by {
            assert(attrs_view(e->Empty_1@) =~= seq![
                ("table:number-columns-repeated"@, dec_chars(gap as nat)),
            ]);
        }
    }
    out.push(e);
    proof {
        assert(out@.map_values(|e: XmlEvent| e@) =~= old(out)@.map_values(|e: XmlEvent| e@)
            + gap_events(gap as nat));
    }
}

/// Writes the cell body of one sheet: the two-pointer walk over the sorted
/// grid that reconstructs the repeat-count compression.
#[verifier::rlimit(100)]
pub fn write_sheet_body(book: &WorkBook, sheet: &Sheet, out: &mut Vec<XmlEvent>)
    requires
        sheet.wf(),
    ensures
        final(out)@.map_values(|e: XmlEvent| e@) == old(out)@.map_values(|e: XmlEvent| e@)
            + body_events(
            book.styles@,
            book.formats@,
            book.defs@,
            sheet.rows@,
            sheet.data@,
            used_rows(sheet.data@),
            used_cols(sheet.data@),
        ),
{
    let (mr, mc) = sheet.used_grid_size();
    let ghost styles = book.styles@;
    let ghost formats = book.formats@;
    let ghost defs = book.defs@;
    let ghost rows = sheet.rows@;
    let ghost d = sheet.data@;
    let mut i: usize = 0;
    let mut last_r: u64 = 0;
    let mut last_c: u64 = 0;
    while i < sheet.data.len()
        invariant
            sheet.wf(),
            mr as nat == used_rows(sheet.data@),
            mc as nat == used_cols(sheet.data@),
            styles == book.styles@,
            formats == book.formats@,
            defs == book.defs@,
            rows == sheet.rows@,
            d == sheet.data@,
            i <= d.len(),
            i == 0 ==> last_r == 0 && last_c == 0,
            i > 0 ==> last_r as nat == cur_row(d, i - 1) && last_c as nat == cur_col(d, i - 1),
            out@.map_values(|e: XmlEvent| e@) == old(out)@.map_values(|e: XmlEvent| e@)
                + body_events_upto(styles, formats, defs, rows, d, i as int, mr as nat, mc as nat),
        decreases d.len() - i,
    {
        let ghost pre_events = out@.map_values(|e: XmlEvent| e@);
        let key = sheet.data[i].0;
        let r = key / crate::book::COLUMN_SPAN;
        let c = key % crate::book::COLUMN_SPAN;
        let (nr, nc): (u64, u64) = if i + 1 < sheet.data.len() {
            let nkey = sheet.data[i + 1].0;
            (nkey / crate::book::COLUMN_SPAN, nkey % crate::book::COLUMN_SPAN)
        } else {
            (mr, mc)
        };
        proof {
            if i > 0 {
                assert(d[i as int - 1].0 < d[i as int].0);
                crate::book::lemma_pos_key_div_order(d[i as int - 1].0, d[i as int].0);
            }
            if i + 1 < d.len() {
                assert(d[i as int].0 < d[i as int + 1].0);
            }
            lemma_used_bounds(d, i as int);
        }
        let first = i == 0;
        let bdr = r - last_r;
        // Close the open row when the row index advanced.
        if bdr > 0 && !first {
            out.push(XmlEvent::End("table:table-row".to_owned()));
        }
        // A block for the skipped fully empty rows.
        if first && bdr > 0 {
            write_empty_rows_before(bdr, mc, out);
        } else if bdr > 1 {
            write_empty_rows_before(bdr - 1, mc, out);
        }
        // Open the new row, with its leading gap.
        if bdr > 0 || first {
            proof {
                assert(r <= 0xFFFFFFFFu64);
                assert(c < 4294967296);
            }
            write_start_current_row(sheet, r as u32, c, out);
        }
        // The occupied cell itself.
        write_cell(book, &sheet.data[i].1, out);
        // The gap to the next occupied position, or to the used extent.
        let fdc: u64 = if nr > r {
            mc - c
        } else {
            nc - c
        };
        if fdc > 1 {
            write_empty_cells(fdc - 1, out);
        }
        proof {
            assert(out@.map_values(|e: XmlEvent| e@) =~= pre_events + cell_chunk(
                styles,
                formats,
                defs,
                rows,
                d,
                i as int,
                mr as nat,
                mc as nat,
            ));
            assert(body_events_upto(styles, formats, defs, rows, d, i + 1, mr as nat, mc as nat)
                == body_events_upto(styles, formats, defs, rows, d, i as int, mr as nat, mc as nat)
                + cell_chunk(styles, formats, defs, rows, d, i as int, mr as nat, mc as nat));
        }
        last_r = r;
        last_c = c;
        i += 1;
    }
    let ghost upto_all = body_events_upto(
        styles,
        formats,
        defs,
        rows,
        d,
        d.len() as int,
        mr as nat,
        mc as nat,
    );
    proof {
        assert(out@.map_values(|e: XmlEvent| e@) == old(out)@.map_values(|e: XmlEvent| e@)
            + upto_all);
    }
    if sheet.data.len() > 0 {
        let end_row = XmlEvent::End("table:table-row".to_owned());
        let ghost pre_all = out@.map_values(|e: XmlEvent| e@);
        let ghost pre_vec = out@;
        proof {
            assert(end_row@ == XmlEventModel::End("table:table-row"@));
        }
        out.push(end_row);
        proof {
            assert(out@ == pre_vec.push(end_row));
            assert(out@.map_values(|e: XmlEvent| e@) =~= pre_all + seq![
                XmlEventModel::End("table:table-row"@),
            ]) by {
                assert(forall|j: int|
                    0 <= j < pre_vec.len() ==> #[trigger] pre_all[j] == pre_vec.map_values(
                        |e: XmlEvent| e@,
                    )[j]);
            }
            assert(out@.map_values(|e: XmlEvent| e@) =~= old(out)@.map_values(
                |e: XmlEvent| e@,
            ) + (upto_all + seq![XmlEventModel::End("table:table-row"@)]));
            assert(body_events(styles, formats, defs, rows, d, mr as nat, mc as nat) == upto_all
                + seq![XmlEventModel::End("table:table-row"@)]);
        }
    } else {
        proof {
            assert(body_events(styles, formats, defs, rows, d, mr as nat, mc as nat) == upto_all);
        }
    }
}

/// The attributes of one column declaration: its repeat width, its style,
/// and its default cell style.
pub open spec fn column_attrs(cols: Seq<(u64, crate::book::SColumn)>, i: int, mc: nat) -> Seq<
    (Seq<char>, Seq<char>),
> {
    let c = cols[i].0 as nat;
    let next: nat = if i + 1 < cols.len() {
        cols[i + 1].0 as nat
    } else {
        mc
    };
    let rep: Seq<(Seq<char>, Seq<char>)> = if next > c + 1 {
        seq![("table:number-columns-repeated"@, dec_chars((next - c) as nat))]
    } else {
        Seq::empty()
    };
    let st: Seq<(Seq<char>, Seq<char>)> = match cols[i].1@.style {
        Some(s) => seq![("table:style-name"@, s)],
        None => Seq::empty(),
    };
    let def: Seq<(Seq<char>, Seq<char>)> = match cols[i].1@.def_cell_style {
        Some(s) => seq![("table:default-cell-style-name"@, s)],
        None => Seq::empty(),
    };
    rep + st + def
}

/// The events of the first `n` column declarations.
pub open spec fn column_events_upto(
    cols: Seq<(u64, crate::book::SColumn)>,
    n: int,
    mc: nat,
) -> Seq<XmlEventModel>
    decreases n,
{
    if n <= 0 {
        Seq::empty()
    } else {
        column_events_upto(cols, n - 1, mc) + seq![
            XmlEventModel::Empty("table:table-column"@, column_attrs(cols, n - 1, mc)),
        ]
    }
}

/// Writes the column declarations: each column's repeat count reaches to
/// the next declared column, or to the used extent for the last one.
pub fn write_table_columns(sheet: &Sheet, mc: u64, out: &mut Vec<XmlEvent>)
    requires
        sheet.wf(),
    ensures
        final(out)@.map_values(|e: XmlEvent| e@) == old(out)@.map_values(|e: XmlEvent| e@)
            + column_events_upto(sheet.columns@, sheet.columns@.len() as int, mc as nat),
{
    let ghost cols = sheet.columns@;
    let mut i: usize = 0;
    while i < sheet.columns.len()
        invariant
            sheet.wf(),
            cols == sheet.columns@,
            i <= cols.len(),
            out@.map_values(|e: XmlEvent| e@) == old(out)@.map_values(|e: XmlEvent| e@)
                + column_events_upto(cols, i as int, mc as nat),
        decreases cols.len() - i,
    {
        let c = sheet.columns[i].0;
        let next: u64 = if i + 1 < sheet.columns.len() {
            sheet.columns[i + 1].0
        } else {
            mc
        };
        let mut attrs: Vec<(String, String)> = Vec::new();
        if next > c + 1 {
            proof {
                if i + 1 < cols.len() {
                    assert(cols[i as int].0 < cols[i as int + 1].0);
                }
            }
            attrs.push(("table:number-columns-repeated".to_owned(), u64_text(next - c)));
        }
        match &sheet.columns[i].1.style {
            Some(s) => {
                attrs.push(("table:style-name".to_owned(), s.clone()));
            },
            None => {},
        }
        match &sheet.columns[i].1.def_cell_style {
            Some(s) => {
                attrs.push(("table:default-cell-style-name".to_owned(), s.clone()));
            },
            None => {},
        }
        proof {
            assert(attrs_view(attrs@) =~= column_attrs(cols, i as int, mc as nat));
        }
        let e = XmlEvent::Empty("table:table-column".to_owned(), attrs);
        proof {
            assert(e@ == XmlEventModel::Empty("table:table-column"@, column_attrs(
                cols,
                i as int,
                mc as nat,
            )));
        }
        let ghost pre_all = out@.map_values(|e: XmlEvent| e@);
        let ghost pre_vec = out@;
        out.push(e);
        proof {
            assert(out@ == pre_vec.push(e));
            assert(out@.map_values(|e: XmlEvent| e@) =~= pre_all + seq![e@]) by {
                assert(forall|j: int|
                    0 <= j < pre_vec.len() ==> #[trigger] pre_all[j] == pre_vec.map_values(
                        |e: XmlEvent| e@,
                    )[j]);
            }
            assert(out@.map_values(|e: XmlEvent| e@) =~= old(out)@.map_values(|e: XmlEvent| e@)
                + column_events_upto(cols, i + 1, mc as nat));
        }
        i += 1;
    }
}

/// The attributes of a sheet's table element.
pub open spec fn table_attrs(sheet: Sheet) -> Seq<(Seq<char>, Seq<char>)> {
    let name = seq![("table:name"@, sheet.name@)];
    match sheet.style {
        Some(st) => name + seq![("table:style-name"@, st@)],
        None => name,
    }
}

/// The full event run of one sheet.
pub open spec fn sheet_events(
    styles: Seq<Style>,
    formats: Seq<ValueFormat>,
    defs: Seq<(ValueType, String)>,
    sheet: Sheet,
) -> Seq<XmlEventModel> {
    seq![XmlEventModel::Start("table:table"@, table_attrs(sheet))] + column_events_upto(
        sheet.columns@,
        sheet.columns@.len() as int,
        used_cols(sheet.data@),
    ) + body_events(
        styles,
        formats,
        defs,
        sheet.rows@,
        sheet.data@,
        used_rows(sheet.data@),
        used_cols(sheet.data@),
    ) + seq![XmlEventModel::End("table:table"@)]
}

/// Writes one sheet: its table element, its column declarations, and its
/// compressed cell body.
pub fn write_sheet(book: &WorkBook, sheet: &Sheet, out: &mut Vec<XmlEvent>)
    requires
        sheet.wf(),
    ensures
        final(out)@.map_values(|e: XmlEvent| e@) == old(out)@.map_values(|e: XmlEvent| e@)
            + sheet_events(book.styles@, book.formats@, book.defs@, *sheet),
{
    let mut attrs: Vec<(String, String)> = Vec::new();
    attrs.push(("table:name".to_owned(), sheet.name.clone()));
    match &sheet.style {
        Some(st) => {
            attrs.push(("table:style-name".to_owned(), st.clone()));
        },
        None => {},
    }
    proof {
        assert(attrs_view(attrs@) =~= table_attrs(*sheet));
    }
    let e = XmlEvent::Start("table:table".to_owned(), attrs);
    proof {
        assert(e@ == XmlEventModel::Start("table:table"@, table_attrs(*sheet)));
    }
    out.push(e);
    let (_, mc) = sheet.used_grid_size();
    write_table_columns(sheet, mc, out);
    write_sheet_body(book, sheet, out);
    let end_table = XmlEvent::End("table:table".to_owned());
    proof {
        assert(end_table@ == XmlEventModel::End("table:table"@));
    }
    let ghost pre_all = out@.map_values(|e: XmlEvent| e@);
    let ghost pre_vec = out@;
    out.push(end_table);
    proof {
        assert(out@ == pre_vec.push(end_table));
        assert(out@.map_values(|e: XmlEvent| e@) =~= pre_all + seq![
            XmlEventModel::End("table:table"@),
        ]) by {
            assert(forall|j: int|
                0 <= j < pre_vec.len() ==> #[trigger] pre_all[j] == pre_vec.map_values(
                    |e: XmlEvent| e@,
                )[j]);
        }
        assert(out@.map_values(|e: XmlEvent| e@) =~= old(out)@.map_values(|e: XmlEvent| e@)
            + sheet_events(book.styles@, book.formats@, book.defs@, *sheet));
    }
}

/// Appends one event, extending the stream's model by its view.
fn push_event(out: &mut Vec<XmlEvent>, ev: XmlEvent)
    ensures
        final(out)@.map_values(|e: XmlEvent| e@) == old(out)@.map_values(|e: XmlEvent| e@)
            + seq![ev@],
{
    let ghost pre_all = out@.map_values(|e: XmlEvent| e@);
    let ghost pre_vec = out@;
    let ghost model = ev@;
    out.push(ev);
    proof {
        assert(out@ == pre_vec.push(out@.last()));
        assert(out@.last()@ == model);
        assert(out@.map_values(|e: XmlEvent| e@) =~= pre_all + seq![model]) by {
            assert(forall|j: int|
                0 <= j < pre_vec.len() ==> #[trigger] pre_all[j] == pre_vec.map_values(
                    |e: XmlEvent| e@,
                )[j]);
        }
    }
}

/// A start event with no attributes.
fn start_plain(name: &str) -> (r: XmlEvent)
    ensures
        r@ == XmlEventModel::Start(name@, Seq::empty()),
{
    let r = XmlEvent::Start(name.to_owned(), Vec::new());
    proof {
        assert(attrs_view(Seq::<(String, String)>::empty()) =~= Seq::<(
            Seq<char>,
            Seq<char>,
        )>::empty());
    }
    r
}

/// An end event.
fn end_plain(name: &str) -> (r: XmlEvent)
    ensures
        r@ == XmlEventModel::End(name@),
{
    XmlEvent::End(name.to_owned())
}

/// The attribute pairs of a property bag, in order.
fn map_attrs_into(m: &crate::attrmap::AttrMap2, attrs: &mut Vec<(String, String)>)
    ensures
        attrs_view(final(attrs)@) == attrs_view(old(attrs)@) + m@,
{
    let mut i: usize = 0;
    while i < m.len()
        invariant
            i <= m@.len(),
            attrs_view(attrs@) == attrs_view(old(attrs)@) + m@.take(i as int),
        decreases m@.len() - i,
    {
        let (k, v) = m.entry(i);
        let pair = (k.clone(), v.clone());
        let ghost pre = attrs_view(attrs@);
        let ghost prev = attrs@;
        let ghost kv = (pair.0@, pair.1@);
        attrs.push(pair);
        proof {
            assert(attrs@ == prev.push(attrs@.last()));
            assert(attrs_view(attrs@) =~= pre + seq![kv]) by {
                assert(forall|j: int|
                    0 <= j < prev.len() ==> #[trigger] pre[j] == attrs_view(prev)[j]);
            }
            assert(m@.take(i + 1) =~= m@.take(i as int).push(m@[i as int]));
            assert(attrs_view(attrs@) =~= attrs_view(old(attrs)@) + m@.take(i + 1));
        }
        i += 1;
    }
    proof {
        assert(m@.take(m@.len() as int) =~= m@);
    }
}

/// The wire name of a style family.
pub open spec fn family_chars(f: crate::style::Family) -> Seq<char> {
    match f {
        crate::style::Family::Table => "table"@,
        crate::style::Family::TableColumn => "table-column"@,
        crate::style::Family::TableRow => "table-row"@,
        crate::style::Family::TableCell => "table-cell"@,
        crate::style::Family::Unassigned => ""@,
    }
}

/// The attributes of a style element.
pub open spec fn style_attrs(st: Style) -> Seq<(Seq<char>, Seq<char>)> {
    let base = seq![("style:name"@, st.name@), ("style:family"@, family_chars(st.family))];
    let disp: Seq<(Seq<char>, Seq<char>)> = match st.display_name {
        Some(d) => seq![("style:display-name"@, d@)],
        None => Seq::empty(),
    };
    let par: Seq<(Seq<char>, Seq<char>)> = match st.parent {
        Some(p) => seq![("style:parent-style-name"@, p@)],
        None => Seq::empty(),
    };
    let vs: Seq<(Seq<char>, Seq<char>)> = match st.value_style {
        Some(v) => seq![("style:data-style-name"@, v@)],
        None => Seq::empty(),
    };
    base + disp + par + vs
}

/// The single properties event of one bag, when the bag is present.
pub open spec fn prp_events(tag: Seq<char>, m: Option<crate::attrmap::AttrMap2>) -> Seq<
    XmlEventModel,
> {
    match m {
        Some(a) => seq![XmlEventModel::Empty(tag, a@)],
        None => Seq::empty(),
    }
}

/// The events of one cosmetic style.
pub open spec fn style_events(st: Style) -> Seq<XmlEventModel> {
    seq![XmlEventModel::Start("style:style"@, style_attrs(st))] + prp_events(
        "style:table-cell-properties"@,
        st.table_cell_prp,
    ) + prp_events("style:table-column-properties"@, st.table_col_prp) + prp_events(
        "style:table-row-properties"@,
        st.table_row_prp,
    ) + prp_events("style:table-properties"@, st.table_prp) + prp_events(
        "style:paragraph-properties"@,
        st.paragraph_prp,
    ) + prp_events("style:text-properties"@, st.text_prp) + seq![
        XmlEventModel::End("style:style"@),
    ]
}

/// The events of the first `n` styles that came from document content.
pub open spec fn styles_events_upto(s: Seq<Style>, n: int) -> Seq<XmlEventModel>
    decreases n,
{
    if n <= 0 {
        Seq::empty()
    } else if s[n - 1].origin == crate::style::Origin::Content {
        styles_events_upto(s, n - 1) + style_events(s[n - 1])
    } else {
        styles_events_upto(s, n - 1)
    }
}

/// Writes one properties bag when present.
fn write_prp(tag: &str, m: &Option<crate::attrmap::AttrMap2>, out: &mut Vec<XmlEvent>)
    ensures
        final(out)@.map_values(|e: XmlEvent| e@) == old(out)@.map_values(|e: XmlEvent| e@)
            + prp_events(tag@, *m),
{
    match m {
        Some(a) => {
            let mut attrs: Vec<(String, String)> = Vec::new();
            map_attrs_into(a, &mut attrs);
            proof {
                assert(attrs_view(attrs@) =~= a@);
            }
            let ev = XmlEvent::Empty(tag.to_owned(), attrs);
            proof {
                assert(ev@ == prp_events(tag@, *m)[0]);
            }
            push_event(out, ev);
            proof {
                assert(seq![ev@] =~= prp_events(tag@, *m));
            }
        },
        None => {
            proof {
                assert(out@.map_values(|e: XmlEvent| e@) =~= out@.map_values(|e: XmlEvent| e@)
                    + prp_events(tag@, *m));
            }
        },
    }
}

/// Writes the cosmetic styles that came from document content.
#[verifier::rlimit(100)]
pub fn write_styles(styles: &Vec<Style>, out: &mut Vec<XmlEvent>)
    ensures
        final(out)@.map_values(|e: XmlEvent| e@) == old(out)@.map_values(|e: XmlEvent| e@)
            + styles_events_upto(styles@, styles@.len() as int),
{
    let mut i: usize = 0;
    while i < styles.len()
        invariant
            i <= styles@.len(),
            out@.map_values(|e: XmlEvent| e@) == old(out)@.map_values(|e: XmlEvent| e@)
                + styles_events_upto(styles@, i as int),
        decreases styles@.len() - i,
    {
        let st = &styles[i];
        if matches!(st.origin, crate::style::Origin::Content) {
            let ghost pre_all = out@.map_values(|e: XmlEvent| e@);
            let mut attrs: Vec<(String, String)> = Vec::new();
            attrs.push(("style:name".to_owned(), st.name.clone()));
            let family = match st.family {
                crate::style::Family::Table => "table",
                crate::style::Family::TableColumn => "table-column",
                crate::style::Family::TableRow => "table-row",
                crate::style::Family::TableCell => "table-cell",
                crate::style::Family::Unassigned => "",
            };
            attrs.push(("style:family".to_owned(), family.to_owned()));
            match &st.display_name {
                Some(d) => {
                    attrs.push(("style:display-name".to_owned(), d.clone()));
                },
                None => {},
            }
            match &st.parent {
                Some(p) => {
                    attrs.push(("style:parent-style-name".to_owned(), p.clone()));
                },
                None => {},
            }
            match &st.value_style {
                Some(v) => {
                    attrs.push(("style:data-style-name".to_owned(), v.clone()));
                },
                None => {},
            }
            proof {
                assert(attrs_view(attrs@) =~= style_attrs(*st));
            }
            let ev = XmlEvent::Start("style:style".to_owned(), attrs);
            proof {
                assert(ev@ == XmlEventModel::Start("style:style"@, style_attrs(*st)));
            }
            push_event(out, ev);
            write_prp("style:table-cell-properties", &st.table_cell_prp, out);
            write_prp("style:table-column-properties", &st.table_col_prp, out);
            write_prp("style:table-row-properties", &st.table_row_prp, out);
            write_prp("style:table-properties", &st.table_prp, out);
            write_prp("style:paragraph-properties", &st.paragraph_prp, out);
            write_prp("style:text-properties", &st.text_prp, out);
            push_event(out, end_plain("style:style"));
            proof {
                assert(out@.map_values(|e: XmlEvent| e@) =~= pre_all + style_events(*st));
                assert(out@.map_values(|e: XmlEvent| e@) =~= old(out)@.map_values(
                    |e: XmlEvent| e@,
                ) + styles_events_upto(styles@, i + 1));
            }
        } else {
            proof {
                assert(styles_events_upto(styles@, i + 1) == styles_events_upto(
                    styles@,
                    i as int,
                ));
            }
        }
        i += 1;
    }
}

/// The wire element name of a value format's kind.
pub open spec fn format_tag(vt: ValueType) -> Seq<char> {
    match vt {
        ValueType::Boolean => "number:boolean-style"@,
        ValueType::Number => "number:number-style"@,
        ValueType::Text => "number:text-style"@,
        ValueType::TimeDuration => "number:time-style"@,
        ValueType::Percentage => "number:percentage-style"@,
        ValueType::Currency => "number:currency-style"@,
        ValueType::DateTime => "number:date-style"@,
    }
}

/// The wire element name of a format part's kind.
pub open spec fn part_tag(ft: crate::format::FormatType) -> Seq<char> {
    match ft {
        crate::format::FormatType::Boolean => "number:boolean"@,
        crate::format::FormatType::Number => "number:number"@,
        crate::format::FormatType::Scientific => "number:scientific-number"@,
        crate::format::FormatType::CurrencySymbol => "number:currency-symbol"@,
        crate::format::FormatType::Day => "number:day"@,
        crate::format::FormatType::Month => "number:month"@,
        crate::format::FormatType::Year => "number:year"@,
        crate::format::FormatType::Era => "number:era"@,
        crate::format::FormatType::DayOfWeek => "number:day-of-week"@,
        crate::format::FormatType::WeekOfYear => "number:week-of-year"@,
        crate::format::FormatType::Quarter => "number:quarter"@,
        crate::format::FormatType::Hours => "number:hours"@,
        crate::format::FormatType::Minutes => "number:minutes"@,
        crate::format::FormatType::Seconds => "number:seconds"@,
        crate::format::FormatType::Fraction => "number:fraction"@,
        crate::format::FormatType::AmPm => "number:am-pm"@,
        crate::format::FormatType::EmbeddedText => "number:embedded-text"@,
        crate::format::FormatType::Text => "number:text"@,
        crate::format::FormatType::TextContent => "number:text-content"@,
        crate::format::FormatType::StyleText => "style:text"@,
        crate::format::FormatType::StyleMap => "style:map"@,
    }
}

/// The events of one format part: literal parts hold their content between
/// a start and an end, everything else is a single empty element.
pub open spec fn part_events(p: crate::format::FormatPart) -> Seq<XmlEventModel> {
    if p.ftype == crate::format::FormatType::Text || p.ftype
        == crate::format::FormatType::CurrencySymbol {
        let open = seq![XmlEventModel::Start(part_tag(p.ftype), p.prp@)];
        let text: Seq<XmlEventModel> = match p@.content {
            Some(c) => seq![XmlEventModel::Text(c)],
            None => Seq::empty(),
        };
        open + text + seq![XmlEventModel::End(part_tag(p.ftype))]
    } else {
        seq![XmlEventModel::Empty(part_tag(p.ftype), p.prp@)]
    }
}

/// The events of the first `n` parts of a format.
pub open spec fn parts_events_upto(parts: Seq<crate::format::FormatPart>, n: int) -> Seq<
    XmlEventModel,
>
    decreases n,
{
    if n <= 0 {
        Seq::empty()
    } else {
        parts_events_upto(parts, n - 1) + part_events(parts[n - 1])
    }
}

/// The attributes of a format element: its name and its own properties.
pub open spec fn format_attrs(f: ValueFormat) -> Seq<(Seq<char>, Seq<char>)> {
    let name = seq![("style:name"@, f.name@)];
    match f.prp {
        Some(a) => name + a@,
        None => name,
    }
}

/// The events of one value format.
pub open spec fn format_events(f: ValueFormat) -> Seq<XmlEventModel> {
    seq![XmlEventModel::Start(format_tag(f.v_type), format_attrs(f))] + parts_events_upto(
        f.parts@,
        f.parts@.len() as int,
    ) + seq![XmlEventModel::End(format_tag(f.v_type))]
}

/// The events of the first `n` formats that came from document content.
pub open spec fn formats_events_upto(s: Seq<ValueFormat>, n: int) -> Seq<XmlEventModel>
    decreases n,
{
    if n <= 0 {
        Seq::empty()
    } else if s[n - 1].origin == crate::style::Origin::Content {
        formats_events_upto(s, n - 1) + format_events(s[n - 1])
    } else {
        formats_events_upto(s, n - 1)
    }
}

/// The wire element name of a format part, decided at run time.
fn part_tag_x(ft: crate::format::FormatType) -> (r: &'static str)
    ensures
        r@ == part_tag(ft),
{
    match ft {
        crate::format::FormatType::Boolean => "number:boolean",
        crate::format::FormatType::Number => "number:number",
        crate::format::FormatType::Scientific => "number:scientific-number",
        crate::format::FormatType::CurrencySymbol => "number:currency-symbol",
        crate::format::FormatType::Day => "number:day",
        crate::format::FormatType::Month => "number:month",
        crate::format::FormatType::Year => "number:year",
        crate::format::FormatType::Era => "number:era",
        crate::format::FormatType::DayOfWeek => "number:day-of-week",
        crate::format::FormatType::WeekOfYear => "number:week-of-year",
        crate::format::FormatType::Quarter => "number:quarter",
        crate::format::FormatType::Hours => "number:hours",
        crate::format::FormatType::Minutes => "number:minutes",
        crate::format::FormatType::Seconds => "number:seconds",
        crate::format::FormatType::Fraction => "number:fraction",
        crate::format::FormatType::AmPm => "number:am-pm",
        crate::format::FormatType::EmbeddedText => "number:embedded-text",
        crate::format::FormatType::Text => "number:text",
        crate::format::FormatType::TextContent => "number:text-content",
        crate::format::FormatType::StyleText => "style:text",
        crate::format::FormatType::StyleMap => "style:map",
    }
}

/// Writes the value formats that came from document content.
pub fn write_value_styles(formats: &Vec<ValueFormat>, out: &mut Vec<XmlEvent>)
    ensures
        final(out)@.map_values(|e: XmlEvent| e@) == old(out)@.map_values(|e: XmlEvent| e@)
            + formats_events_upto(formats@, formats@.len() as int),
{
    let mut i: usize = 0;
    while i < formats.len()
        invariant
            i <= formats@.len(),
            out@.map_values(|e: XmlEvent| e@) == old(out)@.map_values(|e: XmlEvent| e@)
                + formats_events_upto(formats@, i as int),
        decreases formats@.len() - i,
    {
        let f = &formats[i];
        if matches!(f.origin, crate::style::Origin::Content) {
            let ghost pre_all = out@.map_values(|e: XmlEvent| e@);
            let tag = match f.v_type {
                ValueType::Boolean => "number:boolean-style",
                ValueType::Number => "number:number-style",
                ValueType::Text => "number:text-style",
                ValueType::TimeDuration => "number:time-style",
                ValueType::Percentage => "number:percentage-style",
                ValueType::Currency => "number:currency-style",
                ValueType::DateTime => "number:date-style",
            };
            let mut attrs: Vec<(String, String)> = Vec::new();
            attrs.push(("style:name".to_owned(), f.name.clone()));
            match &f.prp {
                Some(a) => {
                    map_attrs_into(a, &mut attrs);
                },
                None => {},
            }
            proof {
                assert(attrs_view(attrs@) =~= format_attrs(*f));
            }
            let ev = XmlEvent::Start(tag.to_owned(), attrs);
            proof {
                assert(ev@ == XmlEventModel::Start(format_tag(f.v_type), format_attrs(*f)));
            }
            push_event(out, ev);
            let ghost mid_all = out@.map_values(|e: XmlEvent| e@);
            let mut j: usize = 0;
            while j < f.parts.len()
                invariant
                    j <= f.parts@.len(),
                    out@.map_values(|e: XmlEvent| e@) == mid_all + parts_events_upto(
                        f.parts@,
                        j as int,
                    ),
                decreases f.parts@.len() - j,
            {
                let p = &f.parts[j];
                let ptag = part_tag_x(p.ftype);
                let mut pattrs: Vec<(String, String)> = Vec::new();
                map_attrs_into(&p.prp, &mut pattrs);
                proof {
                    assert(attrs_view(pattrs@) =~= p.prp@);
                }
                let literal = matches!(p.ftype, crate::format::FormatType::Text) || matches!(
                    p.ftype,
                    crate::format::FormatType::CurrencySymbol,
                );
                if literal {
                    let ev1 = XmlEvent::Start(ptag.to_owned(), pattrs);
                    proof {
                        assert(ev1@ == XmlEventModel::Start(part_tag(p.ftype), p.prp@));
                    }
                    push_event(out, ev1);
                    match &p.content {
                        Some(c) => {
                            push_event(out, XmlEvent::Text(c.clone()));
                        },
                        None => {},
                    }
                    push_event(out, end_plain(ptag));
                } else {
                    let ev1 = XmlEvent::Empty(ptag.to_owned(), pattrs);
                    proof {
                        assert(ev1@ == XmlEventModel::Empty(part_tag(p.ftype), p.prp@));
                    }
                    push_event(out, ev1);
                }
                proof {
                    assert(out@.map_values(|e: XmlEvent| e@) =~= mid_all + (parts_events_upto(
                        f.parts@,
                        j as int,
                    ) + part_events(f.parts@[j as int])));
                    assert(parts_events_upto(f.parts@, j + 1) == parts_events_upto(
                        f.parts@,
                        j as int,
                    ) + part_events(f.parts@[j as int]));
                }
                j += 1;
            }
            push_event(out, end_plain(tag));
            proof {
                assert(out@.map_values(|e: XmlEvent| e@) =~= pre_all + format_events(*f));
                assert(out@.map_values(|e: XmlEvent| e@) =~= old(out)@.map_values(
                    |e: XmlEvent| e@,
                ) + formats_events_upto(formats@, i + 1));
            }
        } else {
            proof {
                assert(formats_events_upto(formats@, i + 1) == formats_events_upto(
                    formats@,
                    i as int,
                ));
            }
        }
        i += 1;
    }
}

/// The attributes of one font declaration.
pub open spec fn font_attrs(f: crate::style::FontDecl) -> Seq<(Seq<char>, Seq<char>)> {
    let name = seq![("style:name"@, f.name@)];
    match f.prp {
        Some(a) => name + a@,
        None => name,
    }
}

/// The events of the first `n` fonts that came from document content.
pub open spec fn fonts_events_upto(s: Seq<crate::style::FontDecl>, n: int) -> Seq<XmlEventModel>
    decreases n,
{
    if n <= 0 {
        Seq::empty()
    } else if s[n - 1].origin == crate::style::Origin::Content {
        fonts_events_upto(s, n - 1) + seq![
            XmlEventModel::Empty("style:font-face"@, font_attrs(s[n - 1])),
        ]
    } else {
        fonts_events_upto(s, n - 1)
    }
}

/// Writes the font declarations that came from document content.
pub fn write_font_decl(fonts: &Vec<crate::style::FontDecl>, out: &mut Vec<XmlEvent>)
    ensures
        final(out)@.map_values(|e: XmlEvent| e@) == old(out)@.map_values(|e: XmlEvent| e@)
            + fonts_events_upto(fonts@, fonts@.len() as int),
{
    let mut i: usize = 0;
    while i < fonts.len()
        invariant
            i <= fonts@.len(),
            out@.map_values(|e: XmlEvent| e@) == old(out)@.map_values(|e: XmlEvent| e@)
                + fonts_events_upto(fonts@, i as int),
        decreases fonts@.len() - i,
    {
        let f = &fonts[i];
        if matches!(f.origin, crate::style::Origin::Content) {
            let mut attrs: Vec<(String, String)> = Vec::new();
            attrs.push(("style:name".to_owned(), f.name.clone()));
            match &f.prp {
                Some(a) => {
                    map_attrs_into(a, &mut attrs);
                },
                None => {},
            }
            proof {
                assert(attrs_view(attrs@) =~= font_attrs(*f));
            }
            let ev = XmlEvent::Empty("style:font-face".to_owned(), attrs);
            proof {
                assert(ev@ == XmlEventModel::Empty("style:font-face"@, font_attrs(*f)));
            }
            push_event(out, ev);
            proof {
                assert(out@.map_values(|e: XmlEvent| e@) =~= old(out)@.map_values(
                    |e: XmlEvent| e@,
                ) + fonts_events_upto(fonts@, i + 1));
            }
        } else {
            proof {
                assert(fonts_events_upto(fonts@, i + 1) == fonts_events_upto(fonts@, i as int));
            }
        }
        i += 1;
    }
}

/// The events of the first `n` sheets.
pub open spec fn sheets_events_upto(
    styles: Seq<Style>,
    formats: Seq<ValueFormat>,
    defs: Seq<(ValueType, String)>,
    sheets: Seq<Sheet>,
    n: int,
) -> Seq<XmlEventModel>
    decreases n,
{
    if n <= 0 {
        Seq::empty()
    } else {
        sheets_events_upto(styles, formats, defs, sheets, n - 1) + sheet_events(
            styles,
            formats,
            defs,
            sheets[n - 1],
        )
    }
}

/// The namespace declarations of the content document.
pub open spec fn content_ns_attrs() -> Seq<(Seq<char>, Seq<char>)> {
    seq![
        ("xmlns:office"@, "urn:oasis:names:tc:opendocument:xmlns:office:1.0"@),
        ("xmlns:table"@, "urn:oasis:names:tc:opendocument:xmlns:table:1.0"@),
        ("xmlns:style"@, "urn:oasis:names:tc:opendocument:xmlns:style:1.0"@),
        ("xmlns:text"@, "urn:oasis:names:tc:opendocument:xmlns:text:1.0"@),
        ("xmlns:number"@, "urn:oasis:names:tc:opendocument:xmlns:datastyle:1.0"@),
        ("xmlns:fo"@, "urn:oasis:names:tc:opendocument:xmlns:xsl-fo-compatible:1.0"@),
        ("xmlns:svg"@, "urn:oasis:names:tc:opendocument:xmlns:svg-compatible:1.0"@),
        ("xmlns:of"@, "urn:oasis:names:tc:opendocument:xmlns:of:1.2"@),
        ("xmlns:draw"@, "urn:oasis:names:tc:opendocument:xmlns:drawing:1.0"@),
        ("xmlns:meta"@, "urn:oasis:names:tc:opendocument:xmlns:meta:1.0"@),
        ("xmlns:calcext"@, "urn:org:documentfoundation:names:experimental:calc:xmlns:calcext:1.0"@),
        ("xmlns:loext"@, "urn:org:documentfoundation:names:experimental:office:xmlns:loext:1.0"@),
        ("office:version"@, "1.2"@),
    ]
}

/// The full event run of a content document.
pub open spec fn content_events(book: WorkBook) -> Seq<XmlEventModel> {
    seq![
        XmlEventModel::Start("office:document-content"@, content_ns_attrs()),
        XmlEventModel::Empty("office:scripts"@, Seq::empty()),
        XmlEventModel::Start("office:font-face-decls"@, Seq::empty()),
    ] + fonts_events_upto(book.fonts@, book.fonts@.len() as int) + seq![
        XmlEventModel::End("office:font-face-decls"@),
        XmlEventModel::Start("office:automatic-styles"@, Seq::empty()),
    ] + styles_events_upto(book.styles@, book.styles@.len() as int) + formats_events_upto(
        book.formats@,
        book.formats@.len() as int,
    ) + seq![
        XmlEventModel::End("office:automatic-styles"@),
        XmlEventModel::Start("office:body"@, Seq::empty()),
        XmlEventModel::Start("office:spreadsheet"@, Seq::empty()),
    ] + sheets_events_upto(
        book.styles@,
        book.formats@,
        book.defs@,
        book.sheets@,
        book.sheets@.len() as int,
    ) + seq![
        XmlEventModel::End("office:spreadsheet"@),
        XmlEventModel::End("office:body"@),
        XmlEventModel::End("office:document-content"@),
    ]
}

/// Serializes a whole workbook into the content document's event run.
#[verifier::rlimit(100)]
pub fn write_ods_content(book: &WorkBook) -> (r: Vec<XmlEvent>)
    requires
        book.wf(),
    ensures
        r@.map_values(|e: XmlEvent| e@) == content_events(*book),
{
    let mut out: Vec<XmlEvent> = Vec::new();
    let mut ns: Vec<(String, String)> = Vec::new();
    ns.push(("xmlns:office".to_owned(), "urn:oasis:names:tc:opendocument:xmlns:office:1.0".to_owned()));
    ns.push(("xmlns:table".to_owned(), "urn:oasis:names:tc:opendocument:xmlns:table:1.0".to_owned()));
    ns.push(("xmlns:style".to_owned(), "urn:oasis:names:tc:opendocument:xmlns:style:1.0".to_owned()));
    ns.push(("xmlns:text".to_owned(), "urn:oasis:names:tc:opendocument:xmlns:text:1.0".to_owned()));
    ns.push(("xmlns:number".to_owned(), "urn:oasis:names:tc:opendocument:xmlns:datastyle:1.0".to_owned()));
    ns.push(("xmlns:fo".to_owned(), "urn:oasis:names:tc:opendocument:xmlns:xsl-fo-compatible:1.0".to_owned()));
    ns.push(("xmlns:svg".to_owned(), "urn:oasis:names:tc:opendocument:xmlns:svg-compatible:1.0".to_owned()));
    ns.push(("xmlns:of".to_owned(), "urn:oasis:names:tc:opendocument:xmlns:of:1.2".to_owned()));
    ns.push(("xmlns:draw".to_owned(), "urn:oasis:names:tc:opendocument:xmlns:drawing:1.0".to_owned()));
    ns.push(("xmlns:meta".to_owned(), "urn:oasis:names:tc:opendocument:xmlns:meta:1.0".to_owned()));
    ns.push((
        "xmlns:calcext".to_owned(),
        "urn:org:documentfoundation:names:experimental:calc:xmlns:calcext:1.0".to_owned(),
    ));
    ns.push((
        "xmlns:loext".to_owned(),
        "urn:org:documentfoundation:names:experimental:office:xmlns:loext:1.0".to_owned(),
    ));
    ns.push(("office:version".to_owned(), "1.2".to_owned()));
    proof {
        assert(attrs_view(ns@) =~= content_ns_attrs());
    }
    let ev = XmlEvent::Start("office:document-content".to_owned(), ns);
    proof {
        assert(ev@ == XmlEventModel::Start("office:document-content"@, content_ns_attrs()));
        assert(attrs_view(Seq::<(String, String)>::empty()) =~= Seq::<(
            Seq<char>,
            Seq<char>,
        )>::empty());
    }
    push_event(&mut out, ev);
    push_event(&mut out, XmlEvent::Empty("office:scripts".to_owned(), Vec::new()));
    push_event(&mut out, start_plain("office:font-face-decls"));
    write_font_decl(&book.fonts, &mut out);
    push_event(&mut out, end_plain("office:font-face-decls"));
    push_event(&mut out, start_plain("office:automatic-styles"));
    write_styles(&book.styles, &mut out);
    write_value_styles(&book.formats, &mut out);
    push_event(&mut out, end_plain("office:automatic-styles"));
    push_event(&mut out, start_plain("office:body"));
    push_event(&mut out, start_plain("office:spreadsheet"));
    let ghost mid = out@.map_values(|e: XmlEvent| e@);
    let mut s: usize = 0;
    while s < book.sheets.len()
        invariant
            book.wf(),
            s <= book.sheets@.len(),
            out@.map_values(|e: XmlEvent| e@) == mid + sheets_events_upto(
                book.styles@,
                book.formats@,
                book.defs@,
                book.sheets@,
                s as int,
            ),
        decreases book.sheets@.len() - s,
    {
        write_sheet(book, &book.sheets[s], &mut out);
        proof {
            assert(out@.map_values(|e: XmlEvent| e@) =~= mid + sheets_events_upto(
                book.styles@,
                book.formats@,
                book.defs@,
                book.sheets@,
                s + 1,
            ));
        }
        s += 1;
    }
    push_event(&mut out, end_plain("office:spreadsheet"));
    push_event(&mut out, end_plain("office:body"));
    push_event(&mut out, end_plain("office:document-content"));
    proof {
        assert(out@.map_values(|e: XmlEvent| e@) =~= content_events(*book));
    }
    out
}

/// The row of a smaller key is no larger, and in the same row the column
/// grows.
pub proof fn lemma_used_bounds(d: Seq<(u64, SCell)>, i: int)
    requires
        keys_sorted(d),
        0 <= i < d.len(),
    ensures
        cur_row(d, i) + 1 <= used_rows(d),
        cur_col(d, i) + 1 <= used_cols(d),
        i + 1 < d.len() && cur_row(d, i + 1) == cur_row(d, i) ==> cur_col(d, i) < cur_col(
            d,
            i + 1,
        ),
        i > 0 ==> cur_row(d, i - 1) <= cur_row(d, i),
        i > 0 && cur_row(d, i - 1) == cur_row(d, i) ==> cur_col(d, i - 1) < cur_col(d, i),
    decreases d.len(),
{
    // Rows: the last key has the largest row.
    assert(cur_row(d, i) + 1 <= used_rows(d)) by {
        if i < d.len() - 1 {
            assert(d[i].0 < d.last().0);
            crate::book::lemma_pos_key_div_order(d[i].0, d.last().0);
        }
    }
    // Columns: induction over the fold.
    assert(cur_col(d, i) + 1 <= used_cols(d)) by {
        lemma_used_cols_covers(d, i);
    }
    if i + 1 < d.len() && cur_row(d, i + 1) == cur_row(d, i) {
        crate::book::lemma_pos_key_div_order(d[i].0, d[i + 1].0);
    }
    if i > 0 {
        crate::book::lemma_pos_key_div_order(d[i - 1].0, d[i].0);
    }
}

/// Every entry's column is below the used column extent.
proof fn lemma_used_cols_covers(d: Seq<(u64, SCell)>, i: int)
    requires
        0 <= i < d.len(),
    ensures
        cur_col(d, i) + 1 <= used_cols(d),
    decreases d.len(),
{
    if i == d.len() - 1 {
    } else {
        assert(d.drop_last()[i] == d[i]);
        lemma_used_cols_covers(d.drop_last(), i);
    }
}

/// Writes one occupied cell.
pub fn write_cell(book: &WorkBook, cell: &SCell, out: &mut Vec<XmlEvent>)
    requires
        cell.wf(),
    ensures
        final(out)@.map_values(|e: XmlEvent| e@) == old(out)@.map_values(|e: XmlEvent| e@)
            + cell_events(book.styles@, book.formats@, book.defs@, *cell),
{
    let mut attrs: Vec<(String, String)> = Vec::new();
    match &cell.formula {
        Some(f) => {
            attrs.push(("table:formula".to_owned(), f.clone()));
        },
        None => {},
    }
    match &cell.style {
        Some(st) => {
            attrs.push(("table:style-name".to_owned(), st.clone()));
        },
        None => {
            match &cell.value {
                Some(v) => {
                    let vt = v.value_type();
                    match book.def_style(vt) {
                        Some(st) => {
                            attrs.push(("table:style-name".to_owned(), st.clone()));
                        },
                        None => {},
                    }
                },
                None => {},
            }
        },
    }
    proof {
        assert(attrs_view(attrs@) =~= cell_formula_attrs(*cell) + cell_style_attrs(
            book.defs@,
            *cell,
        ));
    }
    let value_style: Option<&ValueFormat> = match &cell.style {
        Some(st) => book.find_value_style(st.as_str()),
        None => None,
    };
    proof {
        match value_style {
            Some(f) => {
                assert(resolved_format(book.styles@, book.formats@, *cell) == Some(*f));
            },
            None => {
                assert(resolved_format(book.styles@, book.formats@, *cell) is None);
            },
        }
    }
    match &cell.value {
        None => {
            let ev = XmlEvent::Empty("table:table-cell".to_owned(), attrs);
            proof {
                assert(ev@ == cell_events(book.styles@, book.formats@, book.defs@, *cell)[0]);
            }
            out.push(ev);
            proof {
                assert(out@.map_values(|e: XmlEvent| e@) =~= old(out)@.map_values(
                    |e: XmlEvent| e@,
                ) + cell_events(book.styles@, book.formats@, book.defs@, *cell));
            }
        },
        Some(v) => {
            let content: String = match (value_style, v) {
                (Some(f), Value::Text(s)) => f.format_str(s.as_str()),
                (Some(f), Value::Number(d)) => f.format_float(d),
                (Some(f), Value::Percentage(d)) => {
                    let scaled = d.times100();
                    f.format_float(&scaled)
                },
                (Some(f), Value::Currency(_, d)) => f.format_float(d),
                (Some(f), Value::Boolean(b)) => f.format_boolean(*b),
                (Some(f), Value::DateTime(dt)) => f.format_datetime(dt),
                (Some(f), Value::TimeDuration(du)) => f.format_time_duration(du),
                (None, Value::Text(s)) => s.clone(),
                (None, Value::Number(d)) => d.to_text(),
                (None, Value::Percentage(d)) => {
                    let scaled = d.times100();
                    scaled.to_text()
                },
                (None, Value::Currency(c, d)) => {
                    let mut t = c.clone();
                    t.append(" ");
                    t.append(d.to_text().as_str());
                    t
                },
                (None, Value::Boolean(b)) => if *b {
                    "true".to_owned()
                } else {
                    "false".to_owned()
                },
                (None, Value::DateTime(dt)) => dt.display_text(),
                (None, Value::TimeDuration(du)) => du.display_text(),
            };
            proof {
                assert(content@ == display_text(
                    resolved_format(book.styles@, book.formats@, *cell),
                    cell@.value->0,
                ));
            }
            match v {
                Value::Text(_) => {
                    attrs.push(("office:value-type".to_owned(), "string".to_owned()));
                },
                Value::Number(d) => {
                    attrs.push(("office:value-type".to_owned(), "float".to_owned()));
                    attrs.push(("office:value".to_owned(), d.to_text()));
                },
                Value::Percentage(d) => {
                    attrs.push(("office:value-type".to_owned(), "percentage".to_owned()));
                    attrs.push(("office:value".to_owned(), d.to_text()));
                },
                Value::Currency(c, d) => {
                    attrs.push(("office:value-type".to_owned(), "currency".to_owned()));
                    attrs.push(("office:currency".to_owned(), c.clone()));
                    attrs.push(("office:value".to_owned(), d.to_text()));
                },
                Value::Boolean(b) => {
                    attrs.push(("office:value-type".to_owned(), "boolean".to_owned()));
                    attrs.push((
                        "office:boolean-value".to_owned(),
                        if *b {
                            "true".to_owned()
                        } else {
                            "false".to_owned()
                        },
                    ));
                },
                Value::DateTime(dt) => {
                    attrs.push(("office:value-type".to_owned(), "date".to_owned()));
                    attrs.push(("office:date-value".to_owned(), dt.to_wire_text()));
                },
                Value::TimeDuration(du) => {
                    attrs.push(("office:value-type".to_owned(), "time".to_owned()));
                    attrs.push(("office:time-value".to_owned(), du.to_wire_text()));
                },
            }
            proof {
                assert(attrs_view(attrs@) =~= cell_attrs(book.defs@, *cell));
            }
            let ghost evs = cell_events(book.styles@, book.formats@, book.defs@, *cell);
            let e1 = XmlEvent::Start("table:table-cell".to_owned(), attrs);
            let e2 = XmlEvent::Start("text:p".to_owned(), Vec::new());
            let e3 = XmlEvent::Text(content);
            let e4 = XmlEvent::End("text:p".to_owned());
            let e5 = XmlEvent::End("table:table-cell".to_owned());
            proof {
                assert(e1@ == evs[0]);
                assert(e2@ == evs[1]) by {
                    assert(attrs_view(Seq::<(String, String)>::empty()) =~= Seq::<(
                        Seq<char>,
                        Seq<char>,
                    )>::empty());
                }
                assert(e3@ == evs[2]);
                assert(e4@ == evs[3]);
                assert(e5@ == evs[4]);
            }
            out.push(e1);
            out.push(e2);
            out.push(e3);
            out.push(e4);
            out.push(e5);
            proof {
                assert(out@.map_values(|e: XmlEvent| e@) =~= old(out)@.map_values(
                    |e: XmlEvent| e@,
                ) + evs);
            }
        },
    }
}

} // verus!
