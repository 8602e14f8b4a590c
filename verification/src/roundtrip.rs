//! Invertibility and minimality of the grid compression.
//!
//! The serializer's cell body is exactly invertible: a scan that moves the
//! reader's cursor the way the structural parser does — rows advance by
//! their repeat counts, cells advance the column, and a cell materializes
//! only when it carries content — recovers from the serialized events
//! precisely the occupied positions that went in.  And the body's length is
//! bounded by a constant per occupied cell, however wide the gaps are.
//!
//! The position scan here is the cursor core of the full reader model
//! (`content_scan` in the parser module, which `read_content`'s contract is
//! stated against): both advance rows by their repeats at row ends, move the
//! column over repeated cells, and materialize a position only for a cell
//! that carries content.

use vstd::prelude::*;

use crate::attrmap::map_get;
use crate::book::keys_sorted;
use crate::book::pos_key;
use crate::book::used_cols;
use crate::book::used_rows;
use crate::book::SCell;
use crate::book::SRow;
use crate::digits::dec_chars;
use crate::digits::lemma_dec_chars_val;
use crate::format::ValueFormat;
use crate::read::selected_value_attr;
use crate::read::spec_repeat;
use crate::style::Style;
use crate::value::ValueType;
use crate::write::body_events;
use crate::write::body_events_upto;
use crate::write::cell_chunk;
use crate::write::cell_events;
use crate::write::cur_col;
use crate::write::cur_row;
use crate::write::empty_rows_events;
use crate::write::gap_events;
use crate::write::row_attrs;
use crate::write::row_open_events;
use crate::write::rows_rep_attrs;
use crate::write::cell_attrs;
use crate::xml::XmlEventModel;

verus! {

/// The position cursor of the reading side, as the scan tracks it.
pub ghost struct GridScan {
    /// The row the cursor stands in.
    pub row: nat,
    /// The column the cursor stands at.
    pub col: nat,
    /// The pending row repeat, applied when the row ends.
    pub rrep: nat,
    /// Whether the scan is inside an occupied cell element.
    pub in_cell: bool,
    /// The packed positions materialized so far, in order.
    pub occupied: Seq<nat>,
}

/// The scan before any event.
pub open spec fn grid_init() -> GridScan {
    GridScan { row: 0, col: 0, rrep: 1, in_cell: false, occupied: Seq::empty() }
}

/// Whether an empty cell element carries content that materializes.
pub open spec fn empty_cell_materializes(attrs: Seq<(Seq<char>, Seq<char>)>) -> bool {
    map_get(attrs, "table:style-name"@) is Some || map_get(attrs, "table:formula"@) is Some
}

/// One event of the position scan, mirroring the structural parser's
/// cursor: rows advance by their repeat at their end, cells advance the
/// column, and only cells with content leave positions behind.
pub open spec fn grid_step(st: GridScan, ev: XmlEventModel) -> GridScan {
    if st.in_cell {
        match ev {
            XmlEventModel::End(n) => if n == "table:table-cell"@ {
                GridScan {
                    in_cell: false,
                    col: st.col + 1,
                    occupied: st.occupied.push(pos_key(st.row, st.col)),
                    ..st
                }
            } else {
                st
            },
            _ => st,
        }
    } else {
        match ev {
            XmlEventModel::Start(n, attrs) => if n == "table:table-row"@ {
                GridScan { rrep: spec_repeat(attrs, "table:number-rows-repeated"@), ..st }
            } else if n == "table:table-cell"@ {
                GridScan { in_cell: true, ..st }
            } else {
                st
            },
            XmlEventModel::Empty(n, attrs) => if n == "table:table-cell"@ {
                let r = spec_repeat(attrs, "table:number-columns-repeated"@);
                if empty_cell_materializes(attrs) {
                    GridScan {
                        col: st.col + r,
                        occupied: st.occupied + Seq::new(r, |k: int| pos_key(st.row, (st.col + k) as nat)),
                        ..st
                    }
                } else {
                    GridScan { col: st.col + r, ..st }
                }
            } else {
                st
            },
            XmlEventModel::End(n) => if n == "table:table-row"@ {
                GridScan { row: st.row + st.rrep, col: 0, rrep: 1, ..st }
            } else {
                st
            },
            _ => st,
        }
    }
}

/// The scan continued over further events.
pub open spec fn grid_scan_from(st: GridScan, evs: Seq<XmlEventModel>) -> GridScan
    decreases evs.len(),
{
    if evs.len() == 0 {
        st
    } else {
        grid_step(grid_scan_from(st, evs.drop_last()), evs.last())
    }
}

/// Scanning a concatenation scans the second part from where the first
/// ended.
pub proof fn lemma_grid_scan_concat(st: GridScan, a: Seq<XmlEventModel>, b: Seq<XmlEventModel>)
    ensures
        grid_scan_from(st, a + b) == grid_scan_from(grid_scan_from(st, a), b),
    decreases b.len(),
{
    if b.len() == 0 {
        assert(a + b =~= a);
    } else {
        lemma_grid_scan_concat(st, a, b.drop_last());
        assert((a + b).drop_last() =~= a + b.drop_last());
        assert((a + b).last() == b.last());
    }
}

/// The keys of the first `n` grid entries, in order.
pub open spec fn keys_upto(d: Seq<(u64, SCell)>, n: int) -> Seq<nat>
    decreases n,
{
    if n <= 0 {
        Seq::empty()
    } else {
        keys_upto(d, n - 1).push(d[n - 1].0 as nat)
    }
}

/// A repeat attribute written as a rendered counter reads back as itself;
/// and the structural attribute names are all distinct.
proof fn lemma_repeat_attr_facts(count: nat)
    ensures
        spec_repeat(rows_rep_attrs(count), "table:number-rows-repeated"@) == if count > 1 {
            count
        } else {
            1nat
        },
        spec_repeat(rows_rep_attrs(count), "table:number-columns-repeated"@) == 1,
        spec_repeat(
            seq![("table:number-columns-repeated"@, dec_chars(count))],
            "table:number-columns-repeated"@,
        ) == count,
        !empty_cell_materializes(seq![("table:number-columns-repeated"@, dec_chars(count))]),
{
    reveal_strlit("table:number-rows-repeated");
    reveal_strlit("table:number-columns-repeated");
    reveal_strlit("table:style-name");
    reveal_strlit("table:formula");
    assert("table:number-rows-repeated"@.len() == 26);
    assert("table:number-columns-repeated"@.len() == 29);
    assert("table:style-name"@.len() == 16);
    assert("table:formula"@.len() == 13);
    lemma_dec_chars_val(count);
    if count > 1 {
        let a = rows_rep_attrs(count);
        assert(a[0].0 == "table:number-rows-repeated"@);
        assert(map_get(a, "table:number-rows-repeated"@) == Some(dec_chars(count)));
        assert(map_get(a, "table:number-columns-repeated"@) is None) by {
            reveal_with_fuel(map_get, 3);
            assert(a.skip(1) =~= Seq::<(Seq<char>, Seq<char>)>::empty());
        }
    }
    let g = seq![("table:number-columns-repeated"@, dec_chars(count))];
    assert(map_get(g, "table:number-columns-repeated"@) == Some(dec_chars(count)));
    assert(map_get(g, "table:style-name"@) is None && map_get(g, "table:formula"@) is None) by {
        reveal_with_fuel(map_get, 3);
        assert(g.skip(1) =~= Seq::<(Seq<char>, Seq<char>)>::empty());
    }
    if count <= 1 {
        assert(rows_rep_attrs(count) =~= Seq::<(Seq<char>, Seq<char>)>::empty());
    }
}

/// A row-opening attribute list never carries a repeat.
proof fn lemma_row_attr_facts(rows: Seq<(u64, SRow)>, r: nat)
    ensures
        spec_repeat(row_attrs(rows, r), "table:number-rows-repeated"@) == 1,
{
    reveal_strlit("table:number-rows-repeated");
    reveal_strlit("table:style-name");
    assert("table:number-rows-repeated"@.len() == 26);
    assert("table:style-name"@.len() == 16);
    match crate::book::assoc_at(rows, r as u64) {
        Some(sr) => match sr.style {
            Some(st) => {
                let a = row_attrs(rows, r);
                assert(a[0].0 == "table:style-name"@);
                assert(map_get(a, "table:number-rows-repeated"@) is None) by {
                    reveal_with_fuel(map_get, 3);
                    assert(a.skip(1) =~= Seq::<(Seq<char>, Seq<char>)>::empty());
                }
            },
            None => {
                assert(row_attrs(rows, r) =~= Seq::<(Seq<char>, Seq<char>)>::empty());
            },
        },
        None => {
            assert(row_attrs(rows, r) =~= Seq::<(Seq<char>, Seq<char>)>::empty());
        },
    }
}

/// What a cell's own attribute list tells the scan: no repeat, and content
/// exactly when the cell is not blank and has no value.
proof fn lemma_cell_attr_facts(defs: Seq<(ValueType, String)>, cell: SCell)
    ensures
        spec_repeat(cell_attrs(defs, cell), "table:number-columns-repeated"@) == 1,
        cell@.value is None && !cell.is_blank() ==> empty_cell_materializes(
            cell_attrs(defs, cell),
        ),
{
    reveal_strlit("table:number-columns-repeated");
    reveal_strlit("table:style-name");
    reveal_strlit("table:formula");
    reveal_strlit("office:value-type");
    reveal_strlit("office:value");
    reveal_strlit("office:currency");
    reveal_strlit("office:boolean-value");
    reveal_strlit("office:date-value");
    reveal_strlit("office:time-value");
    assert("table:number-columns-repeated"@.len() == 29);
    assert("table:style-name"@.len() == 16);
    assert("table:formula"@.len() == 13);
    assert("office:value-type"@.len() == 17);
    assert("office:value"@.len() == 12);
    assert("office:currency"@.len() == 15);
    assert("office:boolean-value"@.len() == 20);
    assert("office:date-value"@.len() == 17);
    assert("office:time-value"@.len() == 17);
    let a = cell_attrs(defs, cell);
    lemma_attrs_no_repeat(a, "table:number-columns-repeated"@);
    if cell@.value is None && !cell.is_blank() {
        if cell@.formula is Some {
            assert(a[0].0 == "table:formula"@);
            crate::attrmap::lemma_map_get_at(a, 0);
        } else {
            assert(cell@.style is Some);
            assert(a[0].0 == "table:style-name"@);
            crate::attrmap::lemma_map_get_at(a, 0);
        }
    }
}

/// Scanning a single event is one step.
proof fn lemma_scan_one(st: GridScan, e: XmlEventModel)
    ensures
        grid_scan_from(st, seq![e]) == grid_step(st, e),
{
    reveal_with_fuel(grid_scan_from, 3);
    assert(seq![e].drop_last() =~= Seq::<XmlEventModel>::empty());
    assert(seq![e].last() == e);
    assert(grid_scan_from(st, Seq::<XmlEventModel>::empty()) == st);
}

/// The distinct element names the scan tells apart.
proof fn lemma_name_facts()
    ensures
        "table:table-row"@ != "table:table-cell"@,
        "text:p"@ != "table:table-cell"@,
        "table:table-row"@ != "text:p"@,
{
    reveal_strlit("table:table-row");
    reveal_strlit("table:table-cell");
    reveal_strlit("text:p");
    assert("table:table-row"@.len() == 15);
    assert("table:table-cell"@.len() == 16);
    assert("text:p"@.len() == 6);
}

/// Closing a row advances the cursor by the pending repeat.
proof fn lemma_scan_end_row(st: GridScan)
    requires
        !st.in_cell,
    ensures
        grid_scan_from(st, seq![XmlEventModel::End("table:table-row"@)]) == (GridScan {
            row: st.row + st.rrep,
            col: 0,
            rrep: 1,
            ..st
        }),
{
    lemma_scan_one(st, XmlEventModel::End("table:table-row"@));
}

/// An empty-row block advances the cursor by its repeat and touches no
/// position.
proof fn lemma_scan_empty_block(st: GridScan, e: nat, mc: nat)
    requires
        !st.in_cell,
        e > 0,
    ensures
        grid_scan_from(st, empty_rows_events(e, mc)) == (GridScan {
            row: st.row + e,
            col: 0,
            rrep: 1,
            ..st
        }),
{
    lemma_name_facts();
    lemma_repeat_attr_facts(e);
    lemma_repeat_attr_facts(mc);
    let ev1 = XmlEventModel::Start("table:table-row"@, rows_rep_attrs(e));
    let ev2 = XmlEventModel::Empty(
        "table:table-cell"@,
        seq![("table:number-columns-repeated"@, dec_chars(mc))],
    );
    let ev3 = XmlEventModel::End("table:table-row"@);
    assert(empty_rows_events(e, mc) =~= seq![ev1] + seq![ev2] + seq![ev3]);
    lemma_grid_scan_concat(st, seq![ev1], seq![ev2]);
    lemma_grid_scan_concat(st, seq![ev1] + seq![ev2], seq![ev3]);
    assert((seq![ev1] + seq![ev2]) + seq![ev3] =~= empty_rows_events(e, mc));
    lemma_scan_one(st, ev1);
    lemma_scan_one(grid_step(st, ev1), ev2);
    lemma_scan_one(grid_step(grid_step(st, ev1), ev2), ev3);
    assert(grid_step(st, ev1).rrep == e);
}

/// Opening a row with its leading gap leaves the cursor at the first
/// occupied column and touches no position.
proof fn lemma_scan_open_row(st: GridScan, rows: Seq<(u64, SRow)>, r: nat, c: nat)
    requires
        !st.in_cell,
        st.col == 0,
    ensures
        grid_scan_from(st, row_open_events(rows, r, c)) == (GridScan { col: c, rrep: 1, ..st }),
{
    lemma_name_facts();
    lemma_row_attr_facts(rows, r);
    let ov1 = XmlEventModel::Start("table:table-row"@, row_attrs(rows, r));
    if c > 0 {
        lemma_repeat_attr_facts(c);
        let ov2 = XmlEventModel::Empty(
            "table:table-cell"@,
            seq![("table:number-columns-repeated"@, dec_chars(c))],
        );
        assert(row_open_events(rows, r, c) =~= seq![ov1] + seq![ov2]);
        lemma_grid_scan_concat(st, seq![ov1], seq![ov2]);
        lemma_scan_one(st, ov1);
        lemma_scan_one(grid_step(st, ov1), ov2);
    } else {
        assert(row_open_events(rows, r, c) =~= seq![ov1]);
        lemma_scan_one(st, ov1);
    }
}

/// One occupied cell's events materialize exactly the cursor's position and
/// advance one column.
proof fn lemma_scan_cell(
    st: GridScan,
    styles: Seq<Style>,
    formats: Seq<ValueFormat>,
    defs: Seq<(ValueType, String)>,
    cell: SCell,
)
    requires
        !st.in_cell,
        !cell.is_blank(),
    ensures
        grid_scan_from(st, cell_events(styles, formats, defs, cell)) == (GridScan {
            col: st.col + 1,
            occupied: st.occupied.push(pos_key(st.row, st.col)),
            ..st
        }),
{
    lemma_name_facts();
    lemma_cell_attr_facts(defs, cell);
    let cellev = cell_events(styles, formats, defs, cell);
    match cell@.value {
        Option::None => {
            let cv = XmlEventModel::Empty("table:table-cell"@, cell_attrs(defs, cell));
            assert(cellev =~= seq![cv]);
            lemma_scan_one(st, cv);
            assert(empty_cell_materializes(cell_attrs(defs, cell)));
            assert(st.occupied + Seq::new(1, |k: int| pos_key(st.row, (st.col + k) as nat))
                =~= st.occupied.push(pos_key(st.row, st.col)));
        },
        Option::Some(_) => {
            let c1 = XmlEventModel::Start("table:table-cell"@, cell_attrs(defs, cell));
            let c2 = XmlEventModel::Start("text:p"@, Seq::empty());
            let c3 = XmlEventModel::Text(
                crate::write::display_text(
                    crate::write::resolved_format(styles, formats, cell),
                    cell@.value->0,
                ),
            );
            let c4 = XmlEventModel::End("text:p"@);
            let c5 = XmlEventModel::End("table:table-cell"@);
            assert(cellev =~= seq![c1] + seq![c2] + seq![c3] + seq![c4] + seq![c5]);
            lemma_grid_scan_concat(st, seq![c1], seq![c2]);
            lemma_grid_scan_concat(st, seq![c1] + seq![c2], seq![c3]);
            lemma_grid_scan_concat(st, seq![c1] + seq![c2] + seq![c3], seq![c4]);
            lemma_grid_scan_concat(st, seq![c1] + seq![c2] + seq![c3] + seq![c4], seq![c5]);
            assert((seq![c1] + seq![c2] + seq![c3] + seq![c4]) + seq![c5] =~= cellev);
            lemma_scan_one(st, c1);
            let a1 = grid_step(st, c1);
            lemma_scan_one(a1, c2);
            let a2 = grid_step(a1, c2);
            lemma_scan_one(a2, c3);
            let a3 = grid_step(a2, c3);
            lemma_scan_one(a3, c4);
            let a4 = grid_step(a3, c4);
            lemma_scan_one(a4, c5);
            assert(a1.in_cell && a1.col == st.col && a1.row == st.row);
            assert(a2 == a1 && a3 == a2 && a4 == a3);
        },
    }
}

/// A gap element advances the cursor without touching any position.
proof fn lemma_scan_gap(st: GridScan, g: nat)
    requires
        !st.in_cell,
        g > 0,
    ensures
        grid_scan_from(st, gap_events(g)) == (GridScan { col: st.col + g, ..st }),
{
    lemma_repeat_attr_facts(g);
    let gv = XmlEventModel::Empty(
        "table:table-cell"@,
        seq![("table:number-columns-repeated"@, dec_chars(g))],
    );
    assert(gap_events(g) =~= seq![gv]);
    lemma_scan_one(st, gv);
}

/// What one cell's chunk does to a well-placed scan: it lands the cursor on
/// the cell, materializes exactly that position, and moves on to where the
/// next chunk expects it.
#[verifier::rlimit(100)]
proof fn lemma_chunk_effect(
    styles: Seq<Style>,
    formats: Seq<ValueFormat>,
    defs: Seq<(ValueType, String)>,
    rows: Seq<(u64, SRow)>,
    d: Seq<(u64, SCell)>,
    idx: int,
    mr: nat,
    mc: nat,
    st0: GridScan,
)
    requires
        keys_sorted(d),
        0 <= idx < d.len(),
        forall|j: int| 0 <= j < d.len() ==> !(#[trigger] d[j]).1.is_blank(),
        mr == used_rows(d),
        mc == used_cols(d),
        !st0.in_cell,
        st0.rrep == 1,
        st0.occupied == keys_upto(d, idx),
        idx == 0 ==> st0.row == 0 && st0.col == 0,
        idx > 0 ==> st0.row == cur_row(d, idx - 1),
        idx > 0 && cur_row(d, idx) == cur_row(d, idx - 1) ==> st0.col == cur_col(d, idx),
        idx > 0 && cur_row(d, idx) != cur_row(d, idx - 1) ==> st0.col == mc,
    ensures
        ({
            let st = grid_scan_from(st0, cell_chunk(styles, formats, defs, rows, d, idx, mr, mc));
            &&& !st.in_cell
            &&& st.rrep == 1
            &&& st.occupied == keys_upto(d, idx + 1)
            &&& st.row == cur_row(d, idx)
            &&& (idx + 1 < d.len() && cur_row(d, idx + 1) == cur_row(d, idx) ==> st.col == cur_col(
                d,
                idx + 1,
            ))
            &&& ((idx + 1 == d.len() || cur_row(d, idx + 1) != cur_row(d, idx)) ==> st.col == mc)
        }),
{
    crate::write::lemma_used_bounds(d, idx);
    let first = idx == 0;
    let lr: nat = if first {
        0
    } else {
        cur_row(d, idx - 1)
    };
    let r = cur_row(d, idx);
    let c = cur_col(d, idx);
    let nr: nat = if idx + 1 < d.len() {
        cur_row(d, idx + 1)
    } else {
        mr
    };
    let nc: nat = if idx + 1 < d.len() {
        cur_col(d, idx + 1)
    } else {
        mc
    };
    let bdr = r - lr;
    let fdc: int = if nr > r {
        mc - c
    } else {
        nc - c
    };
    let close: Seq<XmlEventModel> = if bdr > 0 && !first {
        seq![XmlEventModel::End("table:table-row"@)]
    } else {
        Seq::empty()
    };
    let ecount: int = if first {
        bdr
    } else {
        bdr - 1
    };
    let empties: Seq<XmlEventModel> = if ecount > 0 {
        empty_rows_events(ecount as nat, mc)
    } else {
        Seq::empty()
    };
    let open: Seq<XmlEventModel> = if bdr > 0 || first {
        row_open_events(rows, r, c)
    } else {
        Seq::empty()
    };
    let cellev = cell_events(styles, formats, defs, d[idx].1);
    let gap: Seq<XmlEventModel> = if fdc > 1 {
        gap_events((fdc - 1) as nat)
    } else {
        Seq::empty()
    };
    assert(cell_chunk(styles, formats, defs, rows, d, idx, mr, mc) == close + empties + open
        + cellev + gap);
    lemma_grid_scan_concat(st0, close, empties);
    lemma_grid_scan_concat(st0, close + empties, open);
    lemma_grid_scan_concat(st0, close + empties + open, cellev);
    lemma_grid_scan_concat(st0, close + empties + open + cellev, gap);
    assert((close + empties) + open =~= close + empties + open);
    assert((close + empties + open) + cellev =~= close + empties + open + cellev);
    assert((close + empties + open + cellev) + gap =~= close + empties + open + cellev + gap);
    let st1 = grid_scan_from(st0, close);
    if bdr > 0 && !first {
        lemma_scan_end_row(st0);
    } else {
        assert(close =~= Seq::<XmlEventModel>::empty());
    }
    let st2 = grid_scan_from(st1, empties);
    if ecount > 0 {
        lemma_scan_empty_block(st1, ecount as nat, mc);
    } else {
        assert(empties =~= Seq::<XmlEventModel>::empty());
    }
    let st3 = grid_scan_from(st2, open);
    if bdr > 0 || first {
        assert(st2.col == 0 && st2.row == r && !st2.in_cell);
        lemma_scan_open_row(st2, rows, r, c);
    } else {
        assert(open =~= Seq::<XmlEventModel>::empty());
        assert(st3.row == r && st3.col == c);
    }
    assert(st3.row == r && st3.col == c && !st3.in_cell && st3.rrep == 1);
    assert(st3.occupied == keys_upto(d, idx));
    let st4 = grid_scan_from(st3, cellev);
    lemma_scan_cell(st3, styles, formats, defs, d[idx].1);
    assert(pos_key(r, c) == d[idx].0 as nat) by {
        vstd::arithmetic::div_mod::lemma_fundamental_div_mod(d[idx].0 as int, 4294967296);
    }
    assert(st4.occupied == keys_upto(d, idx + 1));
    let st5 = grid_scan_from(st4, gap);
    if fdc > 1 {
        lemma_scan_gap(st4, (fdc - 1) as nat);
    } else {
        assert(gap =~= Seq::<XmlEventModel>::empty());
        assert(fdc == 1) by {
            if nr > r {
                assert(c + 1 <= mc);
            } else {
                assert(idx + 1 < d.len());
                assert(c < nc);
            }
        }
    }
    assert(st5.col == c + fdc);
    assert(grid_scan_from(st0, cell_chunk(styles, formats, defs, rows, d, idx, mr, mc)) == st5);
    if idx + 1 < d.len() && cur_row(d, idx + 1) == r {
        assert(st5.col == nc);
    } else {
        assert(nr > r) by {
            if idx + 1 < d.len() {
                crate::book::lemma_pos_key_div_order(d[idx].0, d[idx + 1].0);
            } else {
                assert(mr > r);
            }
        }
        assert(st5.col == mc);
    }
}

/// After the chunks of the first `n` cells, the scan stands where the next
/// chunk expects it and holds exactly the first `n` keys.
proof fn lemma_scan_prefix(
    styles: Seq<Style>,
    formats: Seq<ValueFormat>,
    defs: Seq<(ValueType, String)>,
    rows: Seq<(u64, SRow)>,
    d: Seq<(u64, SCell)>,
    n: int,
    mr: nat,
    mc: nat,
)
    requires
        keys_sorted(d),
        0 <= n <= d.len(),
        forall|j: int| 0 <= j < d.len() ==> !(#[trigger] d[j]).1.is_blank(),
        mr == used_rows(d),
        mc == used_cols(d),
    ensures
        ({
            let st = grid_scan_from(
                grid_init(),
                body_events_upto(styles, formats, defs, rows, d, n, mr, mc),
            );
            &&& !st.in_cell
            &&& st.rrep == 1
            &&& st.occupied == keys_upto(d, n)
            &&& (n == 0 ==> st.row == 0 && st.col == 0)
            &&& (n > 0 ==> st.row == cur_row(d, n - 1))
            &&& (n > 0 && n < d.len() && cur_row(d, n) == cur_row(d, n - 1) ==> st.col == cur_col(
                d,
                n,
            ))
            &&& (n > 0 && (n == d.len() || cur_row(d, n) != cur_row(d, n - 1)) ==> st.col == mc)
        }),
    decreases n,
{
    if n == 0 {
        assert(body_events_upto(styles, formats, defs, rows, d, 0, mr, mc)
            =~= Seq::<XmlEventModel>::empty());
    } else {
        lemma_scan_prefix(styles, formats, defs, rows, d, n - 1, mr, mc);
        let pre = body_events_upto(styles, formats, defs, rows, d, n - 1, mr, mc);
        let chunk = cell_chunk(styles, formats, defs, rows, d, n - 1, mr, mc);
        assert(body_events_upto(styles, formats, defs, rows, d, n, mr, mc) == pre + chunk);
        lemma_grid_scan_concat(grid_init(), pre, chunk);
        let st0 = grid_scan_from(grid_init(), pre);
        if n - 1 > 0 {
            crate::book::lemma_pos_key_div_order(d[n - 2].0, d[n - 1].0);
        }
        lemma_chunk_effect(styles, formats, defs, rows, d, n - 1, mr, mc, st0);
    }
}

/// LAW — compression is invertible: scanning the serialized cell body of a
/// sorted grid of non-blank cells, the way the structural parser moves its
/// cursor, materializes exactly the occupied positions that were written,
/// in order.
pub proof fn lemma_grid_compression_invertible(
    styles: Seq<Style>,
    formats: Seq<ValueFormat>,
    defs: Seq<(ValueType, String)>,
    rows: Seq<(u64, SRow)>,
    d: Seq<(u64, SCell)>,
)
    requires
        keys_sorted(d),
        forall|j: int| 0 <= j < d.len() ==> !(#[trigger] d[j]).1.is_blank(),
    ensures
        grid_scan_from(
            grid_init(),
            body_events(styles, formats, defs, rows, d, used_rows(d), used_cols(d)),
        ).occupied == keys_upto(d, d.len() as int),
{
    let mr = used_rows(d);
    let mc = used_cols(d);
    lemma_scan_prefix(styles, formats, defs, rows, d, d.len() as int, mr, mc);
    let cells = body_events_upto(styles, formats, defs, rows, d, d.len() as int, mr, mc);
    if d.len() > 0 {
        lemma_grid_scan_concat(
            grid_init(),
            cells,
            seq![XmlEventModel::End("table:table-row"@)],
        );
        lemma_scan_one(
            grid_scan_from(grid_init(), cells),
            XmlEventModel::End("table:table-row"@),
        );
        lemma_name_facts();
    }
}

/// LAW — compression is minimal: the serialized cell body holds at most a
/// fixed dozen events for each occupied cell, plus the one closing event,
/// however wide the gaps between the cells are.
pub proof fn lemma_grid_compression_minimal(
    styles: Seq<Style>,
    formats: Seq<ValueFormat>,
    defs: Seq<(ValueType, String)>,
    rows: Seq<(u64, SRow)>,
    d: Seq<(u64, SCell)>,
    mr: nat,
    mc: nat,
)
    ensures
        body_events(styles, formats, defs, rows, d, mr, mc).len() <= 12 * d.len() + 1,
{
    lemma_body_upto_len(styles, formats, defs, rows, d, d.len() as int, mr, mc);
}

/// The first `n` chunks hold at most a dozen events each.
proof fn lemma_body_upto_len(
    styles: Seq<Style>,
    formats: Seq<ValueFormat>,
    defs: Seq<(ValueType, String)>,
    rows: Seq<(u64, SRow)>,
    d: Seq<(u64, SCell)>,
    n: int,
    mr: nat,
    mc: nat,
)
    requires
        0 <= n <= d.len(),
    ensures
        body_events_upto(styles, formats, defs, rows, d, n, mr, mc).len() <= 12 * n,
    decreases n,
{
    if n > 0 {
        lemma_body_upto_len(styles, formats, defs, rows, d, n - 1, mr, mc);
        assert(cell_chunk(styles, formats, defs, rows, d, n - 1, mr, mc).len() <= 12);
    }
}

/// LAW — the value codec inverts the cell writer: decoding the kind marker,
/// the selected value attribute and the currency code that a well-formed
/// valued cell writes yields that cell's value again.  A text value comes
/// back through the element content instead, which carries the text itself
/// when no display format resolves.
pub proof fn lemma_cell_wire_roundtrip(defs: Seq<(ValueType, String)>, cell: SCell)
    requires
        cell.wf(),
        cell@.value is Some,
        crate::value::value_encodable(cell@.value->0),
    ensures
        ({
            let a = cell_attrs(defs, cell);
            let v = cell@.value->0;
            let vt = crate::value::model_type(v);
            &&& map_get(a, "office:value-type"@) == Some(crate::value::wire_type_chars(vt))
            &&& crate::value::parse_value_accepts(
                Some(vt),
                selected_value_attr(a),
                map_get(a, "office:currency"@),
            )
            &&& crate::value::parse_value_model(
                Some(vt),
                selected_value_attr(a),
                crate::value::wire_text_content(v),
                map_get(a, "office:currency"@),
            ) == Some(v)
        }),
{
    reveal_strlit("table:style-name");
    reveal_strlit("table:formula");
    reveal_strlit("office:value-type");
    reveal_strlit("office:value");
    reveal_strlit("office:currency");
    reveal_strlit("office:boolean-value");
    reveal_strlit("office:date-value");
    reveal_strlit("office:time-value");
    assert("table:style-name"@.len() == 16);
    assert("table:formula"@.len() == 13);
    assert("office:value-type"@.len() == 17);
    assert("office:value"@.len() == 12);
    assert("office:currency"@.len() == 15);
    assert("office:boolean-value"@.len() == 20);
    assert("office:date-value"@.len() == 17);
    assert("office:time-value"@.len() == 17);
    assert("office:value-type"@ != "office:date-value"@) by {
        assert("office:value-type"@[7] == 'v');
        assert("office:date-value"@[7] == 'd');
    }
    assert("office:value-type"@ != "office:time-value"@) by {
        assert("office:value-type"@[7] == 'v');
        assert("office:time-value"@[7] == 't');
    }
    assert("office:date-value"@ != "office:time-value"@) by {
        assert("office:date-value"@[7] == 'd');
        assert("office:time-value"@[7] == 't');
    }
    let a = cell_attrs(defs, cell);
    let v = cell@.value->0;
    let vt = crate::value::model_type(v);
    let base = crate::write::cell_formula_attrs(cell) + crate::write::cell_style_attrs(
        defs,
        cell,
    );
    assert(a == base + crate::write::value_attrs(v));
    assert(forall|j: int|
        0 <= j < base.len() ==> (#[trigger] base[j]).0 == "table:formula"@ || base[j].0
            == "table:style-name"@);
    // Every wire attribute the value writes is found behind the leading
    // formula and style entries.
    lemma_value_attr_lookup(base, crate::write::value_attrs(v), "office:value-type"@);
    lemma_value_attr_lookup(base, crate::write::value_attrs(v), "office:value"@);
    lemma_value_attr_lookup(base, crate::write::value_attrs(v), "office:date-value"@);
    lemma_value_attr_lookup(base, crate::write::value_attrs(v), "office:time-value"@);
    lemma_value_attr_lookup(base, crate::write::value_attrs(v), "office:boolean-value"@);
    lemma_value_attr_lookup(base, crate::write::value_attrs(v), "office:currency"@);
    let va = crate::write::value_attrs(v);
    lemma_value_attrs_shape(v);
    crate::value::lemma_value_roundtrip(v);
    assert(selected_value_attr(a) == crate::value::wire_value_attr(v));
    assert(map_get(a, "office:currency"@) == crate::value::wire_currency_attr(v));
}

/// Looking one of the typed wire names up in a cell's full attribute list
/// reads past the formula and style entries into the value attributes.
proof fn lemma_value_attr_lookup(
    base: Seq<(Seq<char>, Seq<char>)>,
    va: Seq<(Seq<char>, Seq<char>)>,
    key: Seq<char>,
)
    requires
        forall|j: int|
            0 <= j < base.len() ==> (#[trigger] base[j]).0 == "table:formula"@ || base[j].0
                == "table:style-name"@,
        key != "table:formula"@,
        key != "table:style-name"@,
    ensures
        map_get(base + va, key) == map_get(va, key),
    decreases base.len(),
{
    if base.len() == 0 {
        assert(base + va =~= va);
    } else {
        assert((base + va)[0] == base[0]);
        assert(base[0].0 != key);
        assert((base + va).skip(1) =~= base.skip(1) + va);
        assert(forall|j: int|
            0 <= j < base.skip(1).len() ==> (#[trigger] base.skip(1)[j]).0 == "table:formula"@
                || base.skip(1)[j].0 == "table:style-name"@);
        lemma_value_attr_lookup(base.skip(1), va, key);
    }
}

/// What each value kind's wire attributes bind: the marker, the one typed
/// value attribute under its own name, and the currency code where one
/// belongs.
proof fn lemma_value_attrs_shape(v: crate::value::ValModel)
    ensures
        map_get(crate::write::value_attrs(v), "office:value-type"@) == Some(
            crate::value::wire_type_chars(crate::value::model_type(v)),
        ),
        selected_value_attr(crate::write::value_attrs(v)) == crate::value::wire_value_attr(v),
        map_get(crate::write::value_attrs(v), "office:currency"@)
            == crate::value::wire_currency_attr(v),
{
    reveal_strlit("office:value-type");
    reveal_strlit("office:value");
    reveal_strlit("office:currency");
    reveal_strlit("office:boolean-value");
    reveal_strlit("office:date-value");
    reveal_strlit("office:time-value");
    assert("office:value-type"@.len() == 17);
    assert("office:value"@.len() == 12);
    assert("office:currency"@.len() == 15);
    assert("office:boolean-value"@.len() == 20);
    assert("office:date-value"@.len() == 17);
    assert("office:time-value"@.len() == 17);
    assert("office:value-type"@ != "office:date-value"@) by {
        assert("office:value-type"@[7] == 'v');
        assert("office:date-value"@[7] == 'd');
    }
    assert("office:value-type"@ != "office:time-value"@) by {
        assert("office:value-type"@[7] == 'v');
        assert("office:time-value"@[7] == 't');
    }
    assert("office:date-value"@ != "office:time-value"@) by {
        assert("office:date-value"@[7] == 'd');
        assert("office:time-value"@[7] == 't');
    }
    let va = crate::write::value_attrs(v);
    reveal_with_fuel(map_get, 5);
    match v {
        crate::value::ValModel::Text(_) => {
            assert(va.skip(1) =~= Seq::<(Seq<char>, Seq<char>)>::empty());
        },
        crate::value::ValModel::Number(d) => {
            assert(va[0].0 == "office:value-type"@ && va[1].0 == "office:value"@);
            assert(va.skip(1).skip(1) =~= Seq::<(Seq<char>, Seq<char>)>::empty());
            assert(va.skip(1)[0] == va[1]);
        },
        crate::value::ValModel::Percentage(d) => {
            assert(va[0].0 == "office:value-type"@ && va[1].0 == "office:value"@);
            assert(va.skip(1).skip(1) =~= Seq::<(Seq<char>, Seq<char>)>::empty());
            assert(va.skip(1)[0] == va[1]);
        },
        crate::value::ValModel::Currency(c, d) => {
            assert(va[0].0 == "office:value-type"@ && va[1].0 == "office:currency"@ && va[2].0
                == "office:value"@);
            assert(va.skip(1)[0] == va[1] && va.skip(1).skip(1)[0] == va[2]);
            assert(va.skip(1).skip(1).skip(1) =~= Seq::<(Seq<char>, Seq<char>)>::empty());
        },
        crate::value::ValModel::Boolean(b) => {
            assert(va[0].0 == "office:value-type"@ && va[1].0 == "office:boolean-value"@);
            assert(va.skip(1)[0] == va[1]);
            assert(va.skip(1).skip(1) =~= Seq::<(Seq<char>, Seq<char>)>::empty());
        },
        crate::value::ValModel::DateTime(dt) => {
            assert(va[0].0 == "office:value-type"@ && va[1].0 == "office:date-value"@);
            assert(va.skip(1)[0] == va[1]);
            assert(va.skip(1).skip(1) =~= Seq::<(Seq<char>, Seq<char>)>::empty());
        },
        crate::value::ValModel::TimeDuration(du) => {
            assert(va[0].0 == "office:value-type"@ && va[1].0 == "office:time-value"@);
            assert(va.skip(1)[0] == va[1]);
            assert(va.skip(1).skip(1) =~= Seq::<(Seq<char>, Seq<char>)>::empty());
        },
    }
}

/// No entry of a cell's attribute list is named `key` when every written
/// name differs from it.
proof fn lemma_attrs_no_repeat(a: Seq<(Seq<char>, Seq<char>)>, key: Seq<char>)
    requires
        forall|j: int| 0 <= j < a.len() ==> (#[trigger] a[j]).0 != key,
    ensures
        spec_repeat(a, key) == 1,
    decreases a.len(),
{
    crate::attrmap::lemma_map_get_none(a, key);
}

} // verus!
