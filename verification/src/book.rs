//! The sparse workbook model.
//!
//! A sheet keeps its cells in a vector sorted by position, row-major, with
//! one entry per occupied cell.  A missing position means an empty default
//! cell; absence is the in-memory form of the format's repeat-count
//! compression, so a fully empty row costs nothing.

use vstd::prelude::*;

use crate::format::ValueFormat;
use crate::style::FontDecl;
use crate::style::Style;
use crate::value::ValModel;
use crate::value::Value;
use crate::value::ValueType;

verus! {

/// How many columns one row can address; the position key packs a row and a
/// column into one integer as `row * COLUMN_SPAN + column`.
pub const COLUMN_SPAN: u64 = 4294967296;

/// The packed position of a cell: row-major order of positions is plain
/// order of keys.
pub open spec fn pos_key(row: nat, col: nat) -> nat {
    row * 4294967296 + col
}

/// Packs a position at run time.
pub fn pack_pos(row: u32, col: u32) -> (r: u64)
    ensures
        r as nat == pos_key(row as nat, col as nat),
{
    row as u64 * COLUMN_SPAN + col as u64
}

/// A smaller key never has a larger row; and within one row, a smaller key
/// has a smaller column.
pub proof fn lemma_pos_key_div_order(k1: u64, k2: u64)
    requires
        k1 < k2,
    ensures
        k1 as nat / 4294967296 <= k2 as nat / 4294967296,
        (k1 as nat / 4294967296 == k2 as nat / 4294967296) ==> (k1 as nat % 4294967296 < k2
            as nat % 4294967296),
{
    vstd::arithmetic::div_mod::lemma_div_is_ordered(k1 as int, k2 as int, 4294967296);
    vstd::arithmetic::div_mod::lemma_fundamental_div_mod(k1 as int, 4294967296);
    vstd::arithmetic::div_mod::lemma_fundamental_div_mod(k2 as int, 4294967296);
}

/// The mathematical content of a cell.
pub ghost struct SCellModel {
    /// The typed value, if any.
    pub value: Option<ValModel>,
    /// The name of an explicit cell style, if any.
    pub style: Option<Seq<char>>,
    /// The stored formula, if any, kept opaque.
    pub formula: Option<Seq<char>>,
}

/// One occupied cell: an optional typed value, an optional style name, and
/// an optional opaque formula.
#[derive(Debug)]
pub struct SCell {
    /// The typed value, if any.
    pub value: Option<Value>,
    /// The name of an explicit cell style, if any.
    pub style: Option<String>,
    /// The stored formula, if any, kept opaque.
    pub formula: Option<String>,
}

impl View for SCell {
    type V = SCellModel;

    open spec fn view(&self) -> SCellModel {
        SCellModel {
            value: match &self.value {
                Some(v) => Some(v@),
                None => None,
            },
            style: match &self.style {
                Some(s) => Some(s@),
                None => None,
            },
            formula: match &self.formula {
                Some(s) => Some(s@),
                None => None,
            },
        }
    }
}

impl SCell {
    /// A cell with nothing in it.
    pub fn new() -> (r: SCell)
        ensures
            r@.value is None,
            r@.style is None,
            r@.formula is None,
    {
        SCell { value: None, style: None, formula: None }
    }

    /// Well-formedness: the value, if any, within its own invariant.
    pub open spec fn wf(&self) -> bool {
        match &self.value {
            Some(v) => v.wf(),
            None => true,
        }
    }

    /// Whether the cell carries nothing at all; such a cell is never
    /// materialized by a read and written as a bare empty element.
    pub open spec fn is_blank(&self) -> bool {
        self@.value is None && self@.style is None && self@.formula is None
    }
}

/// Column metadata: a column style and a default style for its cells.
#[derive(Debug)]
pub struct SColumn {
    /// The column's own style name, if any.
    pub style: Option<String>,
    /// The default style of the column's cells, if any.
    pub def_cell_style: Option<String>,
}

/// The mathematical content of a column entry.
pub ghost struct SColumnModel {
    /// The column's own style name, if any.
    pub style: Option<Seq<char>>,
    /// The default style of the column's cells, if any.
    pub def_cell_style: Option<Seq<char>>,
}

impl View for SColumn {
    type V = SColumnModel;

    open spec fn view(&self) -> SColumnModel {
        SColumnModel {
            style: match &self.style {
                Some(s) => Some(s@),
                None => None,
            },
            def_cell_style: match &self.def_cell_style {
                Some(s) => Some(s@),
                None => None,
            },
        }
    }
}

impl SColumn {
    /// A column with no styling.
    pub fn new() -> (r: SColumn)
        ensures
            r@.style is None,
            r@.def_cell_style is None,
    {
        SColumn { style: None, def_cell_style: None }
    }

    /// A copy of the column entry.
    pub fn duplicate(&self) -> (r: SColumn)
        ensures
            r@ == self@,
    {
        SColumn {
            style: crate::book::copy_opt_string(&self.style),
            def_cell_style: crate::book::copy_opt_string(&self.def_cell_style),
        }
    }
}

/// Copies an optional string.
pub fn copy_opt_string(o: &Option<String>) -> (r: Option<String>)
    ensures
        match (o, &r) {
            (Some(a), Some(b)) => a@ == b@,
            (None, None) => true,
            _ => false,
        },
{
    match o {
        Some(s) => Some(s.clone()),
        None => None,
    }
}

/// Row metadata: a row style.
#[derive(Debug)]
pub struct SRow {
    /// The row's style name.
    pub style: Option<String>,
}

/// Whether a key sequence is strictly increasing.
pub open spec fn keys_sorted<T>(s: Seq<(u64, T)>) -> bool {
    forall|i: int, j: int| 0 <= i < j < s.len() ==> (#[trigger] s[i]).0 < (#[trigger] s[j]).0
}

/// The set of keys a sorted association holds.
pub open spec fn key_set<T>(s: Seq<(u64, T)>) -> Set<u64> {
    Set::new(|k: u64| exists|i: int| 0 <= i < s.len() && (#[trigger] s[i]).0 == k)
}

/// The value bound to key `k`, if any.
pub open spec fn assoc_at<T>(s: Seq<(u64, T)>, k: u64) -> Option<T>
    decreases s.len(),
{
    if s.len() == 0 {
        None
    } else if s[0].0 == k {
        Some(s[0].1)
    } else {
        assoc_at(s.skip(1), k)
    }
}

/// Binds `k` to `val` in a key-sorted association, replacing an existing
/// binding or inserting at the right place.
pub fn upsert_sorted<T>(v: &mut Vec<(u64, T)>, k: u64, val: T)
    requires
        keys_sorted(old(v)@),
    ensures
        keys_sorted(final(v)@),
        assoc_at(final(v)@, k) == Some(val),
        forall|k2: u64| k2 != k ==> #[trigger] assoc_at(final(v)@, k2) == assoc_at(old(v)@, k2),
        key_set(final(v)@) == key_set(old(v)@).insert(k),
        final(v)@.len() <= old(v)@.len() + 1,
        old(v)@.len() <= final(v)@.len(),
{
    let ghost pre = v@;
    let mut i: usize = 0;
    while i < v.len() && v[i].0 < k
        invariant
            v@ == pre,
            pre == old(v)@,
            keys_sorted(pre),
            i <= v@.len(),
            forall|j: int| 0 <= j < i ==> (#[trigger] v@[j]).0 < k,
        decreases v@.len() - i,
    {
        i += 1;
    }
    if i < v.len() && v[i].0 == k {
        v.set(i, (k, val));
        proof {
            assert(v@ =~= pre.update(i as int, (k, val)));
            lemma_assoc_update(pre, i as int, k, val);
            assert(forall|n: int| 0 <= n < pre.len() ==> (#[trigger] v@[n]).0 == pre[n].0);
            assert(key_set(v@) =~= key_set(pre).insert(k)) by {
                assert forall|k2: u64| key_set(v@).contains(k2) <==> key_set(pre).insert(
                    k,
                ).contains(k2) by {
                    if k2 == k {
                        assert(v@[i as int].0 == k);
                        assert(pre[i as int].0 == k);
                    } else {
                        if key_set(v@).contains(k2) {
                            let n = choose|n: int| 0 <= n < v@.len() && (#[trigger] v@[n]).0 == k2;
                            assert(pre[n].0 == k2);
                        }
                        if key_set(pre).contains(k2) {
                            let n = choose|n: int|
                                0 <= n < pre.len() && (#[trigger] pre[n]).0 == k2;
                            assert(v@[n].0 == k2);
                        }
                    }
                }
            }
        }
    } else {
        proof {
            if i < v@.len() {
                assert(forall|j: int|
                    i <= j < pre.len() ==> k < (#[trigger] pre[j]).0) by {
                    assert(pre[i as int].0 > k);
                    assert(forall|j: int| i < j < pre.len() ==> pre[i as int].0 < (#[trigger] pre[j]).0);
                }
            }
        }
        v.insert(i, (k, val));
        proof {
            assert(v@ =~= pre.insert(i as int, (k, val)));
            lemma_assoc_insert(pre, i as int, k, val);
            assert(keys_sorted(v@)) by {
                assert forall|a: int, b: int|
                    0 <= a < b < v@.len() implies (#[trigger] v@[a]).0 < (#[trigger] v@[b]).0 by {
                    if a < i && b == i {
                    } else if a == i && b > i {
                        assert(v@[b].0 == pre[b - 1].0);
                    } else if a < i && b > i {
                        assert(v@[a].0 == pre[a].0 && v@[b].0 == pre[b - 1].0);
                    } else if a < i && b < i {
                        assert(v@[a].0 == pre[a].0 && v@[b].0 == pre[b].0);
                    } else {
                        assert(v@[a].0 == pre[a - 1].0 && v@[b].0 == pre[b - 1].0);
                    }
                }
            }
            assert(key_set(v@) =~= key_set(pre).insert(k)) by {
                assert forall|k2: u64| key_set(v@).contains(k2) <==> key_set(pre).insert(
                    k,
                ).contains(k2) by {
                    if key_set(v@).contains(k2) {
                        let n = choose|n: int| 0 <= n < v@.len() && (#[trigger] v@[n]).0 == k2;
                        if n < i {
                            assert(pre[n].0 == k2);
                        } else if n > i {
                            assert(pre[n - 1].0 == k2);
                        }
                    }
                    if k2 != k && key_set(pre).contains(k2) {
                        let n = choose|n: int| 0 <= n < pre.len() && (#[trigger] pre[n]).0 == k2;
                        if n < i {
                            assert(v@[n].0 == k2);
                        } else {
                            assert(v@[n + 1].0 == k2);
                        }
                    }
                    if k2 == k {
                        assert(v@[i as int].0 == k);
                    }
                }
            }
        }
    }
}

/// Finds the value bound to `k`.
pub fn assoc_get<'a, T>(v: &'a Vec<(u64, T)>, k: u64) -> (r: Option<&'a T>)
    ensures
        match r {
            Some(t) => assoc_at(v@, k) == Some(*t),
            None => assoc_at(v@, k) is None,
        },
{
    let mut i: usize = 0;
    while i < v.len()
        invariant
            i <= v@.len(),
            forall|j: int| 0 <= j < i ==> (#[trigger] v@[j]).0 != k,
        decreases v@.len() - i,
    {
        if v[i].0 == k {
            proof {
                lemma_assoc_found(v@, i as int);
            }
            return Some(&v[i].1);
        }
        i += 1;
    }
    proof {
        lemma_assoc_none(v@, k);
    }
    None
}

/// A binding replaced in place keeps every other binding.
proof fn lemma_assoc_update<T>(s: Seq<(u64, T)>, i: int, k: u64, val: T)
    requires
        0 <= i < s.len(),
        s[i].0 == k,
        forall|j: int| 0 <= j < i ==> (#[trigger] s[j]).0 != k,
    ensures
        assoc_at(s.update(i, (k, val)), k) == Some(val),
        forall|k2: u64| k2 != k ==> #[trigger] assoc_at(s.update(i, (k, val)), k2) == assoc_at(
            s,
            k2,
        ),
    decreases i,
{
    if i == 0 {
        assert(s.update(0, (k, val))[0] == (k, val));
        assert forall|k2: u64| k2 != k implies #[trigger] assoc_at(s.update(0, (k, val)), k2)
            == assoc_at(s, k2) by {
            reveal_with_fuel(assoc_at, 3);
            assert(s.update(0, (k, val)).skip(1) =~= s.skip(1));
            assert(s[0].0 == k);
        }
    } else {
        assert(s.update(i, (k, val)).skip(1) =~= s.skip(1).update(i - 1, (k, val)));
        assert(forall|j: int| 0 <= j < i - 1 ==> (#[trigger] s.skip(1)[j]).0 != k);
        lemma_assoc_update(s.skip(1), i - 1, k, val);
        assert(s.update(i, (k, val))[0] == s[0]);
        assert(s[0].0 != k);
        assert forall|k2: u64| k2 != k implies #[trigger] assoc_at(s.update(i, (k, val)), k2)
            == assoc_at(s, k2) by {
            reveal_with_fuel(assoc_at, 2);
            if s[0].0 != k2 {
                assert(assoc_at(s.update(i, (k, val)), k2) == assoc_at(
                    s.skip(1).update(i - 1, (k, val)),
                    k2,
                ));
                assert(assoc_at(s, k2) == assoc_at(s.skip(1), k2));
            }
        }
        assert(assoc_at(s.update(i, (k, val)), k) == Some(val)) by {
            reveal_with_fuel(assoc_at, 2);
            assert(assoc_at(s.update(i, (k, val)), k) == assoc_at(
                s.skip(1).update(i - 1, (k, val)),
                k,
            ));
        }
    }
}

/// A binding inserted at a fresh place keeps every other binding.
proof fn lemma_assoc_insert<T>(s: Seq<(u64, T)>, i: int, k: u64, val: T)
    requires
        0 <= i <= s.len(),
        forall|j: int| 0 <= j < s.len() ==> (#[trigger] s[j]).0 != k,
    ensures
        assoc_at(s.insert(i, (k, val)), k) == Some(val),
        forall|k2: u64| k2 != k ==> #[trigger] assoc_at(s.insert(i, (k, val)), k2) == assoc_at(
            s,
            k2,
        ),
    decreases i,
{
    if i == 0 {
        assert(s.insert(0, (k, val))[0] == (k, val));
        assert forall|k2: u64| k2 != k implies #[trigger] assoc_at(s.insert(0, (k, val)), k2)
            == assoc_at(s, k2) by {
            reveal_with_fuel(assoc_at, 3);
            assert(s.insert(0, (k, val)).skip(1) =~= s);
        }
    } else {
        assert(s.insert(i, (k, val)).skip(1) =~= s.skip(1).insert(i - 1, (k, val)));
        assert(forall|j: int| 0 <= j < s.skip(1).len() ==> (#[trigger] s.skip(1)[j]).0 != k);
        lemma_assoc_insert(s.skip(1), i - 1, k, val);
        assert(s.insert(i, (k, val))[0] == s[0]);
        assert(s[0].0 != k);
        assert forall|k2: u64| k2 != k implies #[trigger] assoc_at(s.insert(i, (k, val)), k2)
            == assoc_at(s, k2) by {
            reveal_with_fuel(assoc_at, 2);
            if s[0].0 != k2 {
                assert(assoc_at(s.insert(i, (k, val)), k2) == assoc_at(
                    s.skip(1).insert(i - 1, (k, val)),
                    k2,
                ));
                assert(assoc_at(s, k2) == assoc_at(s.skip(1), k2));
            }
        }
        assert(assoc_at(s.insert(i, (k, val)), k) == Some(val)) by {
            reveal_with_fuel(assoc_at, 2);
            assert(assoc_at(s.insert(i, (k, val)), k) == assoc_at(
                s.skip(1).insert(i - 1, (k, val)),
                k,
            ));
        }
    }
}

/// A key found first is the binding.
proof fn lemma_assoc_found<T>(s: Seq<(u64, T)>, i: int)
    requires
        0 <= i < s.len(),
        forall|j: int| 0 <= j < i ==> (#[trigger] s[j]).0 != s[i].0,
    ensures
        assoc_at(s, s[i].0) == Some(s[i].1),
    decreases i,
{
    if i > 0 {
        assert(forall|j: int| 0 <= j < i - 1 ==> (#[trigger] s.skip(1)[j]).0 != s[i].0);
        assert(s.skip(1)[i - 1] == s[i]);
        lemma_assoc_found(s.skip(1), i - 1);
    }
}

/// A key matching no entry is unbound.
proof fn lemma_assoc_none<T>(s: Seq<(u64, T)>, k: u64)
    requires
        forall|j: int| 0 <= j < s.len() ==> (#[trigger] s[j]).0 != k,
    ensures
        assoc_at(s, k) is None,
    decreases s.len(),
{
    if s.len() > 0 {
        assert(forall|j: int| 0 <= j < s.skip(1).len() ==> (#[trigger] s.skip(1)[j]).0 != k);
        lemma_assoc_none(s.skip(1), k);
    }
}

/// One sheet: a name, optional styling, sparse column and row metadata, and
/// the sparse cell grid sorted row-major.
#[derive(Debug)]
pub struct Sheet {
    /// The sheet's name.
    pub name: String,
    /// The sheet's style name, if any.
    pub style: Option<String>,
    /// Column metadata, sorted by column index.
    pub columns: Vec<(u64, SColumn)>,
    /// Row styles, sorted by row index.
    pub rows: Vec<(u64, SRow)>,
    /// The occupied cells, sorted by packed position.
    pub data: Vec<(u64, SCell)>,
}

impl Sheet {
    /// Well-formedness: all three associations strictly sorted, every cell
    /// within its invariant, and every index within the addressable range.
    pub open spec fn wf(&self) -> bool {
        &&& keys_sorted(self.columns@)
        &&& keys_sorted(self.rows@)
        &&& keys_sorted(self.data@)
        &&& forall|i: int| 0 <= i < self.data@.len() ==> (#[trigger] self.data@[i]).1.wf()
        &&& forall|i: int|
            0 <= i < self.columns@.len() ==> (#[trigger] self.columns@[i]).0 < 4294967296
        &&& forall|i: int| 0 <= i < self.rows@.len() ==> (#[trigger] self.rows@[i]).0 < 4294967296
    }

    /// An empty sheet.
    pub fn new() -> (r: Sheet)
        ensures
            r.wf(),
            r.name@ == Seq::<char>::empty(),
            r.style is None,
            r.columns@.len() == 0,
            r.rows@.len() == 0,
            r.data@.len() == 0,
    {
        Sheet { name: String::new(), style: None, columns: Vec::new(), rows: Vec::new(), data: Vec::new() }
    }

    /// Names the sheet.
    pub fn set_name(&mut self, name: String)
        ensures
            final(self).name@ == name@,
            final(self).style == old(self).style,
            final(self).columns == old(self).columns,
            final(self).rows == old(self).rows,
            final(self).data == old(self).data,
    {
        self.name = name;
    }

    /// Gives the sheet a style reference.
    pub fn set_style(&mut self, style: String)
        ensures
            final(self).style matches Some(s) && s@ == style@,
            final(self).name == old(self).name,
            final(self).columns == old(self).columns,
            final(self).rows == old(self).rows,
            final(self).data == old(self).data,
    {
        self.style = Some(style);
    }

    /// Decides well-formedness at run time, for callers that assemble
    /// sheets by hand before handing them to the serializer.
    pub fn check_wf(&self) -> (r: bool)
        ensures
            r == self.wf(),
    {
        check_sorted_cells(&self.data) && check_sorted_bounded(&self.columns)
            && check_sorted_bounded_rows(&self.rows) && check_cells_wf(&self.data)
    }

    /// Puts a cell at a position, replacing what was there.
    pub fn add_cell(&mut self, row: u32, col: u32, cell: SCell)
        requires
            old(self).wf(),
            cell.wf(),
        ensures
            final(self).wf(),
            assoc_at(final(self).data@, (pos_key(row as nat, col as nat)) as u64) == Some(cell),
            forall|k2: u64|
                k2 as nat != pos_key(row as nat, col as nat) ==> #[trigger] assoc_at(
                    final(self).data@,
                    k2,
                ) == assoc_at(old(self).data@, k2),
            key_set(final(self).data@) == key_set(old(self).data@).insert(
                (pos_key(row as nat, col as nat)) as u64,
            ),
            final(self).name == old(self).name,
            final(self).style == old(self).style,
            final(self).columns == old(self).columns,
            final(self).rows == old(self).rows,
    {
        let k = pack_pos(row, col);
        let ghost pre = self.data@;
        upsert_sorted(&mut self.data, k, cell);
        proof {
            assert forall|i: int|
                0 <= i < self.data@.len() implies (#[trigger] self.data@[i]).1.wf() by {
                let ki = self.data@[i].0;
                if ki == k {
                    lemma_assoc_sorted_unique(self.data@, i, k);
                } else {
                    assert(assoc_at(self.data@, ki) == assoc_at(pre, ki));
                    lemma_assoc_sorted_unique(self.data@, i, ki);
                    lemma_assoc_member_wf(pre, ki);
                }
            }
        }
    }

    /// Looks a cell up by position.
    pub fn cell(&self, row: u32, col: u32) -> (r: Option<&SCell>)
        ensures
            match r {
                Some(c) => assoc_at(self.data@, (pos_key(row as nat, col as nat)) as u64) == Some(
                    *c,
                ),
                None => assoc_at(self.data@, (pos_key(row as nat, col as nat)) as u64) is None,
            },
    {
        let k = pack_pos(row, col);
        assoc_get(&self.data, k)
    }

    /// Gives one row a style, as repeated rows do for every row they cover.
    pub fn set_row_style(&mut self, row: u32, style: String)
        requires
            old(self).wf(),
        ensures
            final(self).wf(),
            assoc_at(final(self).rows@, row as u64) matches Some(r) && r.style matches Some(s)
                && s@ == style@,
            forall|k2: u64|
                k2 != row as u64 ==> #[trigger] assoc_at(final(self).rows@, k2) == assoc_at(
                    old(self).rows@,
                    k2,
                ),
            final(self).name == old(self).name,
            final(self).style == old(self).style,
            final(self).columns == old(self).columns,
            final(self).data == old(self).data,
    {
        let ghost pre = self.rows@;
        upsert_sorted(&mut self.rows, row as u64, SRow { style: Some(style) });
        proof {
            assert forall|i: int|
                0 <= i < self.rows@.len() implies (#[trigger] self.rows@[i]).0 < 4294967296 by {
                let ki = self.rows@[i].0;
                assert(key_set(self.rows@).contains(ki));
                if ki != row as u64 {
                    assert(key_set(pre).contains(ki));
                    let n = choose|n: int| 0 <= n < pre.len() && (#[trigger] pre[n]).0 == ki;
                }
            }
        }
    }

    /// Puts column metadata at a column index, replacing what was there.
    pub fn set_column(&mut self, col: u32, column: SColumn)
        requires
            old(self).wf(),
        ensures
            final(self).wf(),
            assoc_at(final(self).columns@, col as u64) == Some(column),
            forall|k2: u64|
                k2 != col as u64 ==> #[trigger] assoc_at(final(self).columns@, k2) == assoc_at(
                    old(self).columns@,
                    k2,
                ),
            final(self).name == old(self).name,
            final(self).style == old(self).style,
            final(self).rows == old(self).rows,
            final(self).data == old(self).data,
    {
        let ghost pre = self.columns@;
        upsert_sorted(&mut self.columns, col as u64, column);
        proof {
            assert forall|i: int|
                0 <= i < self.columns@.len() implies (#[trigger] self.columns@[i]).0
                < 4294967296 by {
                let ki = self.columns@[i].0;
                assert(key_set(self.columns@).contains(ki));
                if ki != col as u64 {
                    assert(key_set(pre).contains(ki));
                    let n = choose|n: int| 0 <= n < pre.len() && (#[trigger] pre[n]).0 == ki;
                }
            }
        }
    }

    /// The used extent: one past the highest occupied row and column.
    pub fn used_grid_size(&self) -> (r: (u64, u64))
        requires
            self.wf(),
        ensures
            r.0 as nat == used_rows(self.data@),
            r.1 as nat == used_cols(self.data@),
    {
        let rows: u64 = if self.data.len() == 0 {
            0
        } else {
            self.data[self.data.len() - 1].0 / COLUMN_SPAN + 1
        };
        let mut cols: u64 = 0;
        let mut i: usize = 0;
        while i < self.data.len()
            invariant
                i <= self.data@.len(),
                cols as nat == used_cols(self.data@.take(i as int)),
                cols <= 4294967296,
            decreases self.data@.len() - i,
        {
            let c = self.data[i].0 % COLUMN_SPAN;
            proof {
                assert(self.data@.take((i + 1) as int).drop_last() =~= self.data@.take(i as int));
            }
            if c + 1 > cols {
                cols = c + 1;
            }
            i += 1;
        }
        proof {
            assert(self.data@.take(self.data@.len() as int) =~= self.data@);
        }
        (rows, cols)
    }
}

/// One past the highest occupied row: the last entry's row, since the grid
/// is sorted row-major.
pub open spec fn used_rows(s: Seq<(u64, SCell)>) -> nat {
    if s.len() == 0 {
        0
    } else {
        s.last().0 as nat / 4294967296 + 1
    }
}

/// One past the highest occupied column, over all entries.
pub open spec fn used_cols(s: Seq<(u64, SCell)>) -> nat
    decreases s.len(),
{
    if s.len() == 0 {
        0
    } else {
        let c = s.last().0 as nat % 4294967296 + 1;
        if c > used_cols(s.drop_last()) {
            c
        } else {
            used_cols(s.drop_last())
        }
    }
}

/// The newest default-style binding of a value kind.
pub open spec fn find_def(s: Seq<(ValueType, String)>, vt: ValueType) -> Option<Seq<char>>
    decreases s.len(),
{
    if s.len() == 0 {
        None
    } else if s.last().0 == vt {
        Some(s.last().1@)
    } else {
        find_def(s.drop_last(), vt)
    }
}

/// The newest style of a name.
pub open spec fn find_style_named(s: Seq<Style>, name: Seq<char>) -> Option<Style>
    decreases s.len(),
{
    if s.len() == 0 {
        None
    } else if s.last().name@ == name {
        Some(s.last())
    } else {
        find_style_named(s.drop_last(), name)
    }
}

/// The newest value format of a name.
pub open spec fn find_format_named(s: Seq<ValueFormat>, name: Seq<char>) -> Option<ValueFormat>
    decreases s.len(),
{
    if s.len() == 0 {
        None
    } else if s.last().name@ == name {
        Some(s.last())
    } else {
        find_format_named(s.drop_last(), name)
    }
}

/// The data-style name a cell style refers to.
pub open spec fn value_style_ref(s: Seq<Style>, style_name: Seq<char>) -> Option<Seq<char>> {
    match find_style_named(s, style_name) {
        Some(st) => match st.value_style {
            Some(vs) => Some(vs@),
            None => None,
        },
        None => None,
    }
}

/// Adjacent strict increase gives pairwise strict increase.
proof fn lemma_sorted_from_adjacent<T>(s: Seq<(u64, T)>)
    requires
        forall|j: int| 0 < j < s.len() ==> (#[trigger] s[j - 1]).0 < s[j].0,
    ensures
        keys_sorted(s),
{
    assert forall|a: int, b: int| 0 <= a < b < s.len() implies (#[trigger] s[a]).0 < (
    #[trigger] s[b]).0 by {
        lemma_key_chain(s, a, b);
    }
}

/// Keys grow along any span of adjacent increases.
proof fn lemma_key_chain<T>(s: Seq<(u64, T)>, a: int, b: int)
    requires
        forall|j: int| 0 < j < s.len() ==> (#[trigger] s[j - 1]).0 < s[j].0,
        0 <= a < b < s.len(),
    ensures
        s[a].0 < s[b].0,
    decreases b - a,
{
    if a + 1 < b {
        lemma_key_chain(s, a, b - 1);
    }
    assert(s[b - 1].0 < s[b].0);
}

/// Whether the cell keys strictly increase.
fn check_sorted_cells(v: &Vec<(u64, SCell)>) -> (r: bool)
    ensures
        r == keys_sorted(v@),
{
    let mut i: usize = 1;
    while i < v.len()
        invariant
            1 <= i,
            i <= v@.len() || v@.len() == 0,
            forall|j: int| 0 < j < i && j < v@.len() ==> (#[trigger] v@[j - 1]).0 < v@[j].0,
        decreases v@.len() - i,
    {
        if v[i - 1].0 >= v[i].0 {
            return false;
        }
        i += 1;
    }
    proof {
        lemma_sorted_from_adjacent(v@);
    }
    true
}

/// Whether the column keys strictly increase and stay addressable.
fn check_sorted_bounded(v: &Vec<(u64, SColumn)>) -> (r: bool)
    ensures
        r == (keys_sorted(v@) && forall|i: int|
            0 <= i < v@.len() ==> (#[trigger] v@[i]).0 < 4294967296),
{
    let mut i: usize = 0;
    while i < v.len()
        invariant
            i <= v@.len(),
            forall|j: int| 0 <= j < i ==> (#[trigger] v@[j]).0 < 4294967296,
        decreases v@.len() - i,
    {
        if v[i].0 >= 4294967296u64 {
            return false;
        }
        i += 1;
    }
    let mut k: usize = 1;
    while k < v.len()
        invariant
            1 <= k,
            k <= v@.len() || v@.len() == 0,
            forall|j: int| 0 < j < k && j < v@.len() ==> (#[trigger] v@[j - 1]).0 < v@[j].0,
        decreases v@.len() - k,
    {
        if v[k - 1].0 >= v[k].0 {
            return false;
        }
        k += 1;
    }
    proof {
        lemma_sorted_from_adjacent(v@);
    }
    true
}

/// Whether the row keys strictly increase and stay addressable.
fn check_sorted_bounded_rows(v: &Vec<(u64, SRow)>) -> (r: bool)
    ensures
        r == (keys_sorted(v@) && forall|i: int|
            0 <= i < v@.len() ==> (#[trigger] v@[i]).0 < 4294967296),
{
    let mut i: usize = 0;
    while i < v.len()
        invariant
            i <= v@.len(),
            forall|j: int| 0 <= j < i ==> (#[trigger] v@[j]).0 < 4294967296,
        decreases v@.len() - i,
    {
        if v[i].0 >= 4294967296u64 {
            return false;
        }
        i += 1;
    }
    let mut k: usize = 1;
    while k < v.len()
        invariant
            1 <= k,
            k <= v@.len() || v@.len() == 0,
            forall|j: int| 0 < j < k && j < v@.len() ==> (#[trigger] v@[j - 1]).0 < v@[j].0,
        decreases v@.len() - k,
    {
        if v[k - 1].0 >= v[k].0 {
            return false;
        }
        k += 1;
    }
    proof {
        lemma_sorted_from_adjacent(v@);
    }
    true
}

/// Whether every cell of the grid is well formed.
fn check_cells_wf(v: &Vec<(u64, SCell)>) -> (r: bool)
    ensures
        r == (forall|i: int| 0 <= i < v@.len() ==> (#[trigger] v@[i]).1.wf()),
{
    let mut i: usize = 0;
    while i < v.len()
        invariant
            i <= v@.len(),
            forall|j: int| 0 <= j < i ==> (#[trigger] v@[j]).1.wf(),
        decreases v@.len() - i,
    {
        let ok = match &v[i].1.value {
            Some(val) => val.check_wf(),
            None => true,
        };
        if !ok {
            return false;
        }
        i += 1;
    }
    true
}

/// In a sorted association every entry is its own key's binding.
pub proof fn lemma_assoc_sorted_unique<T>(s: Seq<(u64, T)>, i: int, k: u64)
    requires
        keys_sorted(s),
        0 <= i < s.len(),
        s[i].0 == k,
    ensures
        assoc_at(s, k) == Some(s[i].1),
{
    assert(forall|j: int| 0 <= j < i ==> (#[trigger] s[j]).0 != k);
    lemma_assoc_found(s, i);
}

/// A bound value in a well-formed grid is a well-formed cell.
proof fn lemma_assoc_member_wf(s: Seq<(u64, SCell)>, k: u64)
    requires
        forall|i: int| 0 <= i < s.len() ==> (#[trigger] s[i]).1.wf(),
    ensures
        match assoc_at(s, k) {
            Some(c) => c.wf(),
            None => true,
        },
    decreases s.len(),
{
    if s.len() > 0 && s[0].0 != k {
        assert(forall|i: int| 0 <= i < s.skip(1).len() ==> (#[trigger] s.skip(1)[i]).1.wf());
        lemma_assoc_member_wf(s.skip(1), k);
    }
}

/// The per-type default styles and the named catalogs of a workbook.
#[derive(Debug)]
pub struct WorkBook {
    /// The sheets, in document order.
    pub sheets: Vec<Sheet>,
    /// The named cosmetic styles.
    pub styles: Vec<Style>,
    /// The named value formats.
    pub formats: Vec<ValueFormat>,
    /// The declared fonts.
    pub fonts: Vec<FontDecl>,
    /// The default cell style of each value kind, where one was set.
    pub defs: Vec<(ValueType, String)>,
    /// The path the workbook was read from, if any.
    pub file: Option<String>,
}

impl WorkBook {
    /// Well-formedness: every sheet within its invariant.
    pub open spec fn wf(&self) -> bool {
        forall|i: int| 0 <= i < self.sheets@.len() ==> (#[trigger] self.sheets@[i]).wf()
    }

    /// An empty workbook.
    pub fn new() -> (r: WorkBook)
        ensures
            r.wf(),
            r.sheets@.len() == 0,
            r.styles@.len() == 0,
            r.formats@.len() == 0,
            r.fonts@.len() == 0,
            r.defs@.len() == 0,
            r.file is None,
    {
        WorkBook {
            sheets: Vec::new(),
            styles: Vec::new(),
            formats: Vec::new(),
            fonts: Vec::new(),
            defs: Vec::new(),
            file: None,
        }
    }

    /// Registers a style; a later style of the same name wins lookups.
    pub fn add_style(&mut self, style: Style)
        ensures
            final(self).styles@ == old(self).styles@.push(style),
            final(self).sheets == old(self).sheets,
            final(self).formats == old(self).formats,
            final(self).fonts == old(self).fonts,
            final(self).defs == old(self).defs,
            final(self).file == old(self).file,
    {
        self.styles.push(style);
    }

    /// Registers a value format; a later format of the same name wins.
    pub fn add_format(&mut self, format: ValueFormat)
        ensures
            final(self).formats@ == old(self).formats@.push(format),
            final(self).sheets == old(self).sheets,
            final(self).styles == old(self).styles,
            final(self).fonts == old(self).fonts,
            final(self).defs == old(self).defs,
            final(self).file == old(self).file,
    {
        self.formats.push(format);
    }

    /// Registers a font declaration.
    pub fn add_font(&mut self, font: FontDecl)
        ensures
            final(self).fonts@ == old(self).fonts@.push(font),
            final(self).sheets == old(self).sheets,
            final(self).styles == old(self).styles,
            final(self).formats == old(self).formats,
            final(self).defs == old(self).defs,
            final(self).file == old(self).file,
    {
        self.fonts.push(font);
    }

    /// Makes `name` the default cell style of one value kind.
    pub fn add_def_style(&mut self, vt: ValueType, name: String)
        ensures
            final(self).defs@ == old(self).defs@.push((vt, name)),
            final(self).sheets == old(self).sheets,
            final(self).styles == old(self).styles,
            final(self).formats == old(self).formats,
            final(self).fonts == old(self).fonts,
            final(self).file == old(self).file,
    {
        self.defs.push((vt, name));
    }

    /// The default cell style of a value kind, if one was set.
    pub fn def_style(&self, vt: ValueType) -> (r: Option<&String>)
        ensures
            match r {
                Some(s) => find_def(self.defs@, vt) == Some(s@),
                None => find_def(self.defs@, vt) is None,
            },
    {
        let mut i: usize = self.defs.len();
        proof {
            assert(self.defs@.take(i as int) =~= self.defs@);
        }
        while i > 0
            invariant
                i <= self.defs@.len(),
                find_def(self.defs@.take(i as int), vt) == find_def(self.defs@, vt),
            decreases i,
        {
            proof {
                assert(self.defs@.take(i as int).last() == self.defs@[i - 1]);
                assert(self.defs@.take(i as int).drop_last() =~= self.defs@.take(i - 1));
            }
            if matches!(self.defs[i - 1].0, ValueType::Text) && matches!(vt, ValueType::Text)
                || matches!(self.defs[i - 1].0, ValueType::Number) && matches!(
                vt,
                ValueType::Number,
            ) || matches!(self.defs[i - 1].0, ValueType::Percentage) && matches!(
                vt,
                ValueType::Percentage,
            ) || matches!(self.defs[i - 1].0, ValueType::Currency) && matches!(
                vt,
                ValueType::Currency,
            ) || matches!(self.defs[i - 1].0, ValueType::Boolean) && matches!(
                vt,
                ValueType::Boolean,
            ) || matches!(self.defs[i - 1].0, ValueType::DateTime) && matches!(
                vt,
                ValueType::DateTime,
            ) || matches!(self.defs[i - 1].0, ValueType::TimeDuration) && matches!(
                vt,
                ValueType::TimeDuration,
            ) {
                return Some(&self.defs[i - 1].1);
            }
            i -= 1;
        }
        proof {
            assert(self.defs@.take(0) =~= Seq::<(ValueType, String)>::empty());
        }
        None
    }

    /// The style of the given name, if registered.
    pub fn find_style(&self, name: &str) -> (r: Option<&Style>)
        ensures
            match r {
                Some(s) => find_style_named(self.styles@, name@) == Some(*s),
                None => find_style_named(self.styles@, name@) is None,
            },
    {
        let mut i: usize = self.styles.len();
        proof {
            assert(self.styles@.take(i as int) =~= self.styles@);
        }
        while i > 0
            invariant
                i <= self.styles@.len(),
                find_style_named(self.styles@.take(i as int), name@) == find_style_named(
                    self.styles@,
                    name@,
                ),
            decreases i,
        {
            proof {
                assert(self.styles@.take(i as int).last() == self.styles@[i - 1]);
                assert(self.styles@.take(i as int).drop_last() =~= self.styles@.take(i - 1));
            }
            if crate::digits::str_eq(self.styles[i - 1].name.as_str(), name) {
                return Some(&self.styles[i - 1]);
            }
            i -= 1;
        }
        proof {
            assert(self.styles@.take(0) =~= Seq::<Style>::empty());
        }
        None
    }

    /// The value format of the given name, if registered.
    pub fn find_format(&self, name: &str) -> (r: Option<&ValueFormat>)
        ensures
            match r {
                Some(f) => find_format_named(self.formats@, name@) == Some(*f),
                None => find_format_named(self.formats@, name@) is None,
            },
    {
        let mut i: usize = self.formats.len();
        proof {
            assert(self.formats@.take(i as int) =~= self.formats@);
        }
        while i > 0
            invariant
                i <= self.formats@.len(),
                find_format_named(self.formats@.take(i as int), name@) == find_format_named(
                    self.formats@,
                    name@,
                ),
            decreases i,
        {
            proof {
                assert(self.formats@.take(i as int).last() == self.formats@[i - 1]);
                assert(self.formats@.take(i as int).drop_last() =~= self.formats@.take(i - 1));
            }
            if crate::digits::str_eq(self.formats[i - 1].name.as_str(), name) {
                return Some(&self.formats[i - 1]);
            }
            i -= 1;
        }
        proof {
            assert(self.formats@.take(0) =~= Seq::<ValueFormat>::empty());
        }
        None
    }

    /// The value format a cell style points at, resolved through the
    /// style's data-style reference.
    pub fn find_value_style(&self, style_name: &str) -> (r: Option<&ValueFormat>)
        ensures
            match r {
                Some(f) => find_format_named(
                    self.formats@,
                    value_style_ref(self.styles@, style_name@)->0,
                ) == Some(*f) && value_style_ref(self.styles@, style_name@) is Some,
                None => value_style_ref(self.styles@, style_name@) is None || find_format_named(
                    self.formats@,
                    value_style_ref(self.styles@, style_name@)->0,
                ) is None,
            },
    {
        match self.find_style(style_name) {
            Some(st) => match &st.value_style {
                Some(vs) => self.find_format(vs.as_str()),
                None => None,
            },
            None => None,
        }
    }

    /// Decides well-formedness at run time, so the container layer can test
    /// the serializer's precondition on a hand-built workbook.
    pub fn check_wf(&self) -> (r: bool)
        ensures
            r == self.wf(),
    {
        let mut i: usize = 0;
        while i < self.sheets.len()
            invariant
                i <= self.sheets@.len(),
                forall|j: int| 0 <= j < i ==> (#[trigger] self.sheets@[j]).wf(),
            decreases self.sheets@.len() - i,
        {
            if !self.sheets[i].check_wf() {
                return false;
            }
            i += 1;
        }
        true
    }

    /// Appends a sheet.
    pub fn push_sheet(&mut self, sheet: Sheet)
        requires
            sheet.wf(),
        ensures
            final(self).sheets@ == old(self).sheets@.push(sheet),
            old(self).wf() ==> final(self).wf(),
            final(self).styles == old(self).styles,
            final(self).formats == old(self).formats,
            final(self).fonts == old(self).fonts,
            final(self).defs == old(self).defs,
            final(self).file == old(self).file,
    {
        self.sheets.push(sheet);
    }
}

} // verus!
