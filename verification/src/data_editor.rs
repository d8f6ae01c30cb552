//! The Data Table Editor: a spreadsheet of game data rows (items, NPCs,
//! zones…) that can be filtered, sorted, edited and stored as TOML. The
//! application reads and writes the TOML file.

use vstd::prelude::*;

use crate::ordering::{
    as_ints, is_permutation, lemma_insert_by, lemma_stable_order_sorted, lemma_stable_ties,
    stable_order, strict_weak_order,
};
use crate::panel::PanelContext;
use crate::status::{
    load_error_status, load_error_text, loaded_status, no_project_status, save_status, save_text,
    LoadError, SaveError,
};
use crate::paths::{join, path_join};
use crate::text::{
    chars_lt, chars_of, contains, decimal, lemma_seq_lt_total_order, lowercase, occurs_in,
    push_decimal, seq_lt, to_lowercase,
};

verus! {

/// A single row in the data table.
#[derive(Debug)]
pub struct DataRow {
    pub id: String,
    pub name: String,
    pub kind: String,
    pub value: String,
    pub tags: String,
}

/// The text of each column of a row.
pub type RowText = (Seq<char>, Seq<char>, Seq<char>, Seq<char>, Seq<char>);

impl View for DataRow {
    type V = RowText;

    open spec fn view(&self) -> RowText {
        (self.id@, self.name@, self.kind@, self.value@, self.tags@)
    }
}

/// The views of a sequence of rows.
pub open spec fn rows_view(rows: Seq<DataRow>) -> Seq<RowText> {
    rows.map_values(|r: DataRow| r@)
}

fn text_row(id: &str, name: &str, kind: &str, value: &str, tags: &str) -> (r: DataRow)
    ensures
        r@ == (id@, name@, kind@, value@, tags@),
{
    DataRow {
        id: crate::text::owned(id),
        name: crate::text::owned(name),
        kind: crate::text::owned(kind),
        value: crate::text::owned(value),
        tags: crate::text::owned(tags),
    }
}

impl DataRow {
    /// A copy of the row.
    pub fn copy(&self) -> (r: DataRow)
        ensures
            r@ == self@,
    {
        text_row(self.id.as_str(), self.name.as_str(), self.kind.as_str(), self.value.as_str(), self.tags.as_str())
    }

    /// The text of column `col` (0 = ID … 4 = Tags).
    pub fn column(&self, col: usize) -> (t: &str)
        requires
            col < 5,
        ensures
            t@ == column_text(self@, col as int),
    {
        match col {
            0 => self.id.as_str(),
            1 => self.name.as_str(),
            2 => self.kind.as_str(),
            3 => self.value.as_str(),
            _ => self.tags.as_str(),
        }
    }
}

/// The text of column `col` of a row.
pub open spec fn column_text(r: RowText, col: int) -> Seq<char> {
    if col == 0 {
        r.0
    } else if col == 1 {
        r.1
    } else if col == 2 {
        r.2
    } else if col == 3 {
        r.3
    } else {
        r.4
    }
}

/// Row `a` sorts before row `b` on column `col`, ascending or descending;
/// columns past the last leave the rows unordered.
pub open spec fn row_before(a: RowText, b: RowText, col: int, asc: bool) -> bool {
    if col < 0 || col > 4 {
        false
    } else if asc {
        seq_lt(column_text(a, col), column_text(b, col))
    } else {
        seq_lt(column_text(b, col), column_text(a, col))
    }
}

/// The "sorts before" relation on row indices.
pub open spec fn rows_before(rows: Seq<RowText>, col: int, asc: bool) -> spec_fn(int, int) -> bool {
    |a: int, b: int| row_before(rows[a], rows[b], col, asc)
}

/// Sorting on a column lists every row once, with the column's text in
/// ascending (or, for `asc == false`, descending) order; rows with equal
/// text keep their order.
pub proof fn lemma_rows_sorted(rows: Seq<RowText>, col: int, asc: bool)
    ensures
        is_permutation(stable_order(rows.len(), rows_before(rows, col, asc)), rows.len() as int),
        0 <= col <= 4 ==> forall|i: int, j: int| 0 <= i < j < rows.len() ==> if asc {
            !seq_lt(
                column_text(rows[#[trigger] stable_order(rows.len(), rows_before(rows, col, asc))[j]], col),
                column_text(rows[#[trigger] stable_order(rows.len(), rows_before(rows, col, asc))[i]], col),
            )
        } else {
            !seq_lt(
                column_text(rows[stable_order(rows.len(), rows_before(rows, col, asc))[i]], col),
                column_text(rows[stable_order(rows.len(), rows_before(rows, col, asc))[j]], col),
            )
        },
        forall|i: int, j: int| 0 <= i < j < rows.len() && column_text(rows[#[trigger] stable_order(rows.len(), rows_before(rows, col, asc))[i]], col)
            == column_text(rows[#[trigger] stable_order(rows.len(), rows_before(rows, col, asc))[j]], col)
            ==> stable_order(rows.len(), rows_before(rows, col, asc))[i] < stable_order(rows.len(), rows_before(rows, col, asc))[j],
{
    let before = rows_before(rows, col, asc);
    let n = rows.len() as int;
    assert forall|a: int, b: int| 0 <= a < n && 0 <= b < n && #[trigger] before(a, b) implies !before(b, a) by {
        lemma_seq_lt_total_order(column_text(rows[a], col), column_text(rows[b], col), column_text(rows[a], col));
    }
    assert forall|a: int, b: int, c: int| 0 <= a < n && 0 <= b < n && 0 <= c < n && #[trigger] before(a, c)
        implies #[trigger] before(a, b) || #[trigger] before(b, c) by {
        let (x, y, z) = (column_text(rows[a], col), column_text(rows[b], col), column_text(rows[c], col));
        lemma_seq_lt_total_order(x, y, z);
        lemma_seq_lt_total_order(y, z, x);
        lemma_seq_lt_total_order(z, x, y);
        lemma_seq_lt_total_order(x, z, y);
        lemma_seq_lt_total_order(y, x, z);
        lemma_seq_lt_total_order(z, y, x);
    }
    assert(strict_weak_order(before, n));
    lemma_stable_order_sorted(rows.len(), before);
    let key = |k: int| column_text(rows[k], col);
    assert forall|a: int, b: int| 0 <= a < n && 0 <= b < n && key(a) == key(b) implies !#[trigger] before(a, b) by {
        lemma_seq_lt_total_order(key(a), key(b), key(a));
    }
    lemma_stable_ties(rows.len(), before, key);
    let o = stable_order(rows.len(), before);
    if 0 <= col <= 4 {
        assert forall|i: int, j: int| 0 <= i < j < rows.len() implies (if asc {
            !seq_lt(column_text(rows[#[trigger] o[j]], col), column_text(rows[#[trigger] o[i]], col))
        } else {
            !seq_lt(column_text(rows[o[i]], col), column_text(rows[o[j]], col))
        }) by {
            assert(!before(o[j], o[i]));
        }
    }
}

/// The text a row is searched in: its columns separated by spaces.
pub open spec fn row_haystack(r: RowText) -> Seq<char> {
    r.0 + " "@ + r.1 + " "@ + r.2 + " "@ + r.3 + " "@ + r.4
}

/// A row passes the filter: no filter, or its columns contain the filter
/// text, ignoring case.
pub open spec fn row_passes(r: RowText, filter: Seq<char>) -> bool {
    lowercase(filter).len() == 0 || occurs_in(lowercase(filter), lowercase(row_haystack(r)))
}

/// The indices of `order` whose rows pass the filter, in the same order.
pub open spec fn filtered_order(order: Seq<int>, rows: Seq<RowText>, filter: Seq<char>) -> Seq<int>
    decreases order.len(),
{
    if order.len() == 0 {
        seq![]
    } else if row_passes(rows[order.last()], filter) {
        filtered_order(order.drop_last(), rows, filter).push(order.last())
    } else {
        filtered_order(order.drop_last(), rows, filter)
    }
}

/// Column 0 is a row's id, 1 its name, 2 its kind, 3 its value and 4 its
/// tags.
pub proof fn lemma_columns_are_fields(r: RowText)
    ensures
        column_text(r, 0) == r.0,
        column_text(r, 1) == r.1,
        column_text(r, 2) == r.2,
        column_text(r, 3) == r.3,
        column_text(r, 4) == r.4,
{
}

/// Sorting on column 0 orders the rows by id: ascending, or descending
/// after a second click.
pub proof fn lemma_sort_on_id_orders_by_id(rows: Seq<RowText>, asc: bool)
    ensures
        forall|i: int, j: int| 0 <= i < j < rows.len() ==> if asc {
            !seq_lt(
                rows[#[trigger] stable_order(rows.len(), rows_before(rows, 0, asc))[j]].0,
                rows[#[trigger] stable_order(rows.len(), rows_before(rows, 0, asc))[i]].0,
            )
        } else {
            !seq_lt(
                rows[stable_order(rows.len(), rows_before(rows, 0, asc))[i]].0,
                rows[stable_order(rows.len(), rows_before(rows, 0, asc))[j]].0,
            )
        },
{
    lemma_rows_sorted(rows, 0, asc);
    let o = stable_order(rows.len(), rows_before(rows, 0, asc));
    assert forall|i: int, j: int| 0 <= i < j < rows.len() implies (if asc {
        !seq_lt(rows[o[j]].0, rows[o[i]].0)
    } else {
        !seq_lt(rows[o[i]].0, rows[o[j]].0)
    }) by {
        lemma_columns_are_fields(rows[o[i]]);
        lemma_columns_are_fields(rows[o[j]]);
        if asc {
            assert(!seq_lt(column_text(rows[o[j]], 0), column_text(rows[o[i]], 0)));
        } else {
            assert(!seq_lt(column_text(rows[o[i]], 0), column_text(rows[o[j]], 0)));
        }
    }
}

/// The text a row is searched in holds all five columns, in order, each
/// after the previous one and a space.
pub proof fn lemma_search_text_holds_every_column(r: RowText)
    ensures
        ({
            let h = row_haystack(r);
            let a = r.0.len() as int;
            let b = a + 1 + r.1.len();
            let c = b + 1 + r.2.len();
            let d = c + 1 + r.3.len();
            &&& h.len() == d + 1 + r.4.len()
            &&& h.subrange(0, a) == r.0
            &&& h.subrange(a + 1, b) == r.1
            &&& h.subrange(b + 1, c) == r.2
            &&& h.subrange(c + 1, d) == r.3
            &&& h.subrange(d + 1, h.len() as int) == r.4
            &&& h[a] == ' ' && h[b] == ' ' && h[c] == ' ' && h[d] == ' '
        }),
{
    reveal_strlit(" ");
    let h = row_haystack(r);
    let a = r.0.len() as int;
    let b = a + 1 + r.1.len();
    let c = b + 1 + r.2.len();
    let d = c + 1 + r.3.len();
    assert(h.subrange(0, a) =~= r.0);
    assert(h.subrange(a + 1, b) =~= r.1);
    assert(h.subrange(b + 1, c) =~= r.2);
    assert(h.subrange(c + 1, d) =~= r.3);
    assert(h.subrange(d + 1, h.len() as int) =~= r.4);
}

proof fn lemma_filtered_order_members(order: Seq<int>, rows: Seq<RowText>, filter: Seq<char>, i: int)
    ensures
        filtered_order(order, rows, filter).contains(i) <==> (order.contains(i) && row_passes(rows[i], filter)),
    decreases order.len(),
{
    if order.len() > 0 {
        let prev = filtered_order(order.drop_last(), rows, filter);
        lemma_filtered_order_members(order.drop_last(), rows, filter, i);
        let x = order.last();
        if order.contains(i) {
            let k = choose|k: int| 0 <= k < order.len() && #[trigger] order[k] == i;
            if k < order.len() - 1 {
                assert(order.drop_last()[k] == i);
            }
        }
        if order.drop_last().contains(i) {
            let k = choose|k: int| 0 <= k < order.drop_last().len() && #[trigger] order.drop_last()[k] == i;
            assert(order[k] == i);
        }
        if row_passes(rows[x], filter) {
            if prev.push(x).contains(i) {
                let k = choose|k: int| 0 <= k < prev.push(x).len() && #[trigger] prev.push(x)[k] == i;
                if k < prev.len() {
                    assert(prev[k] == i);
                }
            }
            if prev.contains(i) {
                let k = choose|k: int| 0 <= k < prev.len() && #[trigger] prev[k] == i;
                assert(prev.push(x)[k] == i);
            }
            if i == x {
                assert(prev.push(x)[prev.len() as int] == i);
            }
        }
    }
}

/// The table shows row `i` exactly when it is in the display order and the
/// filter is empty or, ignoring case, occurs in the row's five columns
/// joined by spaces.
pub proof fn lemma_visible_rows_law(order: Seq<int>, rows: Seq<RowText>, filter: Seq<char>, i: int)
    ensures
        filtered_order(order, rows, filter).contains(i) <==> (order.contains(i) && (lowercase(filter).len() == 0
            || exists|p: int|
            0 <= p <= lowercase(rows[i].0 + " "@ + rows[i].1 + " "@ + rows[i].2 + " "@ + rows[i].3 + " "@ + rows[i].4).len()
                - lowercase(filter).len() && #[trigger] lowercase(
                rows[i].0 + " "@ + rows[i].1 + " "@ + rows[i].2 + " "@ + rows[i].3 + " "@ + rows[i].4,
            ).subrange(p, p + lowercase(filter).len()) == lowercase(filter))),
{
    lemma_filtered_order_members(order, rows, filter, i);
}

/// The path of the data table of a project: `<asset_root>/data/data_table.toml`.
pub open spec fn table_path(asset_root: Seq<char>) -> Seq<char> {
    path_join(path_join(asset_root, "data"@), "data_table.toml"@)
}

/// Data Table Editor panel state.
pub struct DataEditor {
    pub rows: Vec<DataRow>,
    pub selected_row: Option<usize>,
    pub filter: String,
    pub edit_buf: DataRow,
    /// Status message shown below the toolbar.
    pub save_status: String,
    /// Path from which data was last loaded / saved.
    pub last_path: Option<String>,
    /// Column used for sorting (0 = ID … 4 = Tags), or `None`.
    pub sort_col: Option<usize>,
    /// `true` = ascending, `false` = descending.
    pub sort_asc: bool,
}

impl Default for DataEditor {
    fn default() -> (e: Self)
        ensures
            rows_view(e.rows@) == seq![
                ("item.sword.iron"@, "Iron Sword"@, "Weapon"@, "150"@, "melee,one-hand"@),
                ("item.potion.health_s"@, "Small Health Potion"@, "Consumable"@, "30"@, "healing,quick"@),
                ("npc.goblin"@, "Goblin"@, "Enemy"@, "10"@, "melee,hostile"@),
                ("zone.startzone"@, "Starting Zone"@, "Zone"@, "1"@, "tutorial,safe"@),
            ],
            e.selected_row is None,
            e.filter@.len() == 0,
            e.edit_buf@ == (Seq::<char>::empty(), Seq::<char>::empty(), Seq::<char>::empty(), Seq::<char>::empty(), Seq::<char>::empty()),
            e.save_status@.len() == 0,
            e.last_path is None,
            e.sort_col is None,
            e.sort_asc,
    {
        let mut rows: Vec<DataRow> = Vec::new();
        rows.push(text_row("item.sword.iron", "Iron Sword", "Weapon", "150", "melee,one-hand"));
        rows.push(text_row("item.potion.health_s", "Small Health Potion", "Consumable", "30", "healing,quick"));
        rows.push(text_row("npc.goblin", "Goblin", "Enemy", "10", "melee,hostile"));
        rows.push(text_row("zone.startzone", "Starting Zone", "Zone", "1", "tutorial,safe"));
        let e = DataEditor {
            rows,
            selected_row: None,
            filter: String::new(),
            edit_buf: DataRow {
                id: String::new(),
                name: String::new(),
                kind: String::new(),
                value: String::new(),
                tags: String::new(),
            },
            save_status: String::new(),
            last_path: None,
            sort_col: None,
            sort_asc: true,
        };
        assert(rows_view(e.rows@) =~= seq![
            ("item.sword.iron"@, "Iron Sword"@, "Weapon"@, "150"@, "melee,one-hand"@),
            ("item.potion.health_s"@, "Small Health Potion"@, "Consumable"@, "30"@, "healing,quick"@),
            ("npc.goblin"@, "Goblin"@, "Enemy"@, "10"@, "melee,hostile"@),
            ("zone.startzone"@, "Starting Zone"@, "Zone"@, "1"@, "tutorial,safe"@),
        ]);
        e
    }
}

fn keys_before(a: &Vec<char>, b: &Vec<char>, asc: bool) -> (r: bool)
    ensures
        r == if asc { seq_lt(a@, b@) } else { seq_lt(b@, a@) },
{
    if asc {
        chars_lt(a, b)
    } else {
        chars_lt(b, a)
    }
}

impl DataEditor {
    /// The canonical load/save path of the project's data table.
    pub fn toml_path(ctx: &PanelContext) -> (p: Option<String>)
        ensures
            ctx.asset_root is None ==> p is None,
            ctx.asset_root matches Some(r) ==> (p matches Some(s) && s@ == table_path(r@)),
    {
        match &ctx.asset_root {
            Some(r) => {
                let data = join(r.as_str(), "data");
                Some(join(data.as_str(), "data_table.toml"))
            },
            None => None,
        }
    }

    /// Where to load the table from; without a project the status says so.
    pub fn load_target(&mut self, ctx: &PanelContext) -> (p: Option<String>)
        ensures
            ctx.asset_root is None ==> p is None && final(self).save_status@ == "No project loaded — cannot determine load path."@,
            ctx.asset_root matches Some(r) ==> (p matches Some(s) && s@ == table_path(r@) && final(self).save_status == old(self).save_status),
            final(self).rows == old(self).rows,
            final(self).selected_row == old(self).selected_row,
    {
        let p = DataEditor::toml_path(ctx);
        if p.is_none() {
            self.save_status = no_project_status("determine", "load path");
            proof {
                reveal_strlit("No project loaded — cannot determine load path.");
                reveal_strlit("No project loaded — cannot ");
                reveal_strlit("determine");
                reveal_strlit(" ");
                reveal_strlit("load path");
                reveal_strlit(".");
                assert(self.save_status@ =~= "No project loaded — cannot determine load path."@);
            }
        }
        p
    }

    /// Where to save the table; without a project the status says so.
    pub fn save_target(&mut self, ctx: &PanelContext) -> (p: Option<String>)
        ensures
            ctx.asset_root is None ==> p is None && final(self).save_status@ == "No project loaded — cannot determine save path."@,
            ctx.asset_root matches Some(r) ==> (p matches Some(s) && s@ == table_path(r@) && final(self).save_status == old(self).save_status),
            final(self).rows == old(self).rows,
            final(self).selected_row == old(self).selected_row,
    {
        let p = DataEditor::toml_path(ctx);
        if p.is_none() {
            self.save_status = no_project_status("determine", "save path");
            proof {
                reveal_strlit("No project loaded — cannot determine save path.");
                reveal_strlit("No project loaded — cannot ");
                reveal_strlit("determine");
                reveal_strlit(" ");
                reveal_strlit("save path");
                reveal_strlit(".");
                assert(self.save_status@ =~= "No project loaded — cannot determine save path."@);
            }
        }
        p
    }

    /// The application tried to load the table from `path`: the rows are
    /// replaced on success; the status reports the outcome.
    pub fn table_loaded(&mut self, path: String, result: Result<Vec<DataRow>, LoadError>)
        ensures
            result matches Ok(rows) ==> {
                &&& final(self).rows == rows
                &&& final(self).selected_row is None
                &&& final(self).last_path == Some(path)
                &&& final(self).save_status@ == "Loaded "@ + decimal(rows@.len()) + " rows ← "@ + path@
            },
            result matches Err(e) ==> {
                &&& final(self).rows == old(self).rows
                &&& final(self).selected_row == old(self).selected_row
                &&& final(self).last_path == old(self).last_path
                &&& final(self).save_status@ == load_error_text(e, path@)
            },
    {
        match result {
            Ok(rows) => {
                let status = loaded_status(rows.len(), "rows", path.as_str());
                proof {
                    reveal_strlit(" ");
                    reveal_strlit("rows");
                    reveal_strlit(" ← ");
                    reveal_strlit(" rows ← ");
                    assert(status@ =~= "Loaded "@ + decimal(rows@.len()) + " rows ← "@ + path@);
                }
                self.rows = rows;
                self.selected_row = None;
                self.last_path = Some(path);
                self.save_status = status;
            },
            Err(e) => {
                self.save_status = load_error_status(&e, path.as_str());
            },
        }
    }

    /// The application tried to save the table to `path`; the status
    /// reports the outcome.
    pub fn table_saved(&mut self, path: String, result: Result<(), SaveError>)
        ensures
            result is Ok ==> final(self).last_path == Some(path),
            result is Err ==> final(self).last_path == old(self).last_path,
            final(self).save_status@ == save_text(result, path@),
            final(self).rows == old(self).rows,
            final(self).selected_row == old(self).selected_row,
    {
        self.save_status = save_status(&result, path.as_str());
        if result.is_ok() {
            self.last_path = Some(path);
        }
    }

    /// The "＋ Row" button appends `new.entry.<n>` (n = rows before it).
    pub fn add_row(&mut self)
        requires
            old(self).rows@.len() < u64::MAX,
        ensures
            rows_view(final(self).rows@) == rows_view(old(self).rows@).push(
                ("new.entry."@ + decimal(old(self).rows@.len()), "New Entry"@, "Item"@, "0"@, Seq::<char>::empty()),
            ),
            final(self).selected_row == old(self).selected_row,
    {
        let mut id = crate::text::owned("new.entry.");
        push_decimal(&mut id, self.rows.len() as u64);
        let row = DataRow {
            id,
            name: crate::text::owned("New Entry"),
            kind: crate::text::owned("Item"),
            value: crate::text::owned("0"),
            tags: String::new(),
        };
        let ghost v = row@;
        self.rows.push(row);
        assert(rows_view(self.rows@) =~= rows_view(old(self).rows@).push(v));
    }

    /// The "🗑 Delete" button removes the selected row, if it exists, and
    /// clears the selection.
    pub fn delete_selected(&mut self)
        ensures
            old(self).selected_row matches Some(i) ==> i < old(self).rows@.len() ==> {
                &&& rows_view(final(self).rows@) == rows_view(old(self).rows@).remove(i as int)
                &&& final(self).selected_row is None
            },
            (old(self).selected_row is None || old(self).selected_row->0 >= old(self).rows@.len()) ==> {
                &&& final(self).rows == old(self).rows
                &&& final(self).selected_row == old(self).selected_row
            },
    {
        if let Some(idx) = self.selected_row {
            if idx < self.rows.len() {
                self.rows.remove(idx);
                self.selected_row = None;
                assert(rows_view(self.rows@) =~= rows_view(old(self).rows@).remove(idx as int));
            }
        }
    }

    /// A click on column header `col`: the same column flips direction,
    /// another column sorts ascending; the selection is cleared.
    pub fn click_header(&mut self, col: usize)
        ensures
            old(self).sort_col == Some(col) ==> final(self).sort_col == Some(col) && final(self).sort_asc == !old(self).sort_asc,
            old(self).sort_col != Some(col) ==> final(self).sort_col == Some(col) && final(self).sort_asc,
            final(self).selected_row is None,
            final(self).rows == old(self).rows,
    {
        if self.sort_col == Some(col) {
            self.sort_asc = !self.sort_asc;
        } else {
            self.sort_col = Some(col);
            self.sort_asc = true;
        }
        self.selected_row = None;
    }

    /// The header label of column `idx`: its name, with ▲ or ▼ when it is
    /// the sort column.
    pub fn col_header(name: &str, idx: usize, sort_col: Option<usize>, sort_asc: bool) -> (label: String)
        ensures
            sort_col == Some(idx) ==> label@ == name@ + " "@ + if sort_asc { "▲"@ } else { "▼"@ },
            sort_col != Some(idx) ==> label@ == name@,
    {
        let mut label = crate::text::owned(name);
        if sort_col == Some(idx) {
            label.append(" ");
            label.append(if sort_asc { "▲" } else { "▼" });
        }
        label
    }

    /// The order in which the rows are shown: all indices, stably sorted on
    /// the sort column when there is one.
    pub fn display_order(&self) -> (order: Vec<usize>)
        ensures
            self.sort_col is None ==> as_ints(order@) == Seq::new(self.rows@.len(), |i: int| i),
            self.sort_col matches Some(c) ==> as_ints(order@) == stable_order(
                self.rows@.len(),
                rows_before(rows_view(self.rows@), c as int, self.sort_asc),
            ),
            order@.len() == self.rows@.len(),
            forall|k: int| 0 <= k < order@.len() ==> #[trigger] order@[k] < self.rows@.len(),
    {
        let n = self.rows.len();
        match self.sort_col {
            None => {
                let mut order: Vec<usize> = Vec::new();
                for i in 0..n
                    invariant
                        n == self.rows@.len(),
                        as_ints(order@) == Seq::new(i as nat, |j: int| j),
                        order@.len() == i,
                        forall|k: int| 0 <= k < order@.len() ==> #[trigger] order@[k] < i,
                {
                    let ghost prev = order@;
                    order.push(i);
                    assert forall|k: int| 0 <= k < i + 1 implies #[trigger] as_ints(order@)[k] == k by {
                        if k < i {
                            assert(as_ints(prev)[k] == k);
                            assert(order@[k] == prev[k]);
                        }
                    }
                    assert(as_ints(order@) =~= Seq::new((i + 1) as nat, |j: int| j));
                }
                order
            },
            Some(col) => self.sorted_order(col),
        }
    }

    fn sorted_order(&self, col: usize) -> (order: Vec<usize>)
        ensures
            as_ints(order@) == stable_order(self.rows@.len(), rows_before(rows_view(self.rows@), col as int, self.sort_asc)),
            order@.len() == self.rows@.len(),
            forall|k: int| 0 <= k < order@.len() ==> #[trigger] order@[k] < self.rows@.len(),
    {
        let ghost before = rows_before(rows_view(self.rows@), col as int, self.sort_asc);
        let n = self.rows.len();
        let mut keys: Vec<Vec<char>> = Vec::new();
        if col < 5 {
            for j in 0..n
                invariant
                    n == self.rows@.len(),
                    col < 5,
                    keys@.len() == j,
                    forall|k: int| 0 <= k < j ==> #[trigger] keys@[k]@ == column_text(self.rows@[k]@, col as int),
            {
                keys.push(chars_of(self.rows[j].column(col)));
            }
        }
        let mut order: Vec<usize> = Vec::new();
        for i in 0..n
            invariant
                n == self.rows@.len(),
                col < 5 ==> keys@.len() == n,
                col < 5 ==> forall|k: int| 0 <= k < n ==> #[trigger] keys@[k]@ == column_text(self.rows@[k]@, col as int),
                before == rows_before(rows_view(self.rows@), col as int, self.sort_asc),
                as_ints(order@) == stable_order(i as nat, before),
                order@.len() == i,
                forall|k: int| 0 <= k < order@.len() ==> #[trigger] order@[k] < i,
        {
            let mut p = order.len();
            while p > 0 && col < 5 && keys_before(&keys[i], &keys[order[p - 1]], self.sort_asc)
                invariant
                    n == self.rows@.len(),
                    col < 5 ==> keys@.len() == n,
                    col < 5 ==> forall|k: int| 0 <= k < n ==> #[trigger] keys@[k]@ == column_text(self.rows@[k]@, col as int),
                    before == rows_before(rows_view(self.rows@), col as int, self.sort_asc),
                    i < n,
                    order@.len() == i,
                    forall|k: int| 0 <= k < order@.len() ==> #[trigger] order@[k] < i,
                    p <= order@.len(),
                    forall|k: int| p <= k < order@.len() ==> #[trigger] before(i as int, order@[k] as int),
                decreases p,
            {
                assert(rows_view(self.rows@)[i as int] == self.rows@[i as int]@);
                assert(rows_view(self.rows@)[order@[p - 1] as int] == self.rows@[order@[p - 1] as int]@);
                p = p - 1;
            }
            proof {
                let ints = as_ints(order@);
                assert forall|k: int| p <= k < ints.len() implies #[trigger] before(i as int, ints[k]) by {
                    assert(ints[k] == order@[k] as int);
                }
                if p > 0 {
                    assert(ints[p - 1] == order@[p - 1] as int);
                    assert(rows_view(self.rows@)[i as int] == self.rows@[i as int]@);
                    assert(rows_view(self.rows@)[order@[p - 1] as int] == self.rows@[order@[p - 1] as int]@);
                }
                lemma_insert_by(ints, i as int, before, p as int);
            }
            order.insert(p, i);
            assert(as_ints(order@) =~= stable_order((i + 1) as nat, before));
        }
        order
    }

    /// The rows the table shows, in display order: those whose columns
    /// contain the filter text (ignoring case).
    pub fn visible_rows(&self) -> (shown: Vec<usize>)
        ensures
            ({
                let all: Seq<int> = match self.sort_col {
                    None => Seq::new(self.rows@.len(), |i: int| i),
                    Some(c) => stable_order(self.rows@.len(), rows_before(rows_view(self.rows@), c as int, self.sort_asc)),
                };
                as_ints(shown@) == filtered_order(all, rows_view(self.rows@), self.filter@)
            }),
    {
        let order = self.display_order();
        let ghost all = as_ints(order@);
        let filter_lower = to_lowercase(self.filter.as_str());
        let no_filter = filter_lower.as_str().unicode_len() == 0;
        let mut shown: Vec<usize> = Vec::new();
        for k in 0..order.len()
            invariant
                all == as_ints(order@),
                forall|j: int| 0 <= j < order@.len() ==> #[trigger] order@[j] < self.rows@.len(),
                filter_lower@ == lowercase(self.filter@),
                no_filter == (filter_lower@.len() == 0),
                as_ints(shown@) == filtered_order(all.take(k as int), rows_view(self.rows@), self.filter@),
        {
            let i = order[k];
            let row = &self.rows[i];
            let keep = no_filter || {
                let mut hay = crate::text::owned(row.id.as_str());
                hay.append(" ");
                hay.append(row.name.as_str());
                hay.append(" ");
                hay.append(row.kind.as_str());
                hay.append(" ");
                hay.append(row.value.as_str());
                hay.append(" ");
                hay.append(row.tags.as_str());
                assert(hay@ == row_haystack(row@));
                let hay_lower = to_lowercase(hay.as_str());
                contains(hay_lower.as_str(), filter_lower.as_str())
            };
            assert(all.take(k + 1).drop_last() =~= all.take(k as int));
            assert(all.take(k + 1).last() == i as int);
            assert(rows_view(self.rows@)[i as int] == row@);
            if keep {
                shown.push(i);
            }
            assert(as_ints(shown@) =~= filtered_order(all.take(k + 1), rows_view(self.rows@), self.filter@));
        }
        assert(all.take(order@.len() as int) =~= all);
        shown
    }

    /// A click on row `i` selects it and loads it into the edit buffer.
    pub fn select_row(&mut self, i: usize)
        requires
            i < old(self).rows@.len(),
        ensures
            final(self).selected_row == Some(i),
            final(self).edit_buf@ == old(self).rows@[i as int]@,
            final(self).rows == old(self).rows,
    {
        self.selected_row = Some(i);
        self.edit_buf = self.rows[i].copy();
    }

    /// "Apply": the selected row takes the edit buffer's values.
    pub fn apply_edit(&mut self)
        ensures
            old(self).selected_row matches Some(i) ==> i < old(self).rows@.len() ==> rows_view(final(self).rows@)
                == rows_view(old(self).rows@).update(i as int, old(self).edit_buf@),
            (old(self).selected_row is None || old(self).selected_row->0 >= old(self).rows@.len()) ==> final(self).rows == old(self).rows,
            final(self).selected_row == old(self).selected_row,
            final(self).edit_buf == old(self).edit_buf,
    {
        if let Some(idx) = self.selected_row {
            if idx < self.rows.len() {
                let row = self.edit_buf.copy();
                self.rows.set(idx, row);
                assert(rows_view(self.rows@) =~= rows_view(old(self).rows@).update(idx as int, old(self).edit_buf@));
            }
        }
    }

    /// "Revert": the edit buffer takes the selected row's values again.
    pub fn revert_edit(&mut self)
        ensures
            old(self).selected_row matches Some(i) ==> i < old(self).rows@.len() ==> final(self).edit_buf@
                == old(self).rows@[i as int]@,
            (old(self).selected_row is None || old(self).selected_row->0 >= old(self).rows@.len()) ==> final(self).edit_buf == old(self).edit_buf,
            final(self).rows == old(self).rows,
            final(self).selected_row == old(self).selected_row,
    {
        if let Some(idx) = self.selected_row {
            if idx < self.rows.len() {
                self.edit_buf = self.rows[idx].copy();
            }
        }
    }
}

} // verus!
