use vstd::prelude::*;
use crate::input::{wrap_around, wrap_around_spec};
use crate::table::{
    TableEntry, blank, capitalized, is_blank, lemma_not_blank_not_empty, to_uppercase, uppercased,
};
use vstd::string::*;

verus! {

/// Number of list rows shown above and below the selected one.
pub const ITEMS_AROUND_SELECTED: usize = 10;

/// Number of rows in the table list.
pub const ITEMS_SHOWN: usize = ITEMS_AROUND_SELECTED * 2 + 1;

/// The number that `wrap_around` receives for list row `row` when the
/// selection is `selected_index`.
pub open spec fn row_offset_index(selected_index: usize, row: int) -> int {
    (selected_index as i16) - ITEMS_AROUND_SELECTED + row
}

/// The table shown in each list row: the rows cover the tables from
/// `ITEMS_AROUND_SELECTED` before the selection to as many after it,
/// wrapped around the table count.
pub open spec fn table_window(max_index: usize, selected_index: usize) -> Seq<int> {
    Seq::new(
        ITEMS_SHOWN as nat,
        |row: int| wrap_around_spec(row_offset_index(selected_index, row) as i16, max_index),
    )
}

/// The inputs on which the window can be computed: every row offset from
/// the selection, read as an `i16`, stays within `i16`.
pub open spec fn table_window_defined(selected_index: usize) -> bool {
    &&& i16::MIN + ITEMS_AROUND_SELECTED <= (selected_index as i16)
    &&& (selected_index as i16) + ITEMS_AROUND_SELECTED <= i16::MAX
}

/// For selections that can be read as an `i16`, the window lists the tables
/// from `ITEMS_AROUND_SELECTED` before the selection to as many after it,
/// counted modulo the table count, and its middle row is the selection.
pub proof fn lemma_window_is_modular(max_index: usize, selected_index: usize)
    requires
        0 < max_index,
        selected_index + ITEMS_AROUND_SELECTED <= i16::MAX,
    ensures
        forall|row: int|
            0 <= row < ITEMS_SHOWN ==> #[trigger] table_window(max_index, selected_index)[row] == (
            selected_index + row - ITEMS_AROUND_SELECTED) % (max_index as int),
        selected_index < max_index ==> table_window(max_index, selected_index)[ITEMS_AROUND_SELECTED as int]
            == selected_index,
{
    assert forall|row: int| 0 <= row < ITEMS_SHOWN implies #[trigger] table_window(
        max_index,
        selected_index,
    )[row] == (selected_index + row - ITEMS_AROUND_SELECTED) % (max_index as int) by {
        assert(selected_index as i16 == selected_index);
        let k = row_offset_index(selected_index, row);
        assert(k == selected_index + row - ITEMS_AROUND_SELECTED);
        assert(k as i16 == k);
    }
    if selected_index < max_index {
        vstd::arithmetic::div_mod::lemma_small_mod(selected_index as nat, max_index as nat);
    }
}

/// The table indices shown in the list rows, centred on the selection.
pub fn generate_table_indices(max_index: usize, selected_index: usize) -> (r: [usize; ITEMS_SHOWN])
    requires
        table_window_defined(selected_index),
    ensures
        forall|row: int| 0 <= row < ITEMS_SHOWN ==> r[row] == table_window(max_index, selected_index)[row],
        max_index > 0 ==> forall|row: int| 0 <= row < ITEMS_SHOWN ==> #[trigger] r[row] < max_index,
        max_index > 0 ==> forall|row: int|
            0 <= row < ITEMS_SHOWN ==> #[trigger] r[row] == ((selected_index as i16) as int + row
                - ITEMS_AROUND_SELECTED) % (max_index as int),
        max_index == 0 ==> forall|row: int| 0 <= row < ITEMS_SHOWN ==> #[trigger] r[row] == 0,
        0 < max_index && selected_index + ITEMS_AROUND_SELECTED <= i16::MAX ==> forall|row: int|
            0 <= row < ITEMS_SHOWN ==> #[trigger] r[row] == (selected_index + row - ITEMS_AROUND_SELECTED) % (
            max_index as int),
{
    let mut table_indices = [0usize; ITEMS_SHOWN];
    let selected = selected_index as i16;
    let mut i: usize = 0;
    while i < ITEMS_SHOWN
        invariant
            i <= ITEMS_SHOWN,
            selected == selected_index as i16,
            table_window_defined(selected_index),
            forall|row: int| 0 <= row < i ==> table_indices[row] == table_window(max_index, selected_index)[row],
            max_index > 0 ==> forall|row: int| 0 <= row < i ==> #[trigger] table_indices[row] < max_index,
        decreases ITEMS_SHOWN - i,
    {
        let index = ITEMS_AROUND_SELECTED as i16 - i as i16;
        let item = wrap_around(selected - index, max_index);
        table_indices[i] = item;
        i = i + 1;
    }
    proof {
        if 0 < max_index && selected_index + ITEMS_AROUND_SELECTED <= i16::MAX {
            lemma_window_is_modular(max_index, selected_index);
        }
        assert forall|row: int| 0 <= row < ITEMS_SHOWN implies #[trigger] table_window(
            max_index,
            selected_index,
        )[row] == if max_index > 0 {
            ((selected_index as i16) as int + row - ITEMS_AROUND_SELECTED) % (max_index as int)
        } else {
            0
        } by {
            let k = row_offset_index(selected_index, row);
            assert(k as i16 == k);
        }
    }
    table_indices
}

/// The text of a table's list row: its name with the first letter in upper
/// case, or the file stem as it is when the name is absent or blank.
pub open spec fn list_line(table: TableEntry) -> Seq<char> {
    match table.table_name {
        Some(name) if !is_blank(name@) => capitalized(name@),
        _ => table.file_stem->0@,
    }
}

/// The inputs on which a list row can be written: the path has a file stem.
pub open spec fn list_line_defined(table: TableEntry) -> bool {
    table.file_stem is Some
}

/// The text of a table's list row.
pub fn display_table_line(table: &TableEntry) -> (r: String)
    requires
        list_line_defined(*table),
    ensures
        r@ == list_line(*table),
        r@ == match table.table_name {
            Some(name) => if !is_blank(name@) {
                capitalized(name@)
            } else {
                table.file_stem->0@
            },
            None => table.file_stem->0@,
        },
{
    let file_name = match &table.file_stem {
        Some(stem) => stem.clone(),
        None => {
            proof { assert(false); }
            String::new()
        },
    };
    match &table.table_name {
        Some(name) => {
            if !blank(name.as_str()) {
                proof {
                    lemma_not_blank_not_empty(name@);
                }
                capitalize_first_letter(name.as_str())
            } else {
                file_name
            }
        },
        None => file_name,
    }
}

/// `s` with its first character in upper case.
pub fn capitalize_first_letter(s: &str) -> (r: String)
    requires
        s@.len() > 0,
    ensures
        r@ == capitalized(s@),
        r@ == uppercased(s@.take(1)) + s@.skip(1),
{
    let len = s.unicode_len();
    let first = s.substring_char(0, 1);
    let rest = s.substring_char(1, len);
    let mut r = to_uppercase(first);
    r.append(rest);
    r
}

/// The table selected in the list.
pub struct SelectedItem {
    pub index: Option<usize>,
}

impl Default for SelectedItem {
    fn default() -> (r: Self)
        ensures
            r.index is None,
    {
        SelectedItem { index: None }
    }
}

/// The description kept beside a list row: the table's description, or a
/// placeholder where it has none.
pub open spec fn list_description(table: TableEntry) -> Seq<char> {
    match table.table_description {
        Some(d) => d@,
        None => "Description missing"@,
    }
}

/// The texts of every list row for a selection: the row's display line and
/// the description kept beside it, both empty when there are no tables.
pub open spec fn list_rows(tables: Seq<TableEntry>, selected: Option<usize>) -> Seq<(Seq<char>, Seq<char>)> {
    let window = table_window(tables.len() as usize, selected.unwrap_or(0));
    Seq::new(
        ITEMS_SHOWN as nat,
        |row: int|
            if tables.len() == 0 {
                (Seq::<char>::empty(), Seq::<char>::empty())
            } else {
                (list_line(tables[window[row]]), list_description(tables[window[row]]))
            },
    )
}

/// With tables present, every one of the rows shows a table: row `k` shows
/// the table `k - ITEMS_AROUND_SELECTED` places from the selection (read as
/// an `i16`), counted modulo the table count, with that table's name
/// capitalized (or its raw file stem when the name is absent or blank) and
/// its description (or "Description missing"). Without tables every row is
/// empty.
pub proof fn lemma_rows_show_window(tables: Seq<TableEntry>, selected: Option<usize>)
    requires
        tables.len() <= usize::MAX,
        list_rows_defined(tables, selected),
    ensures
        list_rows(tables, selected).len() == ITEMS_SHOWN,
        tables.len() == 0 ==> forall|row: int|
            0 <= row < ITEMS_SHOWN ==> (#[trigger] list_rows(tables, selected)[row]).0.len() == 0
                && list_rows(tables, selected)[row].1.len() == 0,
        tables.len() > 0 ==> forall|row: int|
            0 <= row < ITEMS_SHOWN ==> {
                let t = tables[((selected.unwrap_or(0) as i16) as int + row - ITEMS_AROUND_SELECTED) % (
                tables.len() as int)];
                &&& (#[trigger] list_rows(tables, selected)[row]).0 == match t.table_name {
                    Some(name) => if !is_blank(name@) {
                        capitalized(name@)
                    } else {
                        t.file_stem->0@
                    },
                    None => t.file_stem->0@,
                }
                &&& list_rows(tables, selected)[row].1 == match t.table_description {
                    Some(d) => d@,
                    None => "Description missing"@,
                }
            },
{
    let sel = selected.unwrap_or(0);
    let n = tables.len() as usize;
    if n > 0 {
        assert forall|row: int| 0 <= row < ITEMS_SHOWN implies #[trigger] table_window(n, sel)[row] == (
        (sel as i16) as int + row - ITEMS_AROUND_SELECTED) % (n as int) by {
            let k = row_offset_index(sel, row);
            assert(k as i16 == k);
        }
    }
}

/// The inputs on which the rows can be filled: with tables present, the
/// window around the selection can be computed, each row falls on a table,
/// and that table's line can be written.
pub open spec fn list_rows_defined(tables: Seq<TableEntry>, selected: Option<usize>) -> bool {
    tables.len() > 0 ==> {
        &&& table_window_defined(selected.unwrap_or(0))
        &&& rows_show_tables(tables, table_window(tables.len() as usize, selected.unwrap_or(0)))
    }
}

/// Every table that a row of `window` falls on has a list line that can be
/// written.
pub open spec fn rows_show_tables(tables: Seq<TableEntry>, window: Seq<int>) -> bool {
    forall|row: int|
        0 <= row < ITEMS_SHOWN && 0 <= #[trigger] window[row] < tables.len() ==> list_line_defined(
            tables[window[row]],
        )
}

/// The texts written into the list rows when the selection changes: for
/// each row, the line of the table it shows and that table's description.
pub fn selection_row_texts(tables: &Vec<TableEntry>, selected: &SelectedItem) -> (r: Vec<(String, String)>)
    requires
        list_rows_defined(tables@, selected.index),
    ensures
        r@.len() == ITEMS_SHOWN,
        forall|row: int|
            0 <= row < ITEMS_SHOWN ==> (#[trigger] r@[row]).0@ == list_rows(tables@, selected.index)[row].0
                && r@[row].1@ == list_rows(tables@, selected.index)[row].1,
        tables@.len() == 0 ==> forall|row: int|
            0 <= row < ITEMS_SHOWN ==> (#[trigger] r@[row]).0@.len() == 0 && r@[row].1@.len() == 0,
        tables@.len() > 0 ==> forall|row: int|
            0 <= row < ITEMS_SHOWN ==> {
                let t = tables@[((selected.index.unwrap_or(0) as i16) as int + row - ITEMS_AROUND_SELECTED)
                    % (tables@.len() as int)];
                &&& (#[trigger] r@[row]).0@ == match t.table_name {
                    Some(name) => if !is_blank(name@) {
                        capitalized(name@)
                    } else {
                        t.file_stem->0@
                    },
                    None => t.file_stem->0@,
                }
                &&& r@[row].1@ == match t.table_description {
                    Some(d) => d@,
                    None => "Description missing"@,
                }
            },
{
    let count = tables.len();
    proof {
        assert(tables@.len() == count);
        lemma_rows_show_window(tables@, selected.index);
    }
    let sel = match selected.index {
        Some(i) => i,
        None => 0,
    };
    let ghost rows = list_rows(tables@, selected.index);
    let mut out: Vec<(String, String)> = Vec::new();
    if tables.len() == 0 {
        let mut row: usize = 0;
        while row < ITEMS_SHOWN
            invariant
                row <= ITEMS_SHOWN,
                out@.len() == row,
                tables@.len() == 0,
                rows == list_rows(tables@, selected.index),
                forall|k: int| 0 <= k < row ==> (#[trigger] out@[k]).0@ == rows[k].0 && out@[k].1@ == rows[k].1,
            decreases ITEMS_SHOWN - row,
        {
            out.push((String::new(), String::new()));
            row = row + 1;
        }
        return out;
    }
    let ghost window = table_window(tables@.len() as usize, sel);
    assert(tables.len() == tables@.len() as usize);
    let indices = generate_table_indices(tables.len(), sel);
    let mut row: usize = 0;
    while row < ITEMS_SHOWN
        invariant
            row <= ITEMS_SHOWN,
            out@.len() == row,
            tables@.len() > 0,
            sel == selected.index.unwrap_or(0),
            list_rows_defined(tables@, selected.index),
            rows == list_rows(tables@, selected.index),
            window == table_window(tables@.len() as usize, sel),
            forall|k: int| 0 <= k < ITEMS_SHOWN ==> indices[k] == window[k],
            forall|k: int| 0 <= k < ITEMS_SHOWN ==> #[trigger] indices[k] < tables@.len(),
            forall|k: int| 0 <= k < row ==> (#[trigger] out@[k]).0@ == rows[k].0 && out@[k].1@ == rows[k].1,
        decreases ITEMS_SHOWN - row,
    {
        let table_index = indices[row];
        assert(0 <= window[row as int] < tables@.len());
        let table = &tables[table_index];
        let table_name = display_table_line(table);
        let table_description = match &table.table_description {
            Some(d) => d.clone(),
            None => String::from_str("Description missing"),
        };
        out.push((table_name, table_description));
        row = row + 1;
    }
    out
}

} // verus!
