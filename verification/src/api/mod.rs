//! What the HTTP endpoints compute around their database calls.

pub mod laws;
pub mod tables;

use vstd::prelude::*;
use crate::text::{signed_decimal, signed_decimal_string};

verus! {

broadcast use vstd::string::group_string_axioms;

/// One cell of a result row, read by its column's type: `INT4` and `INT8`
/// columns as integers, any other column as text.
#[derive(Debug, PartialEq, Eq)]
pub enum Cell {
    Int4(i32),
    Int8(i64),
    Text(String),
}

/// The text a cell is shown as.
pub open spec fn cell_text(cell: Cell) -> Seq<char> {
    match cell {
        Cell::Int4(i) => signed_decimal(i as int),
        Cell::Int8(i) => signed_decimal(i as int),
        Cell::Text(s) => s@,
    }
}

/// The text of a cell.
pub fn cell_string(cell: &Cell) -> (res: String)
    ensures
        res@ == cell_text(*cell),
{
    match cell {
        Cell::Int4(i) => signed_decimal_string(*i as i64),
        Cell::Int8(i) => signed_decimal_string(*i),
        Cell::Text(s) => s.clone(),
    }
}

/// The key and value texts of each entry.
pub open spec fn entries_of(row: Seq<(String, String)>) -> Seq<(Seq<char>, Seq<char>)> {
    row.map_values(|e: (String, String)| (e.0@, e.1@))
}

/// No key stands in two entries.
pub open spec fn keys_distinct(es: Seq<(Seq<char>, Seq<char>)>) -> bool {
    forall|i: int, j: int| 0 <= i < j < es.len() ==> es[i].0 != es[j].0
}

/// The map that entries with distinct keys stand for.
pub open spec fn entries_map(es: Seq<(Seq<char>, Seq<char>)>) -> Map<Seq<char>, Seq<char>>
    decreases es.len(),
{
    if es.len() == 0 {
        Map::empty()
    } else {
        entries_map(es.drop_last()).insert(es.last().0, es.last().1)
    }
}

/// The map of a row after its first `n` columns: each column's name maps to
/// the text of its cell, a later column overriding an earlier one of the
/// same name.
pub open spec fn row_map(columns: Seq<Seq<char>>, cells: Seq<Cell>, n: int) -> Map<
    Seq<char>,
    Seq<char>,
>
    decreases n,
{
    if n <= 0 {
        Map::empty()
    } else {
        row_map(columns, cells, n - 1).insert(columns[n - 1], cell_text(cells[n - 1]))
    }
}

/// The maps one row contributes: one after each of its columns.
pub open spec fn row_maps(columns: Seq<Seq<char>>, cells: Seq<Cell>) -> Seq<
    Map<Seq<char>, Seq<char>>,
> {
    Seq::new(columns.len(), |j: int| row_map(columns, cells, j + 1))
}

/// The maps of all rows, row after row.
pub open spec fn rows_maps(columns: Seq<Seq<char>>, rows: Seq<Seq<Cell>>) -> Seq<
    Map<Seq<char>, Seq<char>>,
>
    decreases rows.len(),
{
    if rows.len() == 0 {
        Seq::empty()
    } else {
        rows_maps(columns, rows.drop_last()) + row_maps(columns, rows.last())
    }
}

/// Overwriting the value of a present key changes only that key.
proof fn lemma_entries_map_update(es: Seq<(Seq<char>, Seq<char>)>, k: int, value: Seq<char>)
    requires
        keys_distinct(es),
        0 <= k < es.len(),
    ensures
        entries_map(es.update(k, (es[k].0, value))) == entries_map(es).insert(es[k].0, value),
    decreases es.len(),
{
    let key = es[k].0;
    let u = es.update(k, (key, value));
    if k == es.len() - 1 {
        assert(u.drop_last() =~= es.drop_last());
        assert(entries_map(u) =~= entries_map(es).insert(key, value));
    } else {
        assert(u.drop_last() =~= es.drop_last().update(k, (key, value)));
        lemma_entries_map_update(es.drop_last(), k, value);
        assert(es.last().0 != key);
        assert(entries_map(u) =~= entries_map(es).insert(key, value));
    }
}

/// A copy of the entries.
fn copy_entries(es: &Vec<(String, String)>) -> (res: Vec<(String, String)>)
    ensures
        entries_of(res@) == entries_of(es@),
{
    let mut res: Vec<(String, String)> = Vec::new();
    let mut i: usize = 0;
    while i < es.len()
        invariant
            i <= es.len(),
            entries_of(res@) == entries_of(es@).take(i as int),
        decreases es.len() - i,
    {
        let k = es[i].0.clone();
        let v = es[i].1.clone();
        let ghost prev = res@;
        res.push((k, v));
        assert(res@ == prev.push((k, v)));
        assert(entries_of(res@) =~= entries_of(prev).push((es@[i as int].0@, es@[i as int].1@)));
        i += 1;
        assert(entries_of(res@) =~= entries_of(es@).take(i as int));
    }
    assert(entries_of(es@).take(es.len() as int) =~= entries_of(es@));
    res
}

/// Sets `key` to `value`: in place when the key is present, else at the end.
fn insert_entry(entries: &mut Vec<(String, String)>, key: &String, value: String)
    requires
        keys_distinct(entries_of(old(entries)@)),
    ensures
        keys_distinct(entries_of(final(entries)@)),
        entries_map(entries_of(final(entries)@)) == entries_map(entries_of(old(entries)@)).insert(
            key@,
            value@,
        ),
{
    let ghost es = entries_of(entries@);
    let mut i: usize = 0;
    while i < entries.len()
        invariant
            es == entries_of(entries@),
            es == entries_of(old(entries)@),
            keys_distinct(es),
            i <= entries.len(),
            forall|j: int| 0 <= j < i ==> es[j].0 != key@,
        decreases entries.len() - i,
    {
        if entries[i].0 == *key {
            let ghost value_view = value@;
            assert(es[i as int].0 == key@);
            let ghost prev = entries@;
            let k = key.clone();
            entries.set(i, (k, value));
            assert(entries@ == prev.update(i as int, (k, value)));
            proof {
                lemma_entries_map_update(es, i as int, value_view);
                assert(entries_of(entries@) =~= es.update(i as int, (es[i as int].0, value_view)));
            }
            return;
        }
        i += 1;
    }
    entries.push((key.clone(), value));
    assert(entries_of(entries@) =~= es.push((key@, value@)));
    assert(entries_of(entries@).drop_last() =~= es);
}

/// The cells of each row, in order.
pub open spec fn cells_of(rows: Seq<Vec<Cell>>) -> Seq<Seq<Cell>> {
    rows.map_values(|r: Vec<Cell>| r@)
}

/// The result rows as maps from column name to text, one map after each
/// column of each row: the `j`-th map of a row holds its first `j + 1`
/// columns.
pub fn norm_rows(columns: &Vec<String>, rows: &Vec<Vec<Cell>>) -> (res: Vec<Vec<(String, String)>>)
    requires
        forall|r: int| 0 <= r < rows.len() ==> (#[trigger] rows[r]).len() == columns.len(),
    ensures
        res.len() == rows_maps(columns@.map_values(|c: String| c@), cells_of(rows@)).len(),
        forall|i: int|
            0 <= i < res.len() ==> keys_distinct(entries_of((#[trigger] res[i])@)) && entries_map(
                entries_of(res[i]@),
            ) == rows_maps(columns@.map_values(|c: String| c@), cells_of(rows@))[i],
{
    let ghost names = columns@.map_values(|c: String| c@);
    let ghost all = cells_of(rows@);
    let mut res: Vec<Vec<(String, String)>> = Vec::new();
    let mut r: usize = 0;
    while r < rows.len()
        invariant
            r <= rows.len(),
            names == columns@.map_values(|c: String| c@),
            all == cells_of(rows@),
            forall|k: int| 0 <= k < rows.len() ==> (#[trigger] rows[k]).len() == columns.len(),
            res.len() == rows_maps(names, all.take(r as int)).len(),
            forall|i: int|
                0 <= i < res.len() ==> keys_distinct(entries_of((#[trigger] res[i])@))
                    && entries_map(entries_of(res[i]@)) == rows_maps(names, all.take(r as int))[i],
        decreases rows.len() - r,
    {
        let row = &rows[r];
        let ghost before = rows_maps(names, all.take(r as int));
        let ghost cells = row@;
        assert(all[r as int] == cells);
        let mut entries: Vec<(String, String)> = Vec::new();
        let mut x: usize = 0;
        while x < columns.len()
            invariant
                x <= columns.len(),
                row.len() == columns.len(),
                cells == row@,
                names == columns@.map_values(|c: String| c@),
                keys_distinct(entries_of(entries@)),
                entries_map(entries_of(entries@)) == row_map(names, cells, x as int),
                res.len() == before.len() + x,
                forall|i: int|
                    0 <= i < res.len() ==> keys_distinct(entries_of((#[trigger] res[i])@))
                        && entries_map(entries_of(res[i]@)) == (before + row_maps(names, cells))[i],
            decreases columns.len() - x,
        {
            let value = cell_string(&row[x]);
            insert_entry(&mut entries, &columns[x], value);
            res.push(copy_entries(&entries));
            x += 1;
            assert(names[x - 1] == columns@[x - 1]@);
        }
        r += 1;
        assert(all.take(r as int).drop_last() =~= all.take(r - 1));
        assert(all.take(r as int).last() == cells);
        assert(rows_maps(names, all.take(r as int)) == before + row_maps(names, cells));
    }
    assert(all.take(rows.len() as int) =~= all);
    res
}

/// The statement that gathers the rows of `inner` into one JSON array.
pub fn json_agg_query(inner: &str) -> (res: String)
    ensures
        res@ == "SELECT json_agg(s) FROM ("@ + inner@ + ") s"@,
{
    let mut res = String::from_str("SELECT json_agg(s) FROM (");
    res.append(inner);
    res.append(") s");
    res
}

} // verus!
