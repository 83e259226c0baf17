//! Properties of how result cells are shown and how bound values are read.

use vstd::prelude::*;
use crate::api::{cell_text, row_map, row_maps, rows_maps, Cell};
use crate::api::tables::{
    all_digits, digits_value, is_digit, parse_u32, sql_value_for, unsigned_digits, SqlValue,
};
use crate::text::{decimal, digit_char};

verus! {

/// Each decimal digit is a digit character worth its value.
proof fn lemma_digit_char(d: int)
    requires
        0 <= d < 10,
    ensures
        is_digit(digit_char(d)),
        digit_char(d) as int - '0' as int == d,
        digit_char(d) != '+',
{
}

/// A string of digits never writes a negative number.
proof fn lemma_digits_value_nonnegative(s: Seq<char>)
    requires
        all_digits(s),
    ensures
        digits_value(s) >= 0,
    decreases s.len(),
{
    if s.len() > 0 {
        let init = s.drop_last();
        assert(all_digits(init)) by {
            assert forall|i: int| 0 <= i < init.len() implies is_digit(#[trigger] init[i]) by {
                assert(init[i] == s[i]);
            }
        }
        lemma_digits_value_nonnegative(init);
        assert(is_digit(s[s.len() - 1]));
    }
}

/// A decimal numeral is a nonempty string of digits that writes its number.
pub proof fn law_decimal_is_a_numeral(n: nat)
    ensures
        decimal(n).len() > 0,
        all_digits(decimal(n)),
        digits_value(decimal(n)) == n,
    decreases n,
{
    if n < 10 {
        lemma_digit_char(n as int);
        let s = decimal(n);
        assert(s.drop_last() =~= Seq::<char>::empty());
        assert(s.last() == digit_char(n as int));
        assert(digits_value(Seq::<char>::empty()) == 0);
        assert(digits_value(s) == digits_value(s.drop_last()) * 10 + (s.last() as int - '0' as int));
    } else {
        let s = decimal(n / 10);
        law_decimal_is_a_numeral(n / 10);
        lemma_digit_char((n % 10) as int);
        let t = decimal(n);
        assert(t == s.push(digit_char((n % 10) as int)));
        assert(t.drop_last() =~= s);
        assert(t.last() == digit_char((n % 10) as int));
        assert(digits_value(t) == digits_value(s) * 10 + (n % 10));
        assert(n == (n / 10) * 10 + n % 10) by (nonlinear_arith);
        assert forall|i: int| 0 <= i < t.len() implies is_digit(#[trigger] t[i]) by {
            if i < s.len() {
                assert(t[i] == s[i]);
            }
        }
    }
}

/// Every nonempty string of decimal digits that fits a `u32` reads as the
/// number it writes, leading zeros included.
pub proof fn law_parse_reads_numerals(s: Seq<char>)
    requires
        s.len() > 0,
        all_digits(s),
        digits_value(s) <= u32::MAX,
    ensures
        parse_u32(s) == Some(digits_value(s) as u32),
        parse_u32(seq!['+'] + s) == Some(digits_value(s) as u32),
{
    assert(is_digit(s[0]));
    assert(unsigned_digits(s) == s);
    let p = seq!['+'] + s;
    assert(p[0] == '+');
    assert(p.drop_first() =~= s);
}

/// The numeral of a `u32` reads back as that `u32`.
pub proof fn law_parse_reads_decimal(n: u32)
    ensures
        parse_u32(decimal(n as nat)) == Some(n),
{
    law_decimal_is_a_numeral(n as nat);
    law_parse_reads_numerals(decimal(n as nat));
}

/// An integer cell is shown as the decimal numeral of its value: a `4`-byte
/// and an `8`-byte cell of one value show alike, the text is never empty, and
/// it reads back as the value, behind a `-` when the value is negative.
pub proof fn law_integer_cells_read_back(i: i64)
    ensures
        i32::MIN <= i <= i32::MAX ==> cell_text(Cell::Int4(i as i32)) == cell_text(Cell::Int8(i)),
        cell_text(Cell::Int8(i)).len() > 0,
        i >= 0 ==> all_digits(cell_text(Cell::Int8(i))) && digits_value(cell_text(Cell::Int8(i)))
            == i,
        i < 0 ==> cell_text(Cell::Int8(i))[0] == '-' && all_digits(
            cell_text(Cell::Int8(i)).drop_first(),
        ) && digits_value(cell_text(Cell::Int8(i)).drop_first()) == -i,
        0 <= i <= u32::MAX ==> parse_u32(cell_text(Cell::Int8(i))) == Some(i as u32),
{
    if i >= 0 {
        law_decimal_is_a_numeral(i as nat);
        if i <= u32::MAX {
            law_parse_reads_numerals(decimal(i as nat));
        }
    } else {
        law_decimal_is_a_numeral((-i) as nat);
        let t = cell_text(Cell::Int8(i));
        assert(t.drop_first() =~= decimal((-i) as nat));
    }
}


/// Only numerals read as a `u32`: digits, after at most one leading `+`, that
/// write the number read.
pub proof fn law_parse_only_numerals(s: Seq<char>)
    ensures
        parse_u32(s) matches Some(n) ==> (s.len() > 0 && all_digits(s) && digits_value(s) == n)
            || (s.len() > 1 && s[0] == '+' && all_digits(s.drop_first()) && digits_value(
            s.drop_first(),
        ) == n),
        s.len() > 0 && s[0] == '-' ==> parse_u32(s) is None,
{
    let digits = unsigned_digits(s);
    if s.len() > 0 && s[0] == '+' {
        assert(digits == s.drop_first());
    } else {
        assert(digits == s);
    }
    if all_digits(digits) {
        lemma_digits_value_nonnegative(digits);
    }
    if s.len() > 0 && s[0] == '-' {
        assert(!is_digit(s[0]));
    }
}

/// A value bound to a placeholder is an integer exactly when it is a numeral
/// that fits: plain digits up to `i32::MAX` bind as their number, and a value
/// with a character that is no digit (a leading `+` aside) binds as its text.
pub proof fn law_bound_values(value: Seq<char>, bound: SqlValue)
    requires
        sql_value_for(value, bound),
    ensures
        value.len() > 0 && all_digits(value) && digits_value(value) <= i32::MAX ==> bound
            == SqlValue::Int4(digits_value(value) as i32),
        (exists|i: int|
            0 <= i < value.len() && !is_digit(#[trigger] value[i]) && !(i == 0 && value[i] == '+'))
            ==> (bound matches SqlValue::Text(t) && t@ == value),
{
    if value.len() > 0 && all_digits(value) && digits_value(value) <= i32::MAX {
        law_parse_reads_numerals(value);
        let n = digits_value(value);
        lemma_digits_value_nonnegative(value);
        assert(0 <= n <= i32::MAX);
        assert((n as u32) as i32 == n as i32);
    }
    if exists|i: int|
        0 <= i < value.len() && !is_digit(#[trigger] value[i]) && !(i == 0 && value[i] == '+') {
        let i = choose|i: int|
            0 <= i < value.len() && !is_digit(#[trigger] value[i]) && !(i == 0 && value[i] == '+');
        law_parse_only_numerals(value);
        if i > 0 && value[0] == '+' {
            assert(value.drop_first()[i - 1] == value[i]);
        }
        assert(parse_u32(value) is None);
    }
}

/// With distinct column names, the map after the first `n` columns of a row
/// holds exactly those columns, each with the text of its own cell.
pub proof fn law_row_map_columns(
    columns: Seq<Seq<char>>,
    cells: Seq<Cell>,
    n: int,
)
    requires
        0 <= n <= columns.len(),
        n <= cells.len(),
        forall|a: int, b: int| 0 <= a < b < n ==> columns[a] != columns[b],
    ensures
        forall|j: int|
            0 <= j < n ==> row_map(columns, cells, n).contains_key(#[trigger] columns[j])
                && row_map(columns, cells, n)[columns[j]] == cell_text(cells[j]),
        forall|k: Seq<char>|
            #[trigger] row_map(columns, cells, n).contains_key(k) ==> exists|j: int|
                0 <= j < n && columns[j] == k,
    decreases n,
{
    if n > 0 {
        law_row_map_columns(columns, cells, n - 1);
        let m = row_map(columns, cells, n);
        assert forall|k: Seq<char>| #[trigger] m.contains_key(k) implies exists|j: int|
            0 <= j < n && columns[j] == k by {
            if k != columns[n - 1] {
                assert(row_map(columns, cells, n - 1).contains_key(k));
            }
        }
    }
}

/// Every row gives one map per column, rows in order: the map at position
/// `r * columns + j` is row `r` after its first `j + 1` columns.
pub proof fn law_rows_maps_layout(columns: Seq<Seq<char>>, rows: Seq<Seq<Cell>>)
    ensures
        rows_maps(columns, rows).len() == rows.len() * columns.len(),
        forall|r: int, j: int|
            #![trigger rows[r], columns[j]]
            0 <= r < rows.len() && 0 <= j < columns.len() ==> rows_maps(columns, rows)[r
                * columns.len() + j] == row_map(columns, rows[r], j + 1),
    decreases rows.len(),
{
    let n = columns.len() as int;
    if rows.len() > 0 {
        let init = rows.drop_last();
        law_rows_maps_layout(columns, init);
        let last = rows.len() - 1;
        assert(init.len() * n + n == rows.len() * n) by (nonlinear_arith)
            requires
                init.len() == rows.len() - 1,
        ;
        assert(row_maps(columns, rows.last()).len() == n);
        assert(rows_maps(columns, rows).len() == init.len() * n + n);
        assert forall|r: int, j: int|
            #![trigger rows[r], columns[j]]
            0 <= r < rows.len() && 0 <= j < n implies rows_maps(columns, rows)[r * n + j]
                == row_map(columns, rows[r], j + 1) by {
            if r < last {
                assert(r * n + j < init.len() * n) by (nonlinear_arith)
                    requires
                        0 <= r < init.len(),
                        0 <= j < n,
                ;
                assert(init[r] == rows[r]);
            } else {
                assert(r * n == init.len() * n);
                assert(rows.last() == rows[r]);
            }
        }
    } else {
        assert(rows.len() * n == 0) by (nonlinear_arith)
            requires
                rows.len() == 0,
        ;
    }
}

} // verus!
