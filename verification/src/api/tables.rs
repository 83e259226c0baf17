//! What the table endpoints compute: the statement text they run and the
//! typed values they bind to its placeholders.

use vstd::prelude::*;
use crate::text::chars_of;
use crate::api::json_agg_query;
use crate::postgresql::commands::{
    ext_order, ext_select, ext_where, order_sql, select_sql, where_clause, where_params, where_sql,
    QueryString,
};

verus! {

broadcast use vstd::string::group_string_axioms;

/// A value bound to a statement placeholder.
#[derive(Debug, PartialEq, Eq)]
pub enum SqlValue {
    /// A number, bound as a 4-byte integer.
    Int4(i32),
    /// Anything else, bound as text.
    Text(String),
}

/// The statement that selects every row of one table.
pub fn select_table_query(database: &str, schema: &str, table: &str) -> (res: String)
    ensures
        res@ == "SELECT * FROM "@ + database@ + "."@ + schema@ + "."@ + table@,
{
    let mut res = String::from_str("SELECT * FROM ");
    res.append(database);
    res.append(".");
    res.append(schema);
    res.append(".");
    res.append(table);
    res
}

/// The statement over one table that a query string asks for: its `SELECT`
/// head, the table, its `WHERE` clause and its `ORDER BY` clause, in that order
/// and separated by spaces.
pub fn select_query(
    select: &str,
    database: &str,
    schema: &str,
    table: &str,
    where_clause: &str,
    order_by: &str,
) -> (res: String)
    ensures
        res@ == select@ + " "@ + database@ + "."@ + schema@ + "."@ + table@ + " "@ + where_clause@
            + " "@ + order_by@,
{
    let mut res = String::from_str(select);
    res.append(" ");
    res.append(database);
    res.append(".");
    res.append(schema);
    res.append(".");
    res.append(table);
    res.append(" ");
    res.append(where_clause);
    res.append(" ");
    res.append(order_by);
    res
}

/// Whether `c` is an ASCII decimal digit.
pub open spec fn is_digit(c: char) -> bool {
    '0' <= c && c <= '9'
}

/// The number that a string of decimal digits writes.
pub open spec fn digits_value(s: Seq<char>) -> int
    decreases s.len(),
{
    if s.len() == 0 {
        0
    } else {
        digits_value(s.drop_last()) * 10 + (s.last() as int - '0' as int)
    }
}

/// Whether every character of `s` is a decimal digit.
pub open spec fn all_digits(s: Seq<char>) -> bool {
    forall|i: int| 0 <= i < s.len() ==> is_digit(#[trigger] s[i])
}

/// The digits of an unsigned numeral: what follows an optional leading `+`.
pub open spec fn unsigned_digits(s: Seq<char>) -> Seq<char> {
    if s.len() > 0 && s[0] == '+' {
        s.drop_first()
    } else {
        s
    }
}

/// The number that `s` writes as a `u32`, as `str::parse::<u32>` reads it: an
/// optional `+` and then one or more decimal digits, at most `u32::MAX`.
pub open spec fn parse_u32(s: Seq<char>) -> Option<u32> {
    let digits = unsigned_digits(s);
    if digits.len() > 0 && all_digits(digits) && digits_value(digits) <= u32::MAX {
        Some(digits_value(digits) as u32)
    } else {
        None
    }
}

/// More digits never write a smaller number.
proof fn lemma_digits_value_grows(s: Seq<char>, i: int)
    requires
        0 <= i <= s.len(),
        forall|k: int| 0 <= k < s.len() ==> is_digit(#[trigger] s[k]),
    ensures
        0 <= digits_value(s.take(i)) <= digits_value(s),
    decreases s.len(),
{
    if s.len() == 0 {
        assert(s.take(i) =~= s);
    } else {
        let init = s.drop_last();
        assert(forall|k: int| 0 <= k < init.len() ==> init[k] == s[k]);
        assert(is_digit(s[s.len() - 1]));
        assert(s.last() == s[s.len() - 1]);
        if i == s.len() {
            assert(s.take(i) =~= s);
            lemma_digits_value_grows(init, init.len() as int);
        } else {
            assert(init.take(i) =~= s.take(i));
            lemma_digits_value_grows(init, i);
        }
    }
}

/// The `u32` that `s` writes, when it writes one.
pub fn parse_u32_of(s: &str) -> (res: Option<u32>)
    ensures
        res == parse_u32(s@),
{
    let cs = chars_of(s);
    let start: usize = if cs.len() > 0 && cs[0] == '+' {
        1
    } else {
        0
    };
    let ghost digits = unsigned_digits(s@);
    assert(digits =~= s@.skip(start as int));
    if start == cs.len() {
        return None;
    }
    let mut acc: u64 = 0;
    let mut i: usize = start;
    while i < cs.len()
        invariant
            cs@ == s@,
            digits == s@.skip(start as int),
            digits == unsigned_digits(s@),
            start <= i <= cs.len(),
            start < cs.len(),
            forall|k: int| 0 <= k < i - start ==> is_digit(#[trigger] digits[k]),
            acc == digits_value(digits.take(i - start)),
            acc <= u32::MAX,
        decreases cs.len() - i,
    {
        let c = cs[i];
        let ghost k = i - start;
        assert(digits[k] == c);
        if !('0' <= c && c <= '9') {
            assert(!is_digit(digits[k]));
            assert(!all_digits(digits));
            assert(parse_u32(s@) is None);
            return None;
        }
        let d = (c as u32 - '0' as u32) as u64;
        assert(digits.take(k + 1).drop_last() =~= digits.take(k));
        assert(digits.take(k + 1).last() == c);
        assert(acc * 10 + d <= 0xffff_ffff * 10 + 9) by (nonlinear_arith)
            requires
                acc <= 0xffff_ffff,
                d <= 9,
        ;
        acc = acc * 10 + d;
        i += 1;
        assert(acc == digits_value(digits.take(k + 1)));
        if acc > 0xffff_ffff {
            proof {
                if all_digits(digits) {
                    lemma_digits_value_grows(digits, k + 1);
                }
            }
            assert(parse_u32(s@) is None);
            return None;
        }
    }
    assert(digits.take(cs.len() - start) =~= digits);
    Some(acc as u32)
}

/// The value that binds `value` to a placeholder.
pub open spec fn sql_value_for(value: Seq<char>, bound: SqlValue) -> bool {
    match parse_u32(value) {
        Some(n) => bound == SqlValue::Int4(n as i32),
        None => bound matches SqlValue::Text(t) && t@ == value,
    }
}

/// Every filter value as the value bound to its placeholder: one that reads
/// as a `u32` is bound as an integer, any other as text.
pub fn normalize_values(values: Vec<String>) -> (res: Vec<SqlValue>)
    requires
        forall|i: int|
            0 <= i < values.len() ==> (parse_u32((#[trigger] values[i])@) matches Some(n) ==> n
                <= i32::MAX),
    ensures
        res.len() == values.len(),
        forall|i: int| 0 <= i < values.len() ==> sql_value_for(values[i]@, #[trigger] res[i]),
{
    let mut sequelized: Vec<SqlValue> = Vec::new();
    let mut i: usize = 0;
    while i < values.len()
        invariant
            i <= values.len(),
            sequelized.len() == i,
            forall|j: int|
                0 <= j < values.len() ==> (parse_u32((#[trigger] values[j])@) matches Some(n) ==> n
                    <= i32::MAX),
            forall|j: int| 0 <= j < i ==> sql_value_for(values[j]@, #[trigger] sequelized[j]),
        decreases values.len() - i,
    {
        let value = &values[i];
        match parse_u32_of(value.as_str()) {
            Some(n) => sequelized.push(SqlValue::Int4(n as i32)),
            None => sequelized.push(SqlValue::Text(value.clone())),
        }
        i += 1;
    }
    sequelized
}

/// The statement over one table that a query string asks for:
/// its `SELECT` head, the table, its `WHERE` clause and its `ORDER BY` clause,
/// gathered into one JSON array, with the values bound to the `WHERE`
/// placeholders in order. Every filter's operator must be known.
pub fn table_query(qs: &QueryString, database: &str, schema: &str, table: &str) -> (res: (
    String,
    Vec<SqlValue>,
))
    requires
        where_params(qs@).len() <= i32::MAX,
        where_clause(where_params(qs@)) is Ok,
        where_clause(where_params(qs@)) matches Ok((conditions, values)) ==> forall|i: int|
            0 <= i < values.len() ==> (parse_u32(#[trigger] values[i]) matches Some(n) ==> n
                <= i32::MAX),
    ensures
        where_clause(where_params(qs@)) matches Ok((conditions, values)) ==> res.0@
            == "SELECT json_agg(s) FROM ("@ + (select_sql(qs@) + " "@ + database@ + "."@ + schema@
            + "."@ + table@ + " "@ + where_sql(conditions) + " "@ + order_sql(qs@)) + ") s"@
            && res.1.len() == values.len() && forall|i: int|
            0 <= i < values.len() ==> sql_value_for(values[i], #[trigger] res.1[i]),
{
    let where_result = ext_where(qs).unwrap();
    let orderby_result = ext_order(qs).unwrap();
    let select_result = ext_select(qs).unwrap();
    let select = select_query(
        select_result.sql.as_str(),
        database,
        schema,
        table,
        where_result.sql.as_str(),
        orderby_result.sql.as_str(),
    );
    let query = json_agg_query(select.as_str());
    let ghost texts = where_result.values@.map_values(|s: String| s@);
    assert forall|i: int| 0 <= i < where_result.values.len() implies (parse_u32(
        (#[trigger] where_result.values[i])@,
    ) matches Some(n) ==> n <= i32::MAX) by {
        assert(texts[i] == where_result.values[i]@);
    }
    let bound = normalize_values(where_result.values);
    (query, bound)
}

} // verus!
