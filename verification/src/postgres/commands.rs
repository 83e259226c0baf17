//! The strict variant of the query-string rules: every parameter filters
//! rows (keys starting with `_` included), and a statement part whose
//! parameter is missing is an error rather than a default.

use vstd::prelude::*;
use crate::postgresql::commands::{
    filter_parts_of, first_value, lemma_where_clause_error_stays, operator_not_found,
    operator_sql, order_columns, where_clause, where_sql, columns_of, url_decode, url_decoded,
    ColumnStyle,
};
use crate::text::{decimal_string, join_strings, split, split_str, str_eq};

verus! {

broadcast use vstd::string::group_string_axioms;

/// A piece of SQL text.
pub struct StatementStructResult {
    pub sql: String,
}

/// A `WHERE` clause with `$n` placeholders, and the values that fill them, in order.
pub struct WhereStructResult {
    pub sql: String,
    pub values: Vec<String>,
}

/// One `key=value` parameter of a query string.
pub struct Params {
    pub k: String,
    pub v: String,
}

/// The parameters of a query string, in the order they came.
pub struct QueryString {
    pub query: Vec<Params>,
}

impl View for Params {
    type V = (Seq<char>, Seq<char>);

    open spec fn view(&self) -> (Seq<char>, Seq<char>) {
        (self.k@, self.v@)
    }
}

/// The key and value of each parameter, in order.
pub open spec fn pairs_of(params: Seq<Params>) -> Seq<(Seq<char>, Seq<char>)> {
    params.map_values(|p: Params| p@)
}

/// The text of each string, in order.
pub open spec fn texts_of(strings: Seq<String>) -> Seq<Seq<char>> {
    strings.map_values(|s: String| s@)
}

impl View for QueryString {
    type V = Seq<(Seq<char>, Seq<char>)>;

    open spec fn view(&self) -> Seq<(Seq<char>, Seq<char>)> {
        pairs_of(self.query@)
    }
}

impl QueryString {
    /// The query string of the form items `(key, raw value)`, in order: each
    /// key as it came, each value URL-decoded. Every value must decode to UTF-8.
    pub fn from_form_items(items: &Vec<(String, String)>) -> (res: QueryString)
        requires
            forall|i: int| 0 <= i < items.len() ==> url_decoded((#[trigger] items[i]).1@) is Some,
        ensures
            res@.len() == items.len(),
            forall|i: int|
                0 <= i < items.len() ==> #[trigger] res@[i] == (
                    items[i].0@,
                    url_decoded(items[i].1@)->Some_0,
                ),
    {
        let mut query: Vec<Params> = Vec::new();
        let mut i: usize = 0;
        while i < items.len()
            invariant
                i <= items.len(),
                query.len() == i,
                forall|j: int| 0 <= j < items.len() ==> url_decoded((#[trigger] items[j]).1@) is Some,
                forall|j: int|
                    0 <= j < i ==> #[trigger] pairs_of(query@)[j] == (
                        items[j].0@,
                        url_decoded(items[j].1@)->Some_0,
                    ),
            decreases items.len() - i,
        {
            if let Some(v) = url_decode(items[i].1.as_str()) {
                let ghost prev = query@;
                let k = items[i].0.clone();
                let ghost entry = (k@, v@);
                query.push(Params { k, v });
                assert(pairs_of(query@) =~= pairs_of(prev).push(entry));
            }
            i += 1;
        }
        QueryString { query }
    }

    /// The query string of the form items when every value decodes to UTF-8
    /// (see `from_form_items`); `None` when some value does not.
    pub fn decode_form_items(items: &Vec<(String, String)>) -> (res: Option<QueryString>)
        ensures
            res is Some <==> forall|i: int|
                0 <= i < items.len() ==> url_decoded((#[trigger] items[i]).1@) is Some,
            res matches Some(qs) ==> qs@.len() == items.len() && forall|i: int|
                0 <= i < items.len() ==> #[trigger] qs@[i] == (
                    items[i].0@,
                    url_decoded(items[i].1@)->Some_0,
                ),
    {
        let mut i: usize = 0;
        while i < items.len()
            invariant
                i <= items.len(),
                forall|j: int| 0 <= j < i ==> url_decoded((#[trigger] items[j]).1@) is Some,
            decreases items.len() - i,
        {
            if url_decode(items[i].1.as_str()).is_none() {
                return None;
            }
            i += 1;
        }
        Some(QueryString::from_form_items(items))
    }
}

/// The message for a `_count` that names more than one column.
pub open spec fn count_error() -> Seq<char> {
    "could not use more than one column in count function"@
}

/// The `SELECT ... FROM` head of the first `_select`; an empty error without one.
pub open spec fn select_sql(q: Seq<(Seq<char>, Seq<char>)>) -> Result<Seq<char>, Seq<char>> {
    match first_value(q, "_select"@) {
        Some(v) => Ok(
            if v.len() > 0 {
                "SELECT "@ + v + " FROM"@
            } else {
                "SELECT * FROM"@
            },
        ),
        None => Err(Seq::empty()),
    }
}

/// The `SELECT COUNT(...) FROM` head of the first `_count`; an error when it
/// names more than one column, and an empty error without one.
pub open spec fn count_sql(q: Seq<(Seq<char>, Seq<char>)>) -> Result<Seq<char>, Seq<char>> {
    match first_value(q, "_count"@) {
        Some(v) => if split(v, ',').len() >= 2 {
            Err(count_error())
        } else if v.len() > 0 {
            Ok("SELECT COUNT("@ + v + ") FROM"@)
        } else {
            Ok(Seq::empty())
        },
        None => Err(Seq::empty()),
    }
}

/// The `ORDER BY` clause of the first `_order`; an empty error without one.
pub open spec fn order_sql(q: Seq<(Seq<char>, Seq<char>)>) -> Result<Seq<char>, Seq<char>> {
    match first_value(q, "_order"@) {
        Some(v) => Ok(
            if order_columns(v).len() > 0 {
                "ORDER BY "@ + order_columns(v)
            } else {
                Seq::empty()
            },
        ),
        None => Err(Seq::empty()),
    }
}

/// The `GROUP BY` clause of the first `_groupby`; an empty error without one.
pub open spec fn groupby_sql(q: Seq<(Seq<char>, Seq<char>)>) -> Result<Seq<char>, Seq<char>> {
    match first_value(q, "_groupby"@) {
        Some(v) => Ok(
            if v.len() > 0 {
                "GROUP BY "@ + v
            } else {
                Seq::empty()
            },
        ),
        None => Err(Seq::empty()),
    }
}

/// The SQL operator for a query operator; an error naming it when there is none.
pub fn query_operator(qop: &str) -> (res: Result<&'static str, String>)
    ensures
        match operator_sql(qop@) {
            Some(op) => res matches Ok(o) && o@ == op,
            None => res matches Err(e) && e@ == operator_not_found(qop@),
        },
{
    crate::postgresql::commands::query_operator(qop)
}

/// Either the values or the conditions of all parameters, each a filter.
fn collect_params(v: &Vec<Params>, collect_values: bool) -> (res: Result<Vec<String>, String>)
    requires
        v.len() <= i32::MAX,
    ensures
        match where_clause(pairs_of(v@)) {
            Ok((conditions, values)) => res matches Ok(out) && texts_of(out@) == (if collect_values {
                values
            } else {
                conditions
            }),
            Err(e) => res matches Err(m) && m@ == e,
        },
{
    let ghost q = pairs_of(v@);
    let mut out: Vec<String> = Vec::new();
    let mut pid: i32 = 0;
    let mut i: usize = 0;
    assert(q.take(0) =~= Seq::<(Seq<char>, Seq<char>)>::empty());
    while i < v.len()
        invariant
            q == pairs_of(v@),
            i <= v.len(),
            v.len() <= i32::MAX,
            pid == i,
            where_clause(q.take(i as int)) matches Ok((conditions, values)) && texts_of(out@) == (
            if collect_values {
                values
            } else {
                conditions
            }),
        decreases v.len() - i,
    {
        let param = &v[i];
        let ghost before = q.take(i as int);
        let ghost after = q.take(i + 1);
        assert(after.drop_last() =~= before);
        assert(after.last() == (param.k@, param.v@));
        pid = pid + 1;
        match filter_parts_of(param.v.as_str()) {
            Ok((op, value)) => {
                if collect_values {
                    out.push(value);
                } else {
                    let mut cond = param.k.clone();
                    cond.append(op);
                    cond.append("$");
                    cond.append(decimal_string(pid as u64).as_str());
                    out.push(cond);
                }
                assert(texts_of(out@) =~= (if collect_values {
                    where_clause(after)->Ok_0.1
                } else {
                    where_clause(after)->Ok_0.0
                }));
            },
            Err(e) => {
                proof {
                    lemma_where_clause_error_stays(q, i + 1);
                }
                return Err(e);
            },
        }
        i += 1;
    }
    assert(q.take(v.len() as int) =~= q);
    Ok(out)
}

/// The value of the first parameter whose key is `key`.
fn find_value<'a>(query: &'a Vec<Params>, key: &str) -> (res: Option<&'a String>)
    ensures
        match first_value(pairs_of(query@), key@) {
            Some(v) => res matches Some(s) && s@ == v,
            None => res is None,
        },
{
    let ghost q = pairs_of(query@);
    let mut i: usize = 0;
    assert(q.skip(0) =~= q);
    while i < query.len()
        invariant
            q == pairs_of(query@),
            i <= query.len(),
            first_value(q, key@) == first_value(q.skip(i as int), key@),
        decreases query.len() - i,
    {
        assert(q.skip(i as int)[0] == (query@[i as int].k@, query@[i as int].v@));
        if str_eq(query[i].k.as_str(), key) {
            return Some(&query[i].v);
        }
        assert(q.skip(i as int).drop_first() =~= q.skip(i + 1));
        i += 1;
    }
    None
}

/// The `SELECT ... FROM` head that the query string asks for; an empty error
/// when it has no `_select`.
pub fn ext_select(qs: QueryString) -> (res: Result<StatementStructResult, String>)
    ensures
        match select_sql(qs@) {
            Ok(sql) => res matches Ok(r) && r.sql@ == sql,
            Err(e) => res matches Err(m) && m@ == e,
        },
{
    let columns = match find_value(&qs.query, "_select") {
        Some(v) => v,
        None => return Err(String::new()),
    };
    if columns.as_str().unicode_len() != 0 {
        let mut sql = String::from_str("SELECT ");
        sql.append(columns.as_str());
        sql.append(" FROM");
        Ok(StatementStructResult { sql })
    } else {
        Ok(StatementStructResult { sql: String::from_str("SELECT * FROM") })
    }
}

/// The `SELECT COUNT(...) FROM` head that the query string asks for; an error
/// when `_count` names more than one column or is missing.
pub fn ext_count(qs: QueryString) -> (res: Result<StatementStructResult, String>)
    ensures
        match count_sql(qs@) {
            Ok(sql) => res matches Ok(r) && r.sql@ == sql,
            Err(e) => res matches Err(m) && m@ == e,
        },
{
    let columns = match find_value(&qs.query, "_count") {
        Some(v) => {
            let vsplited = split_str(v.as_str(), ',');
            if vsplited.len() >= 2 {
                return Err(String::from_str("could not use more than one column in count function"));
            }
            v
        },
        None => return Err(String::new()),
    };
    if columns.as_str().unicode_len() != 0 {
        let mut sql = String::from_str("SELECT COUNT(");
        sql.append(columns.as_str());
        sql.append(") FROM");
        Ok(StatementStructResult { sql })
    } else {
        Ok(StatementStructResult { sql: String::new() })
    }
}

/// The `WHERE` clause over all parameters and the values of its
/// placeholders; the message for the first unknown operator when there is one.
pub fn ext_where(qs: QueryString) -> (res: Result<WhereStructResult, String>)
    requires
        qs.query.len() <= i32::MAX,
    ensures
        match where_clause(qs@) {
            Ok((conditions, values)) => res matches Ok(w) && w.sql@ == where_sql(conditions)
                && texts_of(w.values@) == values,
            Err(e) => res matches Err(m) && m@ == e,
        },
{
    let where_values = match collect_params(&qs.query, true) {
        Ok(result) => result,
        Err(e) => return Err(e),
    };
    let where_fields = match collect_params(&qs.query, false) {
        Ok(result) => result,
        Err(e) => return Err(e),
    };
    let mut where_syntax = String::from_str("WHERE ");
    if where_fields.len() > 1 {
        where_syntax.append(join_strings(&where_fields, " AND ").as_str());
    } else {
        where_syntax.append(join_strings(&where_fields, " ").as_str());
    }
    Ok(WhereStructResult { sql: where_syntax, values: where_values })
}

/// The `ORDER BY` clause that the query string asks for; an empty error when
/// it has no `_order`.
pub fn ext_order(qs: QueryString) -> (res: Result<StatementStructResult, String>)
    ensures
        match order_sql(qs@) {
            Ok(sql) => res matches Ok(r) && r.sql@ == sql,
            Err(e) => res matches Err(m) && m@ == e,
        },
{
    let columns = match find_value(&qs.query, "_order") {
        Some(v) => columns_of(ColumnStyle::Ordered, v.as_str()),
        None => return Err(String::new()),
    };
    if columns.as_str().unicode_len() != 0 {
        let mut sql = String::from_str("ORDER BY ");
        sql.append(columns.as_str());
        Ok(StatementStructResult { sql })
    } else {
        Ok(StatementStructResult { sql: String::new() })
    }
}

/// The `GROUP BY` clause that the query string asks for; an empty error when
/// it has no `_groupby`.
pub fn ext_groupby(qs: QueryString) -> (res: Result<StatementStructResult, String>)
    ensures
        match groupby_sql(qs@) {
            Ok(sql) => res matches Ok(r) && r.sql@ == sql,
            Err(e) => res matches Err(m) && m@ == e,
        },
{
    let columns = match find_value(&qs.query, "_groupby") {
        Some(v) => v,
        None => return Err(String::new()),
    };
    if columns.as_str().unicode_len() != 0 {
        let mut sql = String::from_str("GROUP BY ");
        sql.append(columns.as_str());
        Ok(StatementStructResult { sql })
    } else {
        Ok(StatementStructResult { sql: String::new() })
    }
}

} // verus!
