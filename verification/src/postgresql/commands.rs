//! The query-string rules: each parameter of a request's query string either
//! filters rows (`column=value`, `column=$op.value`) or, when its key starts
//! with `_`, shapes the statement (`_select`, `_count`, `_order`, `_groupby`).

use vstd::prelude::*;
use crate::text::{
    contains_char, decimal, decimal_string, fill, fill_placeholder, join, join_strings,
    lemma_fill_once, lemma_split_at_least_two, split, split_str, starts_with_char, str_eq,
};

verus! {

broadcast use vstd::string::group_string_axioms;

/// A piece of SQL text.
#[derive(Debug)]
pub struct StatementStructResult {
    pub sql: String,
}

/// A `WHERE` clause with `$n` placeholders, and the values that fill them, in order.
#[derive(Debug)]
pub struct WhereStructResult {
    pub sql: String,
    pub values: Vec<String>,
}

/// One `key=value` parameter of a query string.
#[derive(Debug)]
pub struct Params {
    pub k: String,
    pub v: String,
}

/// The parameters of a query string, in the order they came.
#[derive(Debug)]
pub struct QueryString {
    pub query: Vec<Params>,
}

impl View for Params {
    type V = (Seq<char>, Seq<char>);

    open spec fn view(&self) -> (Seq<char>, Seq<char>) {
        (self.k@, self.v@)
    }
}

/// The key and value of each parameter, in order.
pub open spec fn pairs_of(params: Seq<Params>) -> Seq<(Seq<char>, Seq<char>)> {
    params.map_values(|p: Params| p@)
}

/// The text of each string, in order.
pub open spec fn texts_of(strings: Seq<String>) -> Seq<Seq<char>> {
    strings.map_values(|s: String| s@)
}

impl View for QueryString {
    type V = Seq<(Seq<char>, Seq<char>)>;

    open spec fn view(&self) -> Seq<(Seq<char>, Seq<char>)> {
        pairs_of(self.query@)
    }
}

/// The text that a raw form value stands for once URL-decoded (`+` read as a
/// space, `%XY` as the byte `XY`), when those bytes are UTF-8.
pub uninterp spec fn url_decoded(raw: Seq<char>) -> Option<Seq<char>>;

/// Calls `rocket::http::RawStr::url_decode`. Trusted: its result is
/// `url_decoded` of the argument, and a value with neither `%` nor `+`
/// decodes to itself (it replaces `+` with ` `, then percent-decodes and
/// checks UTF-8; with neither character there is nothing to replace).
#[verifier::external_body]
pub(crate) fn url_decode(raw: &str) -> (res: Option<String>)
    ensures
        match res {
            Some(s) => url_decoded(raw@) == Some(s@) && (!raw@.contains('%') && !raw@.contains('+')
                ==> s@ == raw@),
            None => url_decoded(raw@) is None && (raw@.contains('%') || raw@.contains('+')),
        },
{
    match rocket::http::RawStr::new(raw).url_decode() {
        Ok(decoded) => Some(decoded.into_owned()),
        Err(_) => None,
    }
}

impl QueryString {
    /// The query string of the form items `(key, raw value)`, in order: each
    /// key as it came, each value URL-decoded. Every value must decode to UTF-8.
    pub fn from_form_items(items: &Vec<(String, String)>) -> (res: QueryString)
        requires
            forall|i: int| 0 <= i < items.len() ==> url_decoded((#[trigger] items[i]).1@) is Some,
        ensures
            res@.len() == items.len(),
            forall|i: int|
                0 <= i < items.len() ==> #[trigger] res@[i] == (
                    items[i].0@,
                    url_decoded(items[i].1@)->Some_0,
                ),
    {
        let mut query: Vec<Params> = Vec::new();
        let mut i: usize = 0;
        while i < items.len()
            invariant
                i <= items.len(),
                query.len() == i,
                forall|j: int| 0 <= j < items.len() ==> url_decoded((#[trigger] items[j]).1@) is Some,
                forall|j: int|
                    0 <= j < i ==> #[trigger] pairs_of(query@)[j] == (
                        items[j].0@,
                        url_decoded(items[j].1@)->Some_0,
                    ),
            decreases items.len() - i,
        {
            if let Some(v) = url_decode(items[i].1.as_str()) {
                let ghost prev = query@;
                let k = items[i].0.clone();
                let ghost entry = (k@, v@);
                query.push(Params { k, v });
                assert(pairs_of(query@) =~= pairs_of(prev).push(entry));
            }
            i += 1;
        }
        QueryString { query }
    }

    /// The query string of the form items when every value decodes to UTF-8
    /// (see `from_form_items`); `None` when some value does not.
    pub fn decode_form_items(items: &Vec<(String, String)>) -> (res: Option<QueryString>)
        ensures
            res is Some <==> forall|i: int|
                0 <= i < items.len() ==> url_decoded((#[trigger] items[i]).1@) is Some,
            res matches Some(qs) ==> qs@.len() == items.len() && forall|i: int|
                0 <= i < items.len() ==> #[trigger] qs@[i] == (
                    items[i].0@,
                    url_decoded(items[i].1@)->Some_0,
                ),
    {
        let mut i: usize = 0;
        while i < items.len()
            invariant
                i <= items.len(),
                forall|j: int| 0 <= j < i ==> url_decoded((#[trigger] items[j]).1@) is Some,
            decreases items.len() - i,
        {
            if url_decode(items[i].1.as_str()).is_none() {
                return None;
            }
            i += 1;
        }
        Some(QueryString::from_form_items(items))
    }
}

/// The SQL operator that a query operator such as `$gt` stands for.
pub open spec fn operator_sql(qop: Seq<char>) -> Option<Seq<char>> {
    if qop == "$eq"@ {
        Some("="@)
    } else if qop == "$ne"@ {
        Some("!="@)
    } else if qop == "$gt"@ {
        Some(">"@)
    } else if qop == "$lt"@ {
        Some("<"@)
    } else if qop == "$gte"@ {
        Some(">="@)
    } else if qop == "$lte"@ {
        Some("<="@)
    } else if qop == "$in"@ {
        Some("IN"@)
    } else if qop == "$nin"@ {
        Some("NOT IN"@)
    } else if qop == "$notnull"@ {
        Some("IS NOT NULL"@)
    } else if qop == "$null"@ {
        Some("IS NULL"@)
    } else {
        None
    }
}

/// The message for a query operator that has no SQL operator.
pub open spec fn operator_not_found(qop: Seq<char>) -> Seq<char> {
    "operator "@ + qop + " not found"@
}

/// The SQL operator and the value that a filter value asks for: `$op.value`
/// names an operator before the first dot and the value after it (up to a
/// second dot, if any); a value without a dot is compared with `=`.
pub open spec fn filter_parts(v: Seq<char>) -> Result<(Seq<char>, Seq<char>), Seq<char>> {
    if v.contains('.') {
        let pieces = split(v, '.');
        match operator_sql(pieces[0]) {
            Some(op) => Ok((op, pieces[1])),
            None => Err(operator_not_found(pieces[0])),
        }
    } else {
        Ok(("="@, v))
    }
}

/// Keys that begin with `_` name a statement part rather than a column.
pub open spec fn is_reserved(key: Seq<char>) -> bool {
    key.len() > 0 && key[0] == '_'
}

/// The parameters that filter rows: those whose key is not reserved, in order.
pub open spec fn where_params(q: Seq<(Seq<char>, Seq<char>)>) -> Seq<(Seq<char>, Seq<char>)>
    decreases q.len(),
{
    if q.len() == 0 {
        Seq::empty()
    } else if is_reserved(q.last().0) {
        where_params(q.drop_last())
    } else {
        where_params(q.drop_last()).push(q.last())
    }
}

/// The condition of the `n`-th filter (counted from 1) on column `key`.
pub open spec fn condition(key: Seq<char>, op: Seq<char>, n: nat) -> Seq<char> {
    key + op + "$"@ + decimal(n)
}

/// The conditions and the values of the filters `ps`, the `n`-th condition
/// comparing its column with placeholder `$n`; or the message for the first
/// filter whose operator is unknown.
pub open spec fn where_clause(ps: Seq<(Seq<char>, Seq<char>)>) -> Result<
    (Seq<Seq<char>>, Seq<Seq<char>>),
    Seq<char>,
>
    decreases ps.len(),
{
    if ps.len() == 0 {
        Ok((Seq::empty(), Seq::empty()))
    } else {
        match where_clause(ps.drop_last()) {
            Err(e) => Err(e),
            Ok((conditions, values)) => match filter_parts(ps.last().1) {
                Err(e) => Err(e),
                Ok((op, value)) => Ok(
                    (
                        conditions.push(condition(ps.last().0, op, ps.len())),
                        values.push(value),
                    ),
                ),
            },
        }
    }
}

/// The `WHERE` clause over the given conditions.
pub open spec fn where_sql(conditions: Seq<Seq<char>>) -> Seq<char> {
    "WHERE "@ + join(
        conditions,
        if conditions.len() > 1 {
            " AND "@
        } else {
            " "@
        },
    )
}

/// The value of the first parameter whose key is `key`.
pub open spec fn first_value(q: Seq<(Seq<char>, Seq<char>)>, key: Seq<char>) -> Option<Seq<char>>
    decreases q.len(),
{
    if q.len() == 0 {
        None
    } else if q[0].0 == key {
        Some(q[0].1)
    } else {
        first_value(q.drop_first(), key)
    }
}

/// How a statement parameter's value becomes its column list.
#[derive(Clone, Copy, Debug, PartialEq, Eq, Structural)]
pub enum ColumnStyle {
    /// The value as it is.
    Verbatim,
    /// The value when it names one column, else nothing.
    Single,
    /// Each comma-separated column, `-column` meaning `column DESC`.
    Ordered,
}

/// One column of an ordering: `-column` sorts descending.
pub open spec fn order_term(column: Seq<char>) -> Seq<char> {
    if column.len() > 0 && column[0] == '-' {
        column.drop_first() + " DESC"@
    } else {
        column
    }
}

/// The `ORDER BY` column list for a comma-separated value.
pub open spec fn order_columns(v: Seq<char>) -> Seq<char> {
    join(split(v, ',').map_values(|c: Seq<char>| order_term(c)), ","@)
}

/// The column list of a statement parameter's value.
pub open spec fn style_columns(style: ColumnStyle, v: Seq<char>) -> Seq<char> {
    match style {
        ColumnStyle::Verbatim => v,
        ColumnStyle::Single => if split(v, ',').len() > 1 {
            Seq::empty()
        } else {
            v
        },
        ColumnStyle::Ordered => order_columns(v),
    }
}

/// The `SELECT ... FROM` head: the columns of the first `_select`, or all.
pub open spec fn select_sql(q: Seq<(Seq<char>, Seq<char>)>) -> Seq<char> {
    match first_value(q, "_select"@) {
        Some(v) if v.len() > 0 => "SELECT "@ + v + " FROM"@,
        _ => "SELECT * FROM"@,
    }
}

/// The `SELECT COUNT(...) FROM` head of the first `_count` that names one
/// column, else nothing.
pub open spec fn count_sql(q: Seq<(Seq<char>, Seq<char>)>) -> Seq<char> {
    match first_value(q, "_count"@) {
        Some(v) if v.len() > 0 && split(v, ',').len() <= 1 => "SELECT COUNT("@ + v + ") FROM"@,
        _ => Seq::empty(),
    }
}

/// The `ORDER BY` clause of the first `_order`, else nothing.
pub open spec fn order_sql(q: Seq<(Seq<char>, Seq<char>)>) -> Seq<char> {
    match first_value(q, "_order"@) {
        Some(v) if order_columns(v).len() > 0 => "ORDER BY "@ + order_columns(v),
        _ => Seq::empty(),
    }
}

/// The `GROUP BY` clause of the first `_groupby`, else nothing.
pub open spec fn groupby_sql(q: Seq<(Seq<char>, Seq<char>)>) -> Seq<char> {
    match first_value(q, "_groupby"@) {
        Some(v) if v.len() > 0 => "GROUP BY "@ + v,
        _ => Seq::empty(),
    }
}

/// The SQL operator for a query operator; an error naming it when there is none.
pub fn query_operator(qop: &str) -> (res: Result<&'static str, String>)
    ensures
        match operator_sql(qop@) {
            Some(op) => res matches Ok(o) && o@ == op,
            None => res matches Err(e) && e@ == operator_not_found(qop@),
        },
{
    if str_eq(qop, "$eq") {
        Ok("=")
    } else if str_eq(qop, "$ne") {
        Ok("!=")
    } else if str_eq(qop, "$gt") {
        Ok(">")
    } else if str_eq(qop, "$lt") {
        Ok("<")
    } else if str_eq(qop, "$gte") {
        Ok(">=")
    } else if str_eq(qop, "$lte") {
        Ok("<=")
    } else if str_eq(qop, "$in") {
        Ok("IN")
    } else if str_eq(qop, "$nin") {
        Ok("NOT IN")
    } else if str_eq(qop, "$notnull") {
        Ok("IS NOT NULL")
    } else if str_eq(qop, "$null") {
        Ok("IS NULL")
    } else {
        let mut e = String::from_str("operator ");
        e.append(qop);
        e.append(" not found");
        Err(e)
    }
}

/// The SQL operator and the value of one filter value.
pub(crate) fn filter_parts_of(v: &str) -> (res: Result<(&'static str, String), String>)
    ensures
        match filter_parts(v@) {
            Ok((op, value)) => res matches Ok((o, s)) && o@ == op && s@ == value,
            Err(e) => res matches Err(m) && m@ == e,
        },
{
    if contains_char(v, '.') {
        let pieces = split_str(v, '.');
        proof {
            lemma_split_at_least_two(v@, '.');
        }
        match query_operator(pieces[0].as_str()) {
            Ok(op) => Ok((op, pieces[1].clone())),
            Err(e) => Err(e),
        }
    } else {
        Ok(("=", String::from_str(v)))
    }
}

/// The filters of a prefix come first among the filters of the whole.
pub proof fn lemma_where_params_prefix(q: Seq<(Seq<char>, Seq<char>)>, i: int)
    requires
        0 <= i <= q.len(),
    ensures
        where_params(q.take(i)).len() <= where_params(q).len(),
        where_params(q).take(where_params(q.take(i)).len() as int) == where_params(q.take(i)),
    decreases q.len(),
{
    if i == q.len() {
        assert(q.take(i) =~= q);
        assert(where_params(q).take(where_params(q).len() as int) =~= where_params(q));
    } else {
        assert(q.drop_last().take(i) =~= q.take(i));
        lemma_where_params_prefix(q.drop_last(), i);
        let w = where_params(q.drop_last());
        let k = where_params(q.take(i)).len() as int;
        if !is_reserved(q.last().0) {
            assert(w.push(q.last()).take(k) =~= w.take(k));
        }
    }
}

/// An unknown operator among the first filters is the error of every longer list.
pub proof fn lemma_where_clause_error_stays(ps: Seq<(Seq<char>, Seq<char>)>, n: int)
    requires
        0 <= n <= ps.len(),
        where_clause(ps.take(n)) is Err,
    ensures
        where_clause(ps) == where_clause(ps.take(n)),
    decreases ps.len(),
{
    if n == ps.len() {
        assert(ps.take(n) =~= ps);
    } else {
        assert(ps.drop_last().take(n) =~= ps.take(n));
        lemma_where_clause_error_stays(ps.drop_last(), n);
    }
}

/// Either the values or the conditions of the filters among `v`.
fn collect_params(v: &Vec<Params>, collect_values: bool) -> (res: Result<Vec<String>, String>)
    requires
        where_params(pairs_of(v@)).len() <= i32::MAX,
    ensures
        match where_clause(where_params(pairs_of(v@))) {
            Ok((conditions, values)) => res matches Ok(out) && texts_of(out@) == (if collect_values {
                values
            } else {
                conditions
            }),
            Err(e) => res matches Err(m) && m@ == e,
        },
{
    let ghost q = pairs_of(v@);
    let mut out: Vec<String> = Vec::new();
    let mut pid: i32 = 0;
    let mut i: usize = 0;
    assert(q.take(0) =~= Seq::<(Seq<char>, Seq<char>)>::empty());
    while i < v.len()
        invariant
            q == pairs_of(v@),
            i <= v.len(),
            where_params(q).len() <= i32::MAX,
            pid == where_params(q.take(i as int)).len(),
            where_clause(where_params(q.take(i as int))) matches Ok((conditions, values))
                && texts_of(out@) == (if collect_values {
                values
            } else {
                conditions
            }),
        decreases v.len() - i,
    {
        let param = &v[i];
        let ghost before = q.take(i as int);
        let ghost after = q.take(i + 1);
        assert(after.drop_last() =~= before);
        assert(after.last() == (param.k@, param.v@));
        if !starts_with_char(param.k.as_str(), '_') {
            proof {
                lemma_where_params_prefix(q, i + 1);
            }
            let ghost wb = where_params(before);
            let ghost wa = where_params(after);
            assert(wa == wb.push(after.last()));
            assert(wa.drop_last() =~= wb);
            assert(wa.last() == (param.k@, param.v@));
            pid = pid + 1;
            match filter_parts_of(param.v.as_str()) {
                Ok((op, value)) => {
                    if collect_values {
                        out.push(value);
                    } else {
                        let mut cond = param.k.clone();
                        cond.append(op);
                        cond.append("$");
                        cond.append(decimal_string(pid as u64).as_str());
                        out.push(cond);
                    }
                    assert(texts_of(out@) =~= (if collect_values {
                        where_clause(where_params(after))->Ok_0.1
                    } else {
                        where_clause(where_params(after))->Ok_0.0
                    }));
                },
                Err(e) => {
                    proof {
                        lemma_where_params_prefix(q, i + 1);
                        let wq = where_params(q);
                        assert(wq.take(wa.len() as int) == wa);
                        lemma_where_clause_error_stays(wq, wa.len() as int);
                    }
                    return Err(e);
                },
            }
        }
        i += 1;
    }
    assert(q.take(v.len() as int) =~= q);
    Ok(out)
}

/// The value of the first parameter whose key is `key`.
fn find_value<'a>(query: &'a Vec<Params>, key: &str) -> (res: Option<&'a String>)
    ensures
        match first_value(pairs_of(query@), key@) {
            Some(v) => res matches Some(s) && s@ == v,
            None => res is None,
        },
{
    let ghost q = pairs_of(query@);
    let mut i: usize = 0;
    assert(q.skip(0) =~= q);
    while i < query.len()
        invariant
            q == pairs_of(query@),
            i <= query.len(),
            first_value(q, key@) == first_value(q.skip(i as int), key@),
        decreases query.len() - i,
    {
        assert(q.skip(i as int)[0] == (query@[i as int].k@, query@[i as int].v@));
        if str_eq(query[i].k.as_str(), key) {
            return Some(&query[i].v);
        }
        assert(q.skip(i as int).drop_first() =~= q.skip(i + 1));
        i += 1;
    }
    None
}

/// The column list that `style` makes of a statement parameter's value.
pub(crate) fn columns_of(style: ColumnStyle, v: &str) -> (res: String)
    ensures
        res@ == style_columns(style, v@),
{
    match style {
        ColumnStyle::Verbatim => String::from_str(v),
        ColumnStyle::Single => {
            let vs = split_str(v, ',');
            if vs.len() > 1 {
                String::new()
            } else {
                String::from_str(v)
            }
        },
        ColumnStyle::Ordered => {
            let vspl = split_str(v, ',');
            let ghost pieces = split(v@, ',');
            let mut od: Vec<String> = Vec::new();
            let mut i: usize = 0;
            while i < vspl.len()
                invariant
                    vspl.len() == pieces.len(),
                    pieces == split(v@, ','),
                    forall|j: int| 0 <= j < vspl.len() ==> #[trigger] vspl[j]@ == pieces[j],
                    i <= vspl.len(),
                    od.len() == i,
                    forall|j: int| 0 <= j < i ==> #[trigger] od[j]@ == order_term(pieces[j]),
                decreases vspl.len() - i,
            {
                let column = vspl[i].as_str();
                if starts_with_char(column, '-') {
                    let n = column.unicode_len();
                    let mut s = String::from_str(column.substring_char(1, n));
                    s.append(" DESC");
                    assert(column@.subrange(1, n as int) =~= column@.drop_first());
                    od.push(s);
                } else {
                    od.push(vspl[i].clone());
                }
                i += 1;
            }
            let res = join_strings(&od, ",");
            assert(texts_of(od@) =~= pieces.map_values(|c: Seq<char>| order_term(c)));
            res
        },
    }
}

/// The statement part that the first parameter keyed `stm` asks for: `stm_fmt`
/// with its column list in place of `{}`, or `stm_default` when there is no
/// such parameter or its column list is empty.
fn process_statement(
    qs: &QueryString,
    stm: &str,
    stm_default: &str,
    stm_fmt: &str,
    style: ColumnStyle,
) -> (res: Result<StatementStructResult, String>)
    ensures
        res matches Ok(r) && r.sql@ == match first_value(qs@, stm@) {
            Some(v) => if style_columns(style, v).len() > 0 {
                fill(stm_fmt@, style_columns(style, v))
            } else {
                stm_default@
            },
            None => stm_default@,
        },
{
    let mut statement_syntax = String::from_str(stm_default);
    let columns = match find_value(&qs.query, stm) {
        Some(v) => columns_of(style, v.as_str()),
        None => String::new(),
    };
    if columns.as_str().unicode_len() != 0 {
        statement_syntax = fill_placeholder(stm_fmt, columns.as_str());
    }
    Ok(StatementStructResult { sql: statement_syntax })
}

/// The `WHERE` clause of the filters in `qs` and the values of its
/// placeholders; the message for the first unknown operator when there is one.
pub fn ext_where(qs: &QueryString) -> (res: Result<WhereStructResult, String>)
    requires
        where_params(qs@).len() <= i32::MAX,
    ensures
        match where_clause(where_params(qs@)) {
            Ok((conditions, values)) => res matches Ok(w) && w.sql@ == where_sql(conditions)
                && texts_of(w.values@) == values,
            Err(e) => res matches Err(m) && m@ == e,
        },
{
    let where_values = match collect_params(&qs.query, true) {
        Ok(result) => result,
        Err(e) => return Err(e),
    };
    let where_fields = match collect_params(&qs.query, false) {
        Ok(result) => result,
        Err(e) => return Err(e),
    };
    let mut where_syntax = String::from_str("WHERE ");
    if where_fields.len() > 1 {
        where_syntax.append(join_strings(&where_fields, " AND ").as_str());
    } else {
        where_syntax.append(join_strings(&where_fields, " ").as_str());
    }
    Ok(WhereStructResult { sql: where_syntax, values: where_values })
}

/// The `SELECT ... FROM` head that the query string asks for.
pub fn ext_select(qs: &QueryString) -> (res: Result<StatementStructResult, String>)
    ensures
        res matches Ok(r) && r.sql@ == select_sql(qs@),
{
    let r = process_statement(qs, "_select", "SELECT * FROM", "SELECT {} FROM", ColumnStyle::Verbatim);
    proof {
        reveal_strlit("SELECT {} FROM");
        reveal_strlit("SELECT ");
        reveal_strlit(" FROM");
        assert("SELECT {} FROM"@ =~= "SELECT "@ + seq!['{', '}'] + " FROM"@);
        if let Some(v) = first_value(qs@, "_select"@) {
            lemma_fill_once("SELECT "@, " FROM"@, v);
        }
    }
    Ok(r.unwrap())
}

/// The `SELECT COUNT(...) FROM` head that the query string asks for.
pub fn ext_count(qs: &QueryString) -> (res: Result<StatementStructResult, String>)
    ensures
        res matches Ok(r) && r.sql@ == count_sql(qs@),
{
    let r = process_statement(qs, "_count", "", "SELECT COUNT({}) FROM", ColumnStyle::Single);
    proof {
        reveal_strlit("");
        reveal_strlit("SELECT COUNT({}) FROM");
        reveal_strlit("SELECT COUNT(");
        reveal_strlit(") FROM");
        assert("SELECT COUNT({}) FROM"@ =~= "SELECT COUNT("@ + seq!['{', '}'] + ") FROM"@);
        if let Some(v) = first_value(qs@, "_count"@) {
            lemma_fill_once("SELECT COUNT("@, ") FROM"@, v);
        }
    }
    Ok(r.unwrap())
}

/// The `ORDER BY` clause that the query string asks for.
pub fn ext_order(qs: &QueryString) -> (res: Result<StatementStructResult, String>)
    ensures
        res matches Ok(r) && r.sql@ == order_sql(qs@),
{
    proof {
        reveal_strlit("");
        reveal_strlit("ORDER BY {}");
        reveal_strlit("ORDER BY ");
        assert("ORDER BY {}"@ =~= "ORDER BY "@ + seq!['{', '}'] + Seq::<char>::empty());
        if let Some(v) = first_value(qs@, "_order"@) {
            lemma_fill_once("ORDER BY "@, Seq::empty(), order_columns(v));
            assert("ORDER BY "@ + order_columns(v) + Seq::<char>::empty() =~= "ORDER BY "@
                + order_columns(v));
        }
    }
    process_statement(qs, "_order", "", "ORDER BY {}", ColumnStyle::Ordered)
}

/// The `GROUP BY` clause that the query string asks for.
pub fn ext_groupby(qs: &QueryString) -> (res: Result<StatementStructResult, String>)
    ensures
        res matches Ok(r) && r.sql@ == groupby_sql(qs@),
{
    let r = process_statement(qs, "_groupby", "", "GROUP BY {}", ColumnStyle::Verbatim);
    proof {
        reveal_strlit("");
        reveal_strlit("GROUP BY {}");
        reveal_strlit("GROUP BY ");
        assert("GROUP BY {}"@ =~= "GROUP BY "@ + seq!['{', '}'] + Seq::<char>::empty());
        if let Some(v) = first_value(qs@, "_groupby"@) {
            lemma_fill_once("GROUP BY "@, Seq::empty(), v);
            assert("GROUP BY "@ + v + Seq::<char>::empty() =~= "GROUP BY "@ + v);
        }
    }
    Ok(r.unwrap())
}

} // verus!
