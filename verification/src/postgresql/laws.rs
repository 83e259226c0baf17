//! Properties of the query-string rules that hold for every request.

use vstd::prelude::*;
use crate::postgresql::commands::{
    condition, filter_parts, first_value, is_reserved, operator_sql, order_columns, order_term,
    count_sql, groupby_sql, order_sql, select_sql, where_clause, where_params, where_sql,
};
use crate::text::{
    decimal, join, lemma_split_at_least_two, lemma_split_join,
    lemma_split_without_sep,
};
use crate::api::laws::law_decimal_is_a_numeral;
use crate::api::tables::{all_digits, digits_value};

verus! {

/// A parameter whose key starts with `_` never filters rows: wherever it is
/// inserted among the parameters, the filters stay as they were.
pub proof fn law_reserved_params_do_not_filter(
    q: Seq<(Seq<char>, Seq<char>)>,
    i: int,
    key: Seq<char>,
    value: Seq<char>,
)
    requires
        0 <= i <= q.len(),
        is_reserved(key),
    ensures
        where_params(q.insert(i, (key, value))) == where_params(q),
    decreases q.len(),
{
    let r = q.insert(i, (key, value));
    if i == q.len() {
        assert(r.drop_last() =~= q);
    } else {
        assert(r.drop_last() =~= q.drop_last().insert(i, (key, value)));
        assert(r.last() == q.last());
        law_reserved_params_do_not_filter(q.drop_last(), i, key, value);
    }
}

/// The `WHERE` clause succeeds exactly when every filter's operator is known.
/// Then the `n`-th condition compares its column with placeholder `$n` and the
/// `n`-th value is that filter's value; otherwise the error is the one of the
/// first filter with an unknown operator.
pub proof fn law_where_clause_placeholders(ps: Seq<(Seq<char>, Seq<char>)>)
    ensures
        where_clause(ps) is Ok <==> forall|i: int|
            0 <= i < ps.len() ==> (#[trigger] filter_parts(ps[i].1)) is Ok,
        where_clause(ps) matches Ok((conditions, values)) ==> {
            &&& conditions.len() == ps.len()
            &&& values.len() == ps.len()
            &&& forall|i: int|
                0 <= i < ps.len() ==> ((#[trigger] filter_parts(ps[i].1)) matches Ok((op, value))
                    && values[i] == value && conditions[i] == condition(ps[i].0, op, (i + 1) as nat))
        },
        where_clause(ps) matches Err(e) ==> exists|i: int|
            0 <= i < ps.len() && #[trigger] filter_parts(ps[i].1) == Err::<
                (Seq<char>, Seq<char>),
                Seq<char>,
            >(e) && forall|j: int| 0 <= j < i ==> (#[trigger] filter_parts(ps[j].1)) is Ok,
    decreases ps.len(),
{
    if ps.len() > 0 {
        let init = ps.drop_last();
        law_where_clause_placeholders(init);
        assert(forall|i: int| 0 <= i < init.len() ==> init[i] == ps[i]);
        let last = ps.len() - 1;
        assert(ps.last() == ps[last]);
        match where_clause(init) {
            Err(e) => {
                let i = choose|i: int|
                    0 <= i < init.len() && #[trigger] filter_parts(init[i].1) == Err::<
                        (Seq<char>, Seq<char>),
                        Seq<char>,
                    >(e) && forall|j: int| 0 <= j < i ==> (#[trigger] filter_parts(init[j].1)) is Ok;
                assert(filter_parts(ps[i].1) == Err::<(Seq<char>, Seq<char>), Seq<char>>(e));
                assert(forall|j: int| 0 <= j < i ==> (#[trigger] filter_parts(ps[j].1)) is Ok) by {
                    assert(forall|j: int| 0 <= j < i ==> init[j] == ps[j]);
                }
            },
            Ok((conditions, values)) => {
                match filter_parts(ps.last().1) {
                    Err(e) => {
                        assert(forall|j: int| 0 <= j < last ==> (#[trigger] filter_parts(ps[j].1)) is Ok) by {
                            assert(forall|j: int| 0 <= j < last ==> init[j] == ps[j]);
                        }
                    },
                    Ok((op, value)) => {
                        assert forall|i: int| 0 <= i < ps.len() implies ((#[trigger] filter_parts(
                            ps[i].1,
                        )) matches Ok((o, v)) && where_clause(ps)->Ok_0.1[i] == v && where_clause(
                            ps,
                        )->Ok_0.0[i] == condition(ps[i].0, o, (i + 1) as nat)) by {
                            if i < last {
                                assert(init[i] == ps[i]);
                            }
                        }
                    },
                }
            },
        }
    }
}

/// `column=$op.value` filters with the SQL operator of `$op` and the value
/// after the dot; a value without a dot filters by equality.
pub proof fn law_operator_filter(qop: Seq<char>, value: Seq<char>)
    requires
        !qop.contains('.'),
        !value.contains('.'),
    ensures
        operator_sql(qop) matches Some(op) ==> filter_parts(qop + seq!['.'] + value) == Ok::<
            (Seq<char>, Seq<char>),
            Seq<char>,
        >((op, value)),
        filter_parts(value) == Ok::<(Seq<char>, Seq<char>), Seq<char>>(("="@, value)),
{
    let s = qop + seq!['.'] + value;
    let parts = seq![qop, value];
    assert(parts[0] == qop && parts[1] == value);
    assert(join(parts, seq!['.']) =~= s) by {
        assert(parts.drop_last() =~= seq![qop]);
        assert(join(parts.drop_last(), seq!['.']) == qop);
        assert(parts.last() == value);
    }
    assert forall|i: int| 0 <= i < parts.len() implies !(#[trigger] parts[i]).contains('.') by {}
    lemma_split_join(parts, '.');
    assert(s[qop.len() as int] == '.');
    assert(s.contains('.'));
}

/// `_order=a,-b` orders by `a`, then by `b` descending: each comma-separated
/// column keeps its place, and a leading `-` turns into ` DESC`.
pub proof fn law_order_columns(columns: Seq<Seq<char>>)
    requires
        columns.len() >= 1,
        forall|i: int| 0 <= i < columns.len() ==> !(#[trigger] columns[i]).contains(','),
    ensures
        order_columns(join(columns, seq![','])) == join(
            columns.map_values(|c: Seq<char>| order_term(c)),
            seq![','],
        ),
{
    lemma_split_join(columns, ',');
    reveal_strlit(",");
    assert(","@ =~= seq![',']);
}

/// A column list without commas or leading dashes orders as written.
pub proof fn law_order_single_column(column: Seq<char>)
    requires
        !column.contains(','),
        column.len() == 0 || column[0] != '-',
    ensures
        order_columns(column) == column,
{
    lemma_split_without_sep(column, ',');
    let terms = seq![column].map_values(|c: Seq<char>| order_term(c));
    assert(terms =~= seq![column]);
}

/// A statement part follows the first parameter with its key: parameters with
/// other keys, wherever they stand, do not change it.
pub proof fn law_other_keys_do_not_matter(
    q: Seq<(Seq<char>, Seq<char>)>,
    i: int,
    other: (Seq<char>, Seq<char>),
    key: Seq<char>,
)
    requires
        0 <= i <= q.len(),
        other.0 != key,
    ensures
        first_value(q.insert(i, other), key) == first_value(q, key),
    decreases q.len(),
{
    let r = q.insert(i, other);
    if i == 0 {
        assert(r.drop_first() =~= q);
    } else {
        assert(r[0] == q[0]);
        assert(r.drop_first() =~= q.drop_first().insert(i - 1, other));
        law_other_keys_do_not_matter(q.drop_first(), i - 1, other, key);
    }
}

/// Only the first parameter with a key counts: any that follow it are ignored.
pub proof fn law_first_parameter_decides(
    q: Seq<(Seq<char>, Seq<char>)>,
    more: Seq<(Seq<char>, Seq<char>)>,
    key: Seq<char>,
)
    requires
        first_value(q, key) is Some,
    ensures
        first_value(q + more, key) == first_value(q, key),
    decreases q.len(),
{
    if q.len() > 0 {
        assert((q + more)[0] == q[0]);
        if q[0].0 != key {
            assert((q + more).drop_first() =~= q.drop_first() + more);
            law_first_parameter_decides(q.drop_first(), more, key);
        }
    }
}


/// Every parameter whose key does not start with `_` is a filter, whatever
/// parameters came before it: it is appended to the filters, so two filters on
/// one column (a range, say) are both kept.
pub proof fn law_every_filter_counts(q: Seq<(Seq<char>, Seq<char>)>, p: (Seq<char>, Seq<char>))
    requires
        !is_reserved(p.0),
    ensures
        where_params(q.push(p)) == where_params(q).push(p),
{
    assert(q.push(p).drop_last() =~= q);
    assert(q.push(p).last() == p);
}

/// A query string without reserved keys is all filters, in order.
pub proof fn law_filters_are_all_plain_params(q: Seq<(Seq<char>, Seq<char>)>)
    requires
        forall|i: int| 0 <= i < q.len() ==> !is_reserved(#[trigger] q[i].0),
    ensures
        where_params(q) == q,
    decreases q.len(),
{
    if q.len() > 0 {
        let init = q.drop_last();
        assert(forall|i: int| 0 <= i < init.len() ==> init[i] == q[i]);
        law_filters_are_all_plain_params(init);
        assert(q.last() == q[q.len() - 1]);
        assert(init.push(q.last()) =~= q);
    }
}

/// A leading `-` on a column always means descending order, whatever the
/// column's name: the dash is dropped and ` DESC` follows the name.
pub proof fn law_dash_means_descending(column: Seq<char>)
    requires
        !column.contains(','),
    ensures
        order_columns(seq!['-'] + column) == column + " DESC"@,
{
    let s = seq!['-'] + column;
    assert(!s.contains(',')) by {
        if s.contains(',') {
            let i = choose|i: int| 0 <= i < s.len() && s[i] == ',';
            assert(i > 0);
            assert(column[i - 1] == ',');
        }
    }
    lemma_split_without_sep(s, ',');
    assert(s[0] == '-');
    assert(s.drop_first() =~= column);
    let terms = seq![s].map_values(|c: Seq<char>| order_term(c));
    assert(terms =~= seq![column + " DESC"@]);
}

/// The value of the first parameter that carries a key is what the key
/// yields, unchanged, whatever that value and whatever follows.
pub proof fn law_first_parameter_value(
    key: Seq<char>,
    value: Seq<char>,
    rest: Seq<(Seq<char>, Seq<char>)>,
)
    ensures
        first_value(seq![(key, value)] + rest, key) == Some(value),
{
    assert((seq![(key, value)] + rest)[0] == (key, value));
}

/// A key yields nothing exactly when no parameter carries it.
pub proof fn law_missing_key_yields_nothing(q: Seq<(Seq<char>, Seq<char>)>, key: Seq<char>)
    ensures
        first_value(q, key) is None <==> forall|i: int| 0 <= i < q.len() ==> (#[trigger] q[i]).0 != key,
    decreases q.len(),
{
    if q.len() > 0 {
        let tail = q.drop_first();
        law_missing_key_yields_nothing(tail, key);
        if q[0].0 != key {
            if forall|i: int| 0 <= i < tail.len() ==> (#[trigger] tail[i]).0 != key {
                assert forall|i: int| 0 <= i < q.len() implies (#[trigger] q[i]).0 != key by {
                    if i > 0 {
                        assert(tail[i - 1] == q[i]);
                    }
                }
            } else {
                let i = choose|i: int| 0 <= i < tail.len() && (#[trigger] tail[i]).0 == key;
                assert(q[i + 1] == tail[i]);
            }
        }
    }
}

/// The parameter at `i` carries the key and none before it does: the key
/// yields that parameter's value.
pub proof fn law_first_value_is_first_match(
    q: Seq<(Seq<char>, Seq<char>)>,
    key: Seq<char>,
    i: int,
)
    requires
        0 <= i < q.len(),
        q[i].0 == key,
        forall|j: int| 0 <= j < i ==> (#[trigger] q[j]).0 != key,
    ensures
        first_value(q, key) == Some(q[i].1),
    decreases i,
{
    if i > 0 {
        let tail = q.drop_first();
        assert(tail[i - 1] == q[i]);
        assert forall|j: int| 0 <= j < i - 1 implies (#[trigger] tail[j]).0 != key by {
            assert(tail[j] == q[j + 1]);
        }
        law_first_value_is_first_match(tail, key, i - 1);
        assert(q[0].0 != key);
    }
}

/// `_select=columns` as the first `_select` selects exactly those columns,
/// whatever they are and whatever follows.
pub proof fn law_select_columns(columns: Seq<char>, rest: Seq<(Seq<char>, Seq<char>)>)
    requires
        columns.len() > 0,
    ensures
        select_sql(seq![("_select"@, columns)] + rest) == "SELECT "@ + columns + " FROM"@,
{
    law_first_parameter_value("_select"@, columns, rest);
}


/// The `WHERE` clause lists its conditions in order, each after the first
/// joined by ` AND `: adding a condition appends ` AND ` and it.
pub proof fn law_where_conditions_joined(conditions: Seq<Seq<char>>)
    ensures
        where_sql(Seq::empty()) == "WHERE "@,
        conditions.len() == 1 ==> where_sql(conditions) == "WHERE "@ + conditions[0],
        conditions.len() >= 2 ==> where_sql(conditions) == where_sql(conditions.drop_last())
            + " AND "@ + conditions.last(),
{
    assert("WHERE "@ + Seq::<char>::empty() =~= "WHERE "@);
    if conditions.len() == 2 {
        let init = conditions.drop_last();
        assert(join(init, " "@) == init[0]);
        assert(join(init, " AND "@) == init[0]);
    }
}

/// `_count=column` as the first `_count` counts that column when it names
/// one column, and gives no count when it names several.
pub proof fn law_count_one_column(value: Seq<char>, rest: Seq<(Seq<char>, Seq<char>)>)
    ensures
        value.len() > 0 && !value.contains(',') ==> count_sql(seq![("_count"@, value)] + rest)
            == "SELECT COUNT("@ + value + ") FROM"@,
        value.contains(',') ==> count_sql(seq![("_count"@, value)] + rest) == Seq::<char>::empty(),
{
    law_first_parameter_value("_count"@, value, rest);
    if value.contains(',') {
        lemma_split_at_least_two(value, ',');
    } else {
        lemma_split_without_sep(value, ',');
    }
}

/// `_order=column` as the first `_order` orders by that column, ascending,
/// and `_order=-column` descending.
pub proof fn law_order_clause(column: Seq<char>, rest: Seq<(Seq<char>, Seq<char>)>)
    requires
        column.len() > 0,
        !column.contains(','),
        column[0] != '-',
    ensures
        order_sql(seq![("_order"@, column)] + rest) == "ORDER BY "@ + column,
        order_sql(seq![("_order"@, seq!['-'] + column)] + rest) == "ORDER BY "@ + column
            + " DESC"@,
{
    law_first_parameter_value("_order"@, column, rest);
    law_first_parameter_value("_order"@, seq!['-'] + column, rest);
    law_order_single_column(column);
    law_dash_means_descending(column);
    reveal_strlit(" DESC");
    assert((column + " DESC"@).len() > 0);
    assert("ORDER BY "@ + (column + " DESC"@) =~= "ORDER BY "@ + column + " DESC"@);
}

/// `_groupby=columns` as the first `_groupby` groups by exactly those columns.
pub proof fn law_groupby_clause(columns: Seq<char>, rest: Seq<(Seq<char>, Seq<char>)>)
    requires
        columns.len() > 0,
    ensures
        groupby_sql(seq![("_groupby"@, columns)] + rest) == "GROUP BY "@ + columns,
{
    law_first_parameter_value("_groupby"@, columns, rest);
}

/// A condition is the column, the operator, `$`, and then the placeholder's
/// number written in decimal digits, nothing else.
pub proof fn law_condition_placeholder(key: Seq<char>, op: Seq<char>, n: nat)
    ensures
        condition(key, op, n).take((key.len() + op.len() + 1) as int) == key + op + "$"@,
        condition(key, op, n).skip((key.len() + op.len() + 1) as int).len() > 0,
        all_digits(condition(key, op, n).skip((key.len() + op.len() + 1) as int)),
        digits_value(condition(key, op, n).skip((key.len() + op.len() + 1) as int)) == n,
{
    reveal_strlit("$");
    let c = condition(key, op, n);
    let head = key + op + "$"@;
    assert(head.len() == key.len() + op.len() + 1);
    assert(c.take(head.len() as int) =~= head);
    assert(c.skip(head.len() as int) =~= decimal(n));
    law_decimal_is_a_numeral(n);
}

/// Without the parameter for a statement part, the part takes its default:
/// all columns for the `SELECT` head, nothing for the others.
pub proof fn law_missing_parts_default(q: Seq<(Seq<char>, Seq<char>)>)
    ensures
        (forall|i: int| 0 <= i < q.len() ==> (#[trigger] q[i]).0 != "_select"@) ==> select_sql(q)
            == "SELECT * FROM"@,
        (forall|i: int| 0 <= i < q.len() ==> (#[trigger] q[i]).0 != "_count"@) ==> count_sql(q)
            == Seq::<char>::empty(),
        (forall|i: int| 0 <= i < q.len() ==> (#[trigger] q[i]).0 != "_order"@) ==> order_sql(q)
            == Seq::<char>::empty(),
        (forall|i: int| 0 <= i < q.len() ==> (#[trigger] q[i]).0 != "_groupby"@) ==> groupby_sql(q)
            == Seq::<char>::empty(),
{
    law_missing_key_yields_nothing(q, "_select"@);
    law_missing_key_yields_nothing(q, "_count"@);
    law_missing_key_yields_nothing(q, "_order"@);
    law_missing_key_yields_nothing(q, "_groupby"@);
}

} // verus!
