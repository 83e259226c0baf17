//! Properties of the strict query-string rules that hold for every request.

use vstd::prelude::*;
use crate::postgres::commands::{count_error, count_sql, groupby_sql, order_sql, select_sql};
use crate::postgresql::laws::{
    law_dash_means_descending, law_first_parameter_value, law_missing_key_yields_nothing,
    law_order_single_column,
};
use crate::text::{lemma_split_at_least_two, lemma_split_without_sep};

verus! {

/// Without the parameter for a statement part, that part is an error with an
/// empty message; with it, the part is never that error.
pub proof fn law_strict_missing_part_is_error(q: Seq<(Seq<char>, Seq<char>)>)
    ensures
        (forall|i: int| 0 <= i < q.len() ==> (#[trigger] q[i]).0 != "_select"@) <==> select_sql(q)
            == Err::<Seq<char>, Seq<char>>(Seq::empty()),
        (forall|i: int| 0 <= i < q.len() ==> (#[trigger] q[i]).0 != "_count"@) <==> count_sql(q)
            == Err::<Seq<char>, Seq<char>>(Seq::empty()),
        (forall|i: int| 0 <= i < q.len() ==> (#[trigger] q[i]).0 != "_order"@) <==> order_sql(q)
            == Err::<Seq<char>, Seq<char>>(Seq::empty()),
        (forall|i: int| 0 <= i < q.len() ==> (#[trigger] q[i]).0 != "_groupby"@) <==> groupby_sql(
            q,
        ) == Err::<Seq<char>, Seq<char>>(Seq::empty()),
{
    reveal_strlit("could not use more than one column in count function");
    assert(count_error().len() > 0);
    law_missing_key_yields_nothing(q, "_select"@);
    law_missing_key_yields_nothing(q, "_count"@);
    law_missing_key_yields_nothing(q, "_order"@);
    law_missing_key_yields_nothing(q, "_groupby"@);
}

/// `_select=columns` as the first `_select` selects exactly those columns, and
/// an empty `_select` selects all of them.
pub proof fn law_strict_select_columns(columns: Seq<char>, rest: Seq<(Seq<char>, Seq<char>)>)
    ensures
        columns.len() > 0 ==> select_sql(seq![("_select"@, columns)] + rest) == Ok::<
            Seq<char>,
            Seq<char>,
        >("SELECT "@ + columns + " FROM"@),
        select_sql(seq![("_select"@, Seq::<char>::empty())] + rest) == Ok::<Seq<char>, Seq<char>>(
            "SELECT * FROM"@,
        ),
{
    law_first_parameter_value("_select"@, columns, rest);
    law_first_parameter_value("_select"@, Seq::<char>::empty(), rest);
}

/// `_count=column` as the first `_count` counts that one column; a value that
/// names several columns is refused with the count error.
pub proof fn law_strict_count_one_column(value: Seq<char>, rest: Seq<(Seq<char>, Seq<char>)>)
    ensures
        value.len() > 0 && !value.contains(',') ==> count_sql(seq![("_count"@, value)] + rest)
            == Ok::<Seq<char>, Seq<char>>("SELECT COUNT("@ + value + ") FROM"@),
        value.contains(',') ==> count_sql(seq![("_count"@, value)] + rest) == Err::<
            Seq<char>,
            Seq<char>,
        >("could not use more than one column in count function"@),
{
    law_first_parameter_value("_count"@, value, rest);
    if value.contains(',') {
        lemma_split_at_least_two(value, ',');
    } else {
        lemma_split_without_sep(value, ',');
    }
}

/// `_order=column` as the first `_order` orders by that column, ascending,
/// and `_order=-column` descending.
pub proof fn law_strict_order_clause(column: Seq<char>, rest: Seq<(Seq<char>, Seq<char>)>)
    requires
        column.len() > 0,
        !column.contains(','),
        column[0] != '-',
    ensures
        order_sql(seq![("_order"@, column)] + rest) == Ok::<Seq<char>, Seq<char>>(
            "ORDER BY "@ + column,
        ),
        order_sql(seq![("_order"@, seq!['-'] + column)] + rest) == Ok::<Seq<char>, Seq<char>>(
            "ORDER BY "@ + column + " DESC"@,
        ),
{
    law_first_parameter_value("_order"@, column, rest);
    law_first_parameter_value("_order"@, seq!['-'] + column, rest);
    law_order_single_column(column);
    law_dash_means_descending(column);
    reveal_strlit(" DESC");
    assert((column + " DESC"@).len() > 0);
    assert("ORDER BY "@ + (column + " DESC"@) =~= "ORDER BY "@ + column + " DESC"@);
}

/// `_groupby=columns` as the first `_groupby` groups by exactly those columns.
pub proof fn law_strict_groupby_clause(columns: Seq<char>, rest: Seq<(Seq<char>, Seq<char>)>)
    requires
        columns.len() > 0,
    ensures
        groupby_sql(seq![("_groupby"@, columns)] + rest) == Ok::<Seq<char>, Seq<char>>(
            "GROUP BY "@ + columns,
        ),
{
    law_first_parameter_value("_groupby"@, columns, rest);
}

} // verus!
