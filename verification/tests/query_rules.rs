use goga::postgres::commands as strict;
use goga::postgresql::commands::{
    ext_count, ext_groupby, ext_order, ext_select, ext_where, query_operator, Params, QueryString,
};

fn qs(pairs: &[(&str, &str)]) -> QueryString {
    QueryString {
        query: pairs
            .iter()
            .map(|(k, v)| Params { k: k.to_string(), v: v.to_string() })
            .collect(),
    }
}

fn strict_qs(pairs: &[(&str, &str)]) -> strict::QueryString {
    strict::QueryString {
        query: pairs
            .iter()
            .map(|(k, v)| strict::Params { k: k.to_string(), v: v.to_string() })
            .collect(),
    }
}

#[test]
fn where_placeholders_follow_filter_order() {
    let result = ext_where(&qs(&[("a", "1"), ("_x", "2"), ("b", "$gt.3"), ("c", "$in.4")])).unwrap();
    assert_eq!(result.sql, "WHERE a=$1 AND b>$2 AND cIN$3");
    assert_eq!(result.values, vec!["1".to_string(), "3".to_string(), "4".to_string()]);
}

#[test]
fn where_reserved_params_do_not_filter() {
    let plain = ext_where(&qs(&[("a", "1"), ("b", "2")])).unwrap();
    let mixed =
        ext_where(&qs(&[("_order", "a"), ("a", "1"), ("_select", "b"), ("b", "2"), ("_count", "*")]))
            .unwrap();
    assert_eq!(plain.sql, mixed.sql);
    assert_eq!(plain.values, mixed.values);
}

#[test]
fn where_without_filters() {
    let result = ext_where(&qs(&[("_select", "a")])).unwrap();
    assert_eq!(result.sql, "WHERE ");
    assert!(result.values.is_empty());
}

#[test]
fn where_value_after_second_dot_is_dropped() {
    let result = ext_where(&qs(&[("n", "$gte.1.5")])).unwrap();
    assert_eq!(result.sql, "WHERE n>=$1");
    assert_eq!(result.values, vec!["1".to_string()]);
}

#[test]
fn where_first_unknown_operator_is_reported() {
    match ext_where(&qs(&[("a", "$eq.1"), ("b", "$xx.2"), ("c", "$yy.3")])) {
        Err(e) => assert_eq!(e, "operator $xx not found"),
        Ok(_) => panic!("an unknown operator must be refused"),
    }
}

#[test]
fn where_placeholder_numbers_reach_two_digits() {
    let pairs: Vec<(String, String)> = (0..11).map(|i| (format!("c{}", i), i.to_string())).collect();
    let refs: Vec<(&str, &str)> = pairs.iter().map(|(k, v)| (k.as_str(), v.as_str())).collect();
    let result = ext_where(&qs(&refs)).unwrap();
    assert!(result.sql.ends_with("c9=$10 AND c10=$11"));
    assert_eq!(result.values.len(), 11);
}

#[test]
fn operators_all_known() {
    let expected = [
        ("$eq", "="),
        ("$ne", "!="),
        ("$gt", ">"),
        ("$lt", "<"),
        ("$gte", ">="),
        ("$lte", "<="),
        ("$in", "IN"),
        ("$nin", "NOT IN"),
        ("$notnull", "IS NOT NULL"),
        ("$null", "IS NULL"),
    ];
    for (op, sql) in expected.iter() {
        assert_eq!(query_operator(op).unwrap(), *sql);
    }
    assert_eq!(query_operator("$EQ").unwrap_err(), "operator $EQ not found");
    assert_eq!(query_operator("").unwrap_err(), "operator  not found");
}

#[test]
fn order_mixed_directions() {
    let result = ext_order(&qs(&[("_order", "-a,b,-c")])).unwrap();
    assert_eq!(result.sql, "ORDER BY a DESC,b,c DESC");
}

#[test]
fn order_keeps_empty_columns() {
    let result = ext_order(&qs(&[("_order", "a,,b")])).unwrap();
    assert_eq!(result.sql, "ORDER BY a,,b");
}

#[test]
fn order_lone_dash() {
    let result = ext_order(&qs(&[("_order", "-")])).unwrap();
    assert_eq!(result.sql, "ORDER BY  DESC");
}

#[test]
fn statement_first_parameter_decides() {
    let result = ext_select(&qs(&[("a", "1"), ("_select", "x"), ("_select", "y")])).unwrap();
    assert_eq!(result.sql, "SELECT x FROM");
    let result = ext_groupby(&qs(&[("_groupby", "g"), ("_groupby", "h")])).unwrap();
    assert_eq!(result.sql, "GROUP BY g");
}

#[test]
fn statement_other_keys_do_not_matter() {
    let alone = ext_count(&qs(&[("_count", "id")])).unwrap();
    let among = ext_count(&qs(&[("id", "3"), ("_order", "id"), ("_count", "id"), ("x", "y")])).unwrap();
    assert_eq!(alone.sql, "SELECT COUNT(id) FROM");
    assert_eq!(alone.sql, among.sql);
}

#[test]
fn count_missing_is_empty() {
    assert_eq!(ext_count(&qs(&[("a", "b")])).unwrap().sql, "");
}

#[test]
fn select_keeps_unicode_columns() {
    assert_eq!(ext_select(&qs(&[("_select", "nöme,ä")])).unwrap().sql, "SELECT nöme,ä FROM");
}

#[test]
fn strict_form_missing_parameters_are_errors() {
    assert_eq!(strict::ext_select(strict_qs(&[("a", "b")])).err().unwrap(), "");
    assert_eq!(strict::ext_count(strict_qs(&[("a", "b")])).err().unwrap(), "");
    assert_eq!(strict::ext_order(strict_qs(&[("a", "b")])).err().unwrap(), "");
    assert_eq!(strict::ext_groupby(strict_qs(&[("a", "b")])).err().unwrap(), "");
}

#[test]
fn strict_form_reserved_keys_filter_too() {
    let result = strict::ext_where(strict_qs(&[("_order", "a"), ("b", "$lt.2")])).unwrap();
    assert_eq!(result.sql, "WHERE _order=$1 AND b<$2");
    assert_eq!(result.values, vec!["a".to_string(), "2".to_string()]);
}

#[test]
fn strict_form_query_operator() {
    assert_eq!(strict::query_operator("$nin").unwrap(), "NOT IN");
    assert_eq!(strict::query_operator("$x").unwrap_err(), "operator $x not found");
}

#[test]
fn form_items_are_url_decoded() {
    let items = vec![
        ("name".to_string(), "goga+rust%21".to_string()),
        ("_order".to_string(), "-age".to_string()),
    ];
    let parsed = QueryString::from_form_items(&items);
    assert_eq!(parsed.query.len(), 2);
    assert_eq!(parsed.query[0].k, "name");
    assert_eq!(parsed.query[0].v, "goga rust!");
    assert_eq!(parsed.query[1].k, "_order");
    assert_eq!(parsed.query[1].v, "-age");
}

#[test]
fn form_items_keys_are_kept_raw() {
    let items = vec![("a%20b".to_string(), "x".to_string())];
    let parsed = QueryString::from_form_items(&items);
    assert_eq!(parsed.query[0].k, "a%20b");
}

#[test]
fn form_items_invalid_utf8_is_refused() {
    let items = vec![("a".to_string(), "%ff%fe".to_string())];
    assert!(QueryString::decode_form_items(&items).is_none());
    let good = vec![("a".to_string(), "x+y".to_string())];
    assert_eq!(QueryString::decode_form_items(&good).unwrap().query[0].v, "x y");
}

#[test]
fn strict_form_items_are_url_decoded() {
    let items = vec![("_select".to_string(), "a%2Cb".to_string())];
    let parsed = strict::QueryString::from_form_items(&items);
    assert_eq!(parsed.query[0].v, "a,b");
    assert_eq!(strict::ext_select(parsed).unwrap().sql, "SELECT a,b FROM");
    let bad = vec![("a".to_string(), "%C3%28".to_string())];
    assert!(strict::QueryString::decode_form_items(&bad).is_none());
    assert!(strict::QueryString::decode_form_items(&items).is_some());
}
