use std::collections::HashMap;
use goga::postgres::commands::{
    ext_count, ext_groupby, ext_order, ext_select, ext_where, query_operator, Params, QueryString,
};

#[test]
fn commands_get_opetators() {

    let mut test_cases = HashMap::new();
    test_cases.insert("$eq", "=");
    test_cases.insert("$ne", "!=");
    test_cases.insert("$gt", ">");
    test_cases.insert("$gte", ">=");
    test_cases.insert("$lt", "<");
    test_cases.insert("$lte", "<=");
    test_cases.insert("$in", "IN");
    test_cases.insert("$nin", "NOT IN");
    test_cases.insert("$notnull", "IS NOT NULL");
    test_cases.insert("$null", "IS NULL");

    for (op, expected) in &test_cases {
        match query_operator(&op.to_string()) {
            Ok(x) => assert_eq!(expected.to_string(), x),
            Err(e) => assert_eq!("", e)
        }
    }
}

#[test]
fn commands_get_opetators_error() {
    let invalid = "!tn".to_string();
    match query_operator(&invalid) {
        Ok(_) => println!("no result"),
        Err(e) => assert_eq!(format!("operator {} not found", invalid), e)
    }
}

#[test]
fn commands_where_by_request_one_querystring() {
    let mut hm = Vec::new();
    hm.push(Params{k: "user_id".to_string(), v: "5".to_string()});

    let qs = QueryString{ query: hm };
    let result = ext_where(qs)
        .unwrap();
    assert_eq!(result.sql, "WHERE user_id=$1".to_string());
    assert_eq!(result.values, vec!["5".to_string()])
}

#[test]
fn commands_where_by_request_n_querystring() {
    let mut hm = Vec::new();
    hm.push(Params{k: "user_id".to_string(), v: "5".to_string()});
    hm.push(Params{k: "name".to_string(), v: "goga".to_string()});

    let qs = QueryString{ query: hm };
    let result = ext_where(qs)
        .unwrap();
    assert_eq!(result.sql, "WHERE user_id=$1 AND name=$2".to_string());
    assert_eq!(result.values, vec!["5".to_string(), "goga".to_string()])
}

#[test]
fn commands_where_by_request_with_query_operators(){
    let mut hm = Vec::new();
    hm.push(Params{k: "user_id".to_string(), v: "$ne.5".to_string()});
    hm.push(Params{k: "name".to_string(), v: "goga".to_string()});

    let qs = QueryString{ query: hm };
    let result = ext_where(qs)
        .unwrap();
    assert_eq!(result.sql, "WHERE user_id!=$1 AND name=$2".to_string());
    assert_eq!(result.values, vec!["5".to_string(), "goga".to_string()])
}

#[test]
fn commands_where_by_request_with_query_invalid_operators(){
    let mut hm = Vec::new();
    hm.push(Params{k: "user_id".to_string(), v: "$nt.5".to_string()});
    hm.push(Params{k: "name".to_string(), v: "goga".to_string()});

    let qs = QueryString{ query: hm };
    match ext_where(qs) {
        Err(e) => assert_eq!(e, "operator $nt not found"),
        Ok(_) => println!("no result")
    }
}

#[test]
fn commands_select_by_request_one_column() {
    let mut hm = Vec::new();
    hm.push(Params{k: "_select".to_string(), v: "name".to_string()});

    let qs = QueryString{ query: hm };
    let result = ext_select(qs)
        .unwrap();
    assert_eq!(result.sql, "SELECT name FROM");
}

#[test]
fn commands_select_by_request_n_column() {
    let mut hm = Vec::new();
    hm.push(Params{k: "_select".to_string(), v: "name,age".to_string()});

    let qs = QueryString{ query: hm };
    let result = ext_select(qs)
        .unwrap();
    assert_eq!(result.sql, "SELECT name,age FROM");
}

#[test]
fn commands_select_by_request_n_empty_value() {
    let mut hm = Vec::new();
    hm.push(Params{k: "_select".to_string(), v: "".to_string()});

    let qs = QueryString{ query: hm };
    let result = ext_select(qs)
        .unwrap();
    assert_eq!(result.sql, "SELECT * FROM");
}

#[test]
fn commands_count_by_request() {
    let mut hm = Vec::new();
    hm.push(Params{k: "_count".to_string(), v: "name".to_string()});

    let qs = QueryString{ query: hm };
    let result = ext_count(qs)
        .unwrap();
    assert_eq!(result.sql, "SELECT COUNT(name) FROM");
}

#[test]
fn commands_count_by_request_all_fields() {
    let mut hm = Vec::new();
    hm.push(Params{k: "_count".to_string(), v: "*".to_string()});

    let qs = QueryString{ query: hm };
    let result = ext_count(qs)
        .unwrap();
    assert_eq!(result.sql, "SELECT COUNT(*) FROM");
}

#[test]
fn commands_count_by_request_two_fields() {
    let mut hm = Vec::new();
    hm.push(Params{k: "_count".to_string(), v: "name,age".to_string()});

    let qs = QueryString{ query: hm };
    match ext_count(qs) {
        Err(e) => assert_eq!(e, "could not use more than one column in count function"),
        Ok(_) => println!("no result")
    }
}

#[test]
fn commands_count_by_request_empty_value() {
    let mut hm = Vec::new();
    hm.push(Params{k: "_count".to_string(), v: "".to_string()});

    let qs = QueryString{ query: hm };
    let result = ext_count(qs)
        .unwrap();
    assert_eq!(result.sql, "")
}

#[test]
fn commands_order_by_request() {
    let mut hm = Vec::new();
    hm.push(Params{k: "_order".to_string(), v: "name".to_string()});

    let qs = QueryString{ query: hm };
    let result = ext_order(qs)
        .unwrap();
    assert_eq!(result.sql, "ORDER BY name")
}

#[test]
fn commands_order_by_request_desc() {
    let mut hm = Vec::new();
    hm.push(Params{k: "_order".to_string(), v: "-name".to_string()});

    let qs = QueryString{ query: hm };
    let result = ext_order(qs)
        .unwrap();
    assert_eq!(result.sql, "ORDER BY name DESC")
}

#[test]
fn commands_order_by_request_empty_params() {
    let mut hm = Vec::new();
    hm.push(Params{k: "_order".to_string(), v: "".to_string()});

    let qs = QueryString{ query: hm };
    let result = ext_order(qs)
        .unwrap();
    assert_eq!(result.sql, "")
}

#[test]
fn commands_order_by_request_multiples_columns() {
    let mut hm = Vec::new();
    hm.push(Params{k: "_order".to_string(), v: "name,age".to_string()});

    let qs = QueryString{ query: hm };
    let result = ext_order(qs)
        .unwrap();
    assert_eq!(result.sql, "ORDER BY name,age")
}

#[test]
fn commands_order_by_request_multiples_columns_with_orders() {
    let mut hm = Vec::new();
    hm.push(Params{k: "_order".to_string(), v: "name,-age".to_string()});

    let qs = QueryString{ query: hm };
    let result = ext_order(qs)
        .unwrap();
    assert_eq!(result.sql, "ORDER BY name,age DESC")
}

#[test]
fn commands_groupby_by_request() {
    let mut hm = Vec::new();
    hm.push(Params{k: "_groupby".to_string(), v: "name".to_string()});

    let qs = QueryString{ query: hm };
    let result = ext_groupby(qs)
        .unwrap();
    assert_eq!(result.sql, "GROUP BY name")
}

#[test]
fn commands_groupby_by_request_empty_param() {
    let mut hm = Vec::new();
    hm.push(Params{k: String::from("_groupby"), v: String::from("")});

    let qs = QueryString{ query: hm };
    let result = ext_groupby(qs)
        .unwrap();
    assert_eq!(result.sql, "")
}
