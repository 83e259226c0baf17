use goga::api::tables::{
    normalize_values, parse_u32_of, select_query, select_table_query, table_query, SqlValue,
};
use goga::postgresql::commands::{Params, QueryString};
use goga::api::{cell_string, json_agg_query, norm_rows, Cell};
use goga::postgresql::statements::{databases, schema_tables, schemas, tables};
use goga::server::app::GogaApp;
use goga::text::{decimal_string, join_strings, signed_decimal_string, split_str};

#[test]
fn listing_statements() {
    assert_eq!(
        databases(),
        "SELECT datname FROM pg_database WHERE NOT datistemplate ORDER BY datname ASC"
    );
    assert_eq!(
        schemas(),
        "SELECT schema_name FROM information_schema.schemata ORDER BY schema_name ASC"
    );
    let t = tables();
    assert!(t.starts_with("SELECT n.nspname as \"schema\", c.relname as \"name\", CASE c.relkind"));
    assert!(t.ends_with("has_schema_privilege(n.nspname, 'USAGE')  ORDER BY 1, 2"));
    let st = schema_tables();
    assert!(st.contains("WHERE sc.catalog_name = $1 AND t.schemaname = $2 ORDER BY t.tablename ASC"));
}

#[test]
fn table_statements() {
    assert_eq!(select_table_query("db", "public", "users"), "SELECT * FROM db.public.users");
    assert_eq!(
        json_agg_query("SELECT 1"),
        "SELECT json_agg(s) FROM (SELECT 1) s"
    );
    assert_eq!(
        select_query("SELECT name FROM", "db", "public", "users", "WHERE id=$1", "ORDER BY name"),
        "SELECT name FROM db.public.users WHERE id=$1 ORDER BY name"
    );
}

#[test]
fn values_that_read_as_numbers_are_integers() {
    let values = vec![
        "5".to_string(),
        "+7".to_string(),
        "007".to_string(),
        "goga".to_string(),
        "-1".to_string(),
        "".to_string(),
        "+".to_string(),
        "2147483647".to_string(),
        "4294967296".to_string(),
        "1.5".to_string(),
    ];
    let bound = normalize_values(values);
    assert_eq!(
        bound,
        vec![
            SqlValue::Int4(5),
            SqlValue::Int4(7),
            SqlValue::Int4(7),
            SqlValue::Text("goga".to_string()),
            SqlValue::Text("-1".to_string()),
            SqlValue::Text("".to_string()),
            SqlValue::Text("+".to_string()),
            SqlValue::Int4(2147483647),
            SqlValue::Text("4294967296".to_string()),
            SqlValue::Text("1.5".to_string()),
        ]
    );
}

#[test]
fn parse_u32_matches_std() {
    for s in ["0", "+0", "42", "4294967295", "4294967296", "99999999999999999999", "+", "", "-3", "1a", "٣"] {
        assert_eq!(parse_u32_of(s), s.parse::<u32>().ok(), "on {:?}", s);
    }
}

#[test]
fn rows_give_one_map_per_column() {
    let columns = vec!["id".to_string(), "name".to_string(), "total".to_string()];
    let rows = vec![
        vec![Cell::Int4(1), Cell::Text("goga".to_string()), Cell::Int8(-9000000000)],
        vec![Cell::Int4(-2), Cell::Text("".to_string()), Cell::Int8(0)],
    ];
    let maps = norm_rows(&columns, &rows);
    assert_eq!(maps.len(), 6);
    assert_eq!(maps[0], vec![("id".to_string(), "1".to_string())]);
    assert_eq!(
        maps[2],
        vec![
            ("id".to_string(), "1".to_string()),
            ("name".to_string(), "goga".to_string()),
            ("total".to_string(), "-9000000000".to_string()),
        ]
    );
    assert_eq!(maps[3], vec![("id".to_string(), "-2".to_string())]);
    assert_eq!(maps[5][2], ("total".to_string(), "0".to_string()));
}

#[test]
fn rows_later_column_of_same_name_wins() {
    let columns = vec!["x".to_string(), "x".to_string()];
    let rows = vec![vec![Cell::Int4(1), Cell::Int4(2)]];
    let maps = norm_rows(&columns, &rows);
    assert_eq!(maps, vec![
        vec![("x".to_string(), "1".to_string())],
        vec![("x".to_string(), "2".to_string())],
    ]);
}

#[test]
fn cells_as_text() {
    assert_eq!(cell_string(&Cell::Int4(i32::MIN)), i32::MIN.to_string());
    assert_eq!(cell_string(&Cell::Int8(i64::MIN)), i64::MIN.to_string());
    assert_eq!(cell_string(&Cell::Int8(i64::MAX)), i64::MAX.to_string());
    assert_eq!(cell_string(&Cell::Text("t".to_string())), "t");
}

#[test]
fn numerals() {
    assert_eq!(decimal_string(0), "0");
    assert_eq!(decimal_string(1234567890), "1234567890");
    assert_eq!(decimal_string(u64::MAX), u64::MAX.to_string());
    assert_eq!(signed_decimal_string(-10), "-10");
}

#[test]
fn split_and_join_round_trip() {
    for s in ["", "a", "a,b", ",a,,b,", ",,"] {
        let pieces = split_str(s, ',');
        let expected: Vec<String> = s.split(',').map(|p| p.to_string()).collect();
        assert_eq!(pieces, expected);
        assert_eq!(join_strings(&pieces, ","), s);
    }
}

#[test]
fn greeting_page() {
    assert_eq!(GogaApp::greeting("world"), "hello, world!");
}

#[test]
fn table_query_assembles_the_request() {
    let qs = QueryString {
        query: vec![
            Params { k: "_select".to_string(), v: "name,age".to_string() },
            Params { k: "age".to_string(), v: "$gt.30".to_string() },
            Params { k: "name".to_string(), v: "goga".to_string() },
            Params { k: "_order".to_string(), v: "-age".to_string() },
        ],
    };
    let (query, bound) = table_query(&qs, "db", "public", "users");
    assert_eq!(
        query,
        "SELECT json_agg(s) FROM (SELECT name,age FROM db.public.users WHERE age>$1 AND name=$2 ORDER BY age DESC) s"
    );
    assert_eq!(bound, vec![SqlValue::Int4(30), SqlValue::Text("goga".to_string())]);
}
