//! The statements behind the listing endpoints: databases, schemas, tables.

use vstd::prelude::*;
use crate::text::{fill_placeholder, lemma_fill_once};

verus! {

broadcast use vstd::string::group_string_axioms;

/// The column that names a database.
pub const FIELD_DATABASE_NAME: &'static str = "datname";

/// The column that names a schema.
pub const FIELD_SCHEMA_NAME: &'static str = "schema_name";

/// Databases that can be listed: templates are left out.
pub const DATABASE_WHERE: &'static str = " WHERE NOT datistemplate";

/// The head of the database listing, `{}` standing for the column.
pub const DATABASE_SELECT: &'static str = "SELECT {} FROM pg_database";

/// The order of the database listing, `{}` standing for the column.
pub const DATABASE_ORDERBY: &'static str = " ORDER BY {} ASC";

/// The head of the schema listing, `{}` standing for the column.
pub const SCHEMAS_SELECT: &'static str = "SELECT {} FROM information_schema.schemata";

/// The order of the schema listing, `{}` standing for the column.
pub const SCHEMAS_ORDERBY: &'static str = " ORDER BY {} ASC";

/// The schema, name, kind and owner of each relation.
pub const TABLES_SELECT: &'static str =
    "SELECT \
     n.nspname as \"schema\", c.relname as \"name\", \
     CASE c.relkind \
     WHEN 'r' THEN 'table' \
     WHEN 'v' THEN 'view' \
     WHEN 'm' THEN 'materialized_view' \
     WHEN 'i' THEN 'index' \
     WHEN 'S' THEN 'sequence' \
     WHEN 's' THEN 'special' \
     WHEN 'f' THEN 'foreign_table' \
     END as \"type\", \
     pg_catalog.pg_get_userbyid(c.relowner) as \"owner\" \
     FROM pg_catalog.pg_class c LEFT JOIN pg_catalog.pg_namespace n ON n.oid = c.relnamespace";

/// The relations that can be listed: no toast, no catalogs, only usable schemas.
pub const TABLES_WHERE: &'static str =
    " WHERE \
                                    c.relkind IN ('r','v','m','S','s','') AND \
                                    n.nspname !~ '^pg_toast' AND \
                                    n.nspname NOT IN ('information_schema', 'pg_catalog') AND \
                                    has_schema_privilege(n.nspname, 'USAGE')";

/// Relations are listed by schema, then name.
pub const TABLES_ORDERBY: &'static str =
    " ORDER BY 1, 2";

/// The name, schema and database of each table.
pub const SCHEMA_TABLES_SELECT: &'static str =
    "SELECT
          t.tablename as \"name\",
          t.schemaname as \"schema\",
          sc.catalog_name as \"database\"
          FROM pg_catalog.pg_tables t
          INNER JOIN information_schema.schemata sc ON sc.schema_name = t.schemaname";

/// The tables of one database (`$1`) and schema (`$2`).
pub const SCHEMA_TABLES_WHERE: &'static str =
    "WHERE sc.catalog_name = $1 AND t.schemaname = $2";

/// Tables are listed by name.
pub const SCHEMA_TABLES_ORDERBY: &'static str =
    "ORDER BY t.tablename ASC";

/// The statement that lists the databases by name.
pub fn databases() -> (res: String)
    ensures
        res@ == "SELECT datname FROM pg_database WHERE NOT datistemplate ORDER BY datname ASC"@,
{
    let mut res = fill_placeholder(DATABASE_SELECT, FIELD_DATABASE_NAME);
    res.append(DATABASE_WHERE);
    let order = fill_placeholder(DATABASE_ORDERBY, FIELD_DATABASE_NAME);
    res.append(order.as_str());
    proof {
        reveal_strlit("SELECT {} FROM pg_database");
        reveal_strlit(" ORDER BY {} ASC");
        reveal_strlit("datname");
        reveal_strlit(" WHERE NOT datistemplate");
        reveal_strlit("SELECT datname FROM pg_database WHERE NOT datistemplate ORDER BY datname ASC");
        let head = seq!['S', 'E', 'L', 'E', 'C', 'T', ' '];
        let from = " FROM pg_database"@;
        reveal_strlit(" FROM pg_database");
        assert(DATABASE_SELECT@ =~= head + seq!['{', '}'] + from);
        lemma_fill_once(head, from, FIELD_DATABASE_NAME@);
        let by = " ORDER BY "@;
        let asc = " ASC"@;
        reveal_strlit(" ORDER BY ");
        reveal_strlit(" ASC");
        assert(DATABASE_ORDERBY@ =~= by + seq!['{', '}'] + asc);
        lemma_fill_once(by, asc, FIELD_DATABASE_NAME@);
        assert(res@ =~= "SELECT datname FROM pg_database WHERE NOT datistemplate ORDER BY datname ASC"@);
    }
    res
}

/// The statement that lists the schemas by name.
pub fn schemas() -> (res: String)
    ensures
        res@ == "SELECT schema_name FROM information_schema.schemata ORDER BY schema_name ASC"@,
{
    let mut res = fill_placeholder(SCHEMAS_SELECT, FIELD_SCHEMA_NAME);
    let order = fill_placeholder(SCHEMAS_ORDERBY, FIELD_SCHEMA_NAME);
    res.append(order.as_str());
    proof {
        reveal_strlit("SELECT {} FROM information_schema.schemata");
        reveal_strlit(" ORDER BY {} ASC");
        reveal_strlit("schema_name");
        reveal_strlit("SELECT schema_name FROM information_schema.schemata ORDER BY schema_name ASC");
        let head = seq!['S', 'E', 'L', 'E', 'C', 'T', ' '];
        let from = " FROM information_schema.schemata"@;
        reveal_strlit(" FROM information_schema.schemata");
        assert(SCHEMAS_SELECT@ =~= head + seq!['{', '}'] + from);
        lemma_fill_once(head, from, FIELD_SCHEMA_NAME@);
        let by = " ORDER BY "@;
        let asc = " ASC"@;
        reveal_strlit(" ORDER BY ");
        reveal_strlit(" ASC");
        assert(SCHEMAS_ORDERBY@ =~= by + seq!['{', '}'] + asc);
        lemma_fill_once(by, asc, FIELD_SCHEMA_NAME@);
        assert(res@ =~= "SELECT schema_name FROM information_schema.schemata ORDER BY schema_name ASC"@);
    }
    res
}

/// The statement that lists the relations of every usable schema.
pub fn tables() -> (res: String)
    ensures
        res@ == TABLES_SELECT@ + " "@ + TABLES_WHERE@ + " "@ + TABLES_ORDERBY@,
{
    let mut res = String::from_str(TABLES_SELECT);
    res.append(" ");
    res.append(TABLES_WHERE);
    res.append(" ");
    res.append(TABLES_ORDERBY);
    res
}

/// The statement that lists the tables of one database and schema, given as
/// the parameters `$1` and `$2`.
pub fn schema_tables() -> (res: String)
    ensures
        res@ == SCHEMA_TABLES_SELECT@ + " "@ + SCHEMA_TABLES_WHERE@ + " "@ + SCHEMA_TABLES_ORDERBY@,
{
    let mut res = String::from_str(SCHEMA_TABLES_SELECT);
    res.append(" ");
    res.append(SCHEMA_TABLES_WHERE);
    res.append(" ");
    res.append(SCHEMA_TABLES_ORDERBY);
    res
}

} // verus!
