# goga

A RESTful interface over an existing PostgreSQL database. A request such as
`/db/public/users?_select=name,age&age=$gt.30&_order=-age` becomes the
statement `SELECT name,age FROM db.public.users WHERE age>$1 ORDER BY age DESC`
with `30` bound to `$1`: `api::tables::table_query` states and proves this
assembly for every query string.

- `src/` is the verified library (Verus): the query-string rules
  (`postgresql::commands`, and the strict variant in `postgres::commands`),
  their laws (`postgresql::laws`), the listing statements
  (`postgresql::statements`), what the endpoints compute around their
  database calls (`api`), the greeting page (`server::app`) and the string
  helpers they rest on (`text`).
- `app/` is the server around it: Rocket routes, the r2d2/PostgreSQL pool and
  the sapper greeting application.
- `tests/` runs the library on concrete requests.
