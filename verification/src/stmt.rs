//! DDL synthesis: renders tables, columns and manipulations into
//! dialect-correct statement text, and spells the catalog queries the
//! introspector issues. The statement text these functions return is the
//! only externally observable artifact of the engine.
use crate::column::ColumnModel;
use crate::column::SQLColumn;
use crate::column::SQLType;
use crate::dialect::SQLDialect;
use crate::encode::ToSQLString;
use crate::model::FieldModel;
use crate::model::Model;
use crate::model::column_of_field;
use crate::model::field_column;
use vstd::prelude::*;

verus! {

/// `name` wrapped in the dialect's identifier-escape characters.
pub open spec fn ident_chars(dialect: SQLDialect, name: Seq<char>) -> Seq<char> {
    dialect.escape_seq() + name + dialect.escape_seq()
}

/// Escapes an identifier for the dialect.
pub fn quote_ident(dialect: SQLDialect, name: &str) -> (r: String)
    ensures
        r@ == ident_chars(dialect, name@),
{
    let mut out = String::from_str(dialect.escape());
    out.append(name);
    out.append(dialect.escape());
    out
}

/// The type text of a column definition: PostgreSQL spells an
/// auto-incremented integer `SERIAL`, every other case is the dialect's
/// name for the scalar type.
pub open spec fn def_type_chars(dialect: SQLDialect, c: ColumnModel) -> Seq<char> {
    if dialect is PostgreSQL && c.auto_increment && c.column_type is Int {
        "SERIAL"@
    } else {
        c.column_type.type_name_seq(dialect)
    }
}

/// The auto-increment keyword a column definition carries, where the
/// dialect wants one: MySQL writes ` AUTO_INCREMENT`, SQLite
/// ` AUTOINCREMENT`, and PostgreSQL nothing (the `SERIAL` type covers it).
pub open spec fn auto_increment_chars(dialect: SQLDialect, c: ColumnModel) -> Seq<char> {
    if !c.auto_increment {
        Seq::empty()
    } else {
        match dialect {
            SQLDialect::MySQL => " AUTO_INCREMENT"@,
            SQLDialect::SQLite => " AUTOINCREMENT"@,
            SQLDialect::PostgreSQL => Seq::empty(),
        }
    }
}

/// One column definition: the escaped name, the type, then the primary
/// key, auto-increment, not-null and unique marks, and an inline `DEFAULT`
/// clause when the column carries a default literal.
pub open spec fn column_def_chars(dialect: SQLDialect, c: ColumnModel) -> Seq<char> {
    ident_chars(dialect, c.name) + " "@ + def_type_chars(dialect, c) + (if c.primary_key {
        " PRIMARY KEY"@
    } else {
        Seq::empty()
    }) + auto_increment_chars(dialect, c) + (if c.not_null {
        " NOT NULL"@
    } else {
        Seq::empty()
    }) + (if c.unique_key {
        " UNIQUE"@
    } else {
        Seq::empty()
    }) + (match c.default {
        Some(text) => " DEFAULT "@ + text,
        None => Seq::empty(),
    })
}

/// Renders one column definition for the dialect.
pub fn column_def(dialect: SQLDialect, column: &SQLColumn) -> (r: String)
    ensures
        r@ == column_def_chars(dialect, column@),
{
    let mut out = quote_ident(dialect, column.name.as_str());
    out.append(" ");
    let serial = matches!(dialect, SQLDialect::PostgreSQL) && column.auto_increment && matches!(
        column.column_type,
        SQLType::Int,
    );
    if serial {
        out.append("SERIAL");
    } else {
        let spelled_type = column.column_type.to_string(dialect);
        out.append(spelled_type.as_str());
    }
    if column.primary_key {
        out.append(" PRIMARY KEY");
    }
    if column.auto_increment {
        match dialect {
            SQLDialect::MySQL => out.append(" AUTO_INCREMENT"),
            SQLDialect::SQLite => out.append(" AUTOINCREMENT"),
            SQLDialect::PostgreSQL => {},
        }
    }
    if column.not_null {
        out.append(" NOT NULL");
    }
    if column.unique_key {
        out.append(" UNIQUE");
    }
    match &column.default {
        Some(text) => {
            out.append(" DEFAULT ");
            out.append(text.as_str());
        },
        None => {},
    }
    out
}

/// The comma-joined column definitions of the model's fields.
pub open spec fn joined_defs(dialect: SQLDialect, fields: Seq<FieldModel>) -> Seq<char>
    decreases fields.len(),
{
    if fields.len() == 0 {
        Seq::empty()
    } else if fields.len() == 1 {
        column_def_chars(dialect, field_column(fields[0]))
    } else {
        column_def_chars(dialect, field_column(fields[0])) + ", "@ + joined_defs(
            dialect,
            fields.drop_first(),
        )
    }
}

proof fn lemma_joined_defs_push(dialect: SQLDialect, fields: Seq<FieldModel>, f: FieldModel)
    ensures
        joined_defs(dialect, fields.push(f)) == if fields.len() == 0 {
            column_def_chars(dialect, field_column(f))
        } else {
            joined_defs(dialect, fields) + ", "@ + column_def_chars(dialect, field_column(f))
        },
    decreases fields.len(),
{
    if fields.len() == 0 {
        assert(fields.push(f) =~= seq![f]);
        assert(fields.push(f)[0] == f);
    } else {
        assert(fields.push(f)[0] == fields[0]);
        assert(fields.push(f).drop_first() =~= fields.drop_first().push(f));
        lemma_joined_defs_push(dialect, fields.drop_first(), f);
        if fields.len() == 1 {
            assert(fields.push(f).len() == 2);
        }
    }
}

/// The `CREATE TABLE` statement for a model: one statement synthesizing
/// every declared column with its constraints.
pub open spec fn create_table_chars(dialect: SQLDialect, m: crate::model::ModelContent) -> Seq<
    char,
> {
    "CREATE TABLE "@ + ident_chars(dialect, m.table_name) + " ("@ + joined_defs(dialect, m.fields)
        + ")"@
}

/// Renders the `CREATE TABLE` statement for a model.
#[verifier::loop_isolation(false)]
pub fn create_table_statement(dialect: SQLDialect, model: &Model) -> (r: String)
    ensures
        r@ == create_table_chars(dialect, model@),
{
    let mut out = String::from_str("CREATE TABLE ");
    let ident = quote_ident(dialect, model.table_name.as_str());
    out.append(ident.as_str());
    out.append(" (");
    let mut i: usize = 0;
    let mut body = String::new();
    while i < model.fields.len()
        invariant
            0 <= i <= model.fields@.len(),
            body@ == joined_defs(dialect, model@.fields.subrange(0, i as int)),
        decreases model.fields@.len() - i,
    {
        let column = column_of_field(&model.fields[i]);
        let def = column_def(dialect, &column);
        if i > 0 {
            body.append(", ");
        }
        body.append(def.as_str());
        proof {
            let prefix = model@.fields.subrange(0, i as int);
            assert(model@.fields.subrange(0, i + 1) =~= prefix.push(model@.fields[i as int]));
            lemma_joined_defs_push(dialect, prefix, model@.fields[i as int]);
            assert(prefix.len() == i);
            assert(body@ =~= joined_defs(dialect, model@.fields.subrange(0, i + 1)));
        }
        i += 1;
    }
    proof {
        assert(model@.fields.subrange(0, model@.fields.len() as int) =~= model@.fields);
    }
    out.append(body.as_str());
    out.append(")");
    out
}

/// The `ALTER TABLE .. ADD COLUMN ..` statement for one column.
pub open spec fn add_column_chars(
    dialect: SQLDialect,
    table: Seq<char>,
    c: ColumnModel,
) -> Seq<char> {
    "ALTER TABLE "@ + ident_chars(dialect, table) + " ADD COLUMN "@ + column_def_chars(dialect, c)
}

/// Renders the statement that adds one column, its inline `DEFAULT` clause
/// included when the column carries one.
pub fn add_column_statement(dialect: SQLDialect, table: &str, column: &SQLColumn) -> (r: String)
    ensures
        r@ == add_column_chars(dialect, table@, column@),
{
    let mut out = String::from_str("ALTER TABLE ");
    let ident = quote_ident(dialect, table);
    out.append(ident.as_str());
    out.append(" ADD COLUMN ");
    let def = column_def(dialect, column);
    out.append(def.as_str());
    out
}

/// The `ALTER TABLE .. MODIFY ..` statement for one column, for dialects
/// with native column-modify syntax.
pub open spec fn modify_column_chars(
    dialect: SQLDialect,
    table: Seq<char>,
    c: ColumnModel,
) -> Seq<char> {
    "ALTER TABLE "@ + ident_chars(dialect, table) + " MODIFY "@ + column_def_chars(dialect, c)
}

/// Renders the single-statement column modification used by dialects with
/// native modify syntax.
pub fn modify_column_statement(dialect: SQLDialect, table: &str, column: &SQLColumn) -> (r:
    String)
    ensures
        r@ == modify_column_chars(dialect, table@, column@),
{
    let mut out = String::from_str("ALTER TABLE ");
    let ident = quote_ident(dialect, table);
    out.append(ident.as_str());
    out.append(" MODIFY ");
    let def = column_def(dialect, column);
    out.append(def.as_str());
    out
}

/// The `ALTER TABLE .. DROP COLUMN ..` statement.
pub open spec fn drop_column_chars(
    dialect: SQLDialect,
    table: Seq<char>,
    column: Seq<char>,
) -> Seq<char> {
    "ALTER TABLE "@ + ident_chars(dialect, table) + " DROP COLUMN "@ + ident_chars(dialect, column)
}

/// Renders the statement that drops one column.
pub fn drop_column_statement(dialect: SQLDialect, table: &str, column: &str) -> (r: String)
    ensures
        r@ == drop_column_chars(dialect, table@, column@),
{
    let mut out = String::from_str("ALTER TABLE ");
    let table_ident = quote_ident(dialect, table);
    out.append(table_ident.as_str());
    out.append(" DROP COLUMN ");
    let column_ident = quote_ident(dialect, column);
    out.append(column_ident.as_str());
    out
}

/// The `ALTER TABLE .. RENAME COLUMN .. TO ..` statement, with the
/// dialect's quoting convention.
pub open spec fn rename_column_chars(
    dialect: SQLDialect,
    table: Seq<char>,
    from_name: Seq<char>,
    to_name: Seq<char>,
) -> Seq<char> {
    "ALTER TABLE "@ + ident_chars(dialect, table) + " RENAME COLUMN "@ + ident_chars(
        dialect,
        from_name,
    ) + " TO "@ + ident_chars(dialect, to_name)
}

/// Renders the statement that renames one column.
pub fn rename_column_statement(dialect: SQLDialect, table: &str, from_name: &str, to_name: &str) -> (r:
    String)
    ensures
        r@ == rename_column_chars(dialect, table@, from_name@, to_name@),
{
    let mut out = String::from_str("ALTER TABLE ");
    let table_ident = quote_ident(dialect, table);
    out.append(table_ident.as_str());
    out.append(" RENAME COLUMN ");
    let from_ident = quote_ident(dialect, from_name);
    out.append(from_ident.as_str());
    out.append(" TO ");
    let to_ident = quote_ident(dialect, to_name);
    out.append(to_ident.as_str());
    out
}

/// The `ALTER TABLE .. RENAME TO ..` statement for a table.
pub open spec fn rename_table_chars(
    dialect: SQLDialect,
    from_name: Seq<char>,
    to_name: Seq<char>,
) -> Seq<char> {
    "ALTER TABLE "@ + ident_chars(dialect, from_name) + " RENAME TO "@ + ident_chars(
        dialect,
        to_name,
    )
}

/// Renders the statement that renames a table in place.
pub fn rename_table_statement(dialect: SQLDialect, from_name: &str, to_name: &str) -> (r: String)
    ensures
        r@ == rename_table_chars(dialect, from_name@, to_name@),
{
    let mut out = String::from_str("ALTER TABLE ");
    let from_ident = quote_ident(dialect, from_name);
    out.append(from_ident.as_str());
    out.append(" RENAME TO ");
    let to_ident = quote_ident(dialect, to_name);
    out.append(to_ident.as_str());
    out
}

/// The `DROP TABLE` statement.
pub open spec fn drop_table_chars(dialect: SQLDialect, table: Seq<char>) -> Seq<char> {
    "DROP TABLE "@ + ident_chars(dialect, table)
}

/// Renders the statement that drops a table.
pub fn drop_table_statement(dialect: SQLDialect, table: &str) -> (r: String)
    ensures
        r@ == drop_table_chars(dialect, table@),
{
    let mut out = String::from_str("DROP TABLE ");
    let ident = quote_ident(dialect, table);
    out.append(ident.as_str());
    out
}

/// The one-row probe that tells whether a table holds any records.
pub open spec fn has_records_query_chars(dialect: SQLDialect, table: Seq<char>) -> Seq<char> {
    "select * from "@ + ident_chars(dialect, table) + " limit 1"@
}

/// Renders the query that probes a table for records: it returns a row
/// exactly when the table holds at least one.
pub fn has_records_query(dialect: SQLDialect, table: &str) -> (r: String)
    ensures
        r@ == has_records_query_chars(dialect, table@),
{
    let mut out = String::from_str("select * from ");
    let ident = quote_ident(dialect, table);
    out.append(ident.as_str());
    out.append(" limit 1");
    out
}

/// The catalog query that lists the user tables of a database, one name a
/// row.
pub open spec fn list_tables_query_chars(dialect: SQLDialect) -> Seq<char> {
    match dialect {
        SQLDialect::MySQL => "SHOW TABLES"@,
        SQLDialect::PostgreSQL => "SELECT tablename FROM pg_catalog.pg_tables WHERE schemaname != 'pg_catalog' AND schemaname != 'information_schema'"@,
        SQLDialect::SQLite => "SELECT name FROM sqlite_master WHERE type in ('table') AND name not like 'sqlite?_%' escape '?'"@,
    }
}

/// Renders the dialect's catalog query for user tables.
pub fn list_tables_query(dialect: SQLDialect) -> (r: &'static str)
    ensures
        r@ == list_tables_query_chars(dialect),
{
    match dialect {
        SQLDialect::MySQL => "SHOW TABLES",
        SQLDialect::PostgreSQL => "SELECT tablename FROM pg_catalog.pg_tables WHERE schemaname != 'pg_catalog' AND schemaname != 'information_schema'",
        SQLDialect::SQLite => "SELECT name FROM sqlite_master WHERE type in ('table') AND name not like 'sqlite?_%' escape '?'",
    }
}

/// The per-table column description query: an `information_schema` query
/// for PostgreSQL, `DESCRIBE` for MySQL, and the column-info pragma for
/// SQLite.
pub open spec fn describe_table_query_chars(dialect: SQLDialect, table: Seq<char>) -> Seq<char> {
    match dialect {
        SQLDialect::PostgreSQL => "SELECT * FROM information_schema.columns where table_name = '"@
            + table + "'"@,
        SQLDialect::MySQL => "DESCRIBE "@ + ident_chars(dialect, table),
        SQLDialect::SQLite => "pragma table_info('"@ + table + "')"@,
    }
}

/// Renders the dialect's column description query for a table.
pub fn describe_table_query(dialect: SQLDialect, table: &str) -> (r: String)
    ensures
        r@ == describe_table_query_chars(dialect, table@),
{
    match dialect {
        SQLDialect::PostgreSQL => {
            let mut out = String::from_str(
                "SELECT * FROM information_schema.columns where table_name = '",
            );
            out.append(table);
            out.append("'");
            out
        },
        SQLDialect::MySQL => {
            let mut out = String::from_str("DESCRIBE ");
            let ident = quote_ident(dialect, table);
            out.append(ident.as_str());
            out
        },
        SQLDialect::SQLite => {
            let mut out = String::from_str("pragma table_info('");
            out.append(table);
            out.append("')");
            out
        },
    }
}

/// The SQLite pragma that lists a table's indices.
pub open spec fn sqlite_list_indices_chars(table: Seq<char>) -> Seq<char> {
    "pragma index_list('"@ + table + "')"@
}

/// Renders the SQLite index-list pragma for a table.
pub fn sqlite_list_indices_query(table: &str) -> (r: String)
    ensures
        r@ == sqlite_list_indices_chars(table@),
{
    let mut out = String::from_str("pragma index_list('");
    out.append(table);
    out.append("')");
    out
}

/// The SQLite query that tells whether a table was created with
/// `AUTOINCREMENT`: it returns a row exactly when it was.
pub open spec fn sqlite_auto_increment_chars(table: Seq<char>) -> Seq<char> {
    "SELECT 1 FROM sqlite_master WHERE type = 'table' AND name = '"@ + table
        + "' AND sql LIKE '%AUTOINCREMENT%'"@
}

/// Renders the SQLite auto-increment probe for a table.
pub fn sqlite_auto_increment_query(table: &str) -> (r: String)
    ensures
        r@ == sqlite_auto_increment_chars(table@),
{
    let mut out = String::from_str("SELECT 1 FROM sqlite_master WHERE type = 'table' AND name = '");
    out.append(table);
    out.append("' AND sql LIKE '%AUTOINCREMENT%'");
    out
}

/// The `DROP DATABASE IF EXISTS` statement.
pub open spec fn drop_database_chars(dialect: SQLDialect, name: Seq<char>) -> Seq<char> {
    "DROP DATABASE IF EXISTS "@ + ident_chars(dialect, name)
}

/// Renders the statement that drops a database when it exists.
pub fn drop_database_statement(dialect: SQLDialect, name: &str) -> (r: String)
    ensures
        r@ == drop_database_chars(dialect, name@),
{
    let mut out = String::from_str("DROP DATABASE IF EXISTS ");
    let ident = quote_ident(dialect, name);
    out.append(ident.as_str());
    out
}

/// The `CREATE DATABASE` statement, with `IF NOT EXISTS` where asked.
pub open spec fn create_database_chars(
    dialect: SQLDialect,
    name: Seq<char>,
    if_not_exists: bool,
) -> Seq<char> {
    "CREATE DATABASE "@ + (if if_not_exists {
        "IF NOT EXISTS "@
    } else {
        Seq::empty()
    }) + ident_chars(dialect, name)
}

/// Renders the statement that creates a database.
pub fn create_database_statement(dialect: SQLDialect, name: &str, if_not_exists: bool) -> (r:
    String)
    ensures
        r@ == create_database_chars(dialect, name@, if_not_exists),
{
    let mut out = String::from_str("CREATE DATABASE ");
    if if_not_exists {
        out.append("IF NOT EXISTS ");
    }
    let ident = quote_ident(dialect, name);
    out.append(ident.as_str());
    out
}

/// The session command that scopes later statements to a database:
/// PostgreSQL sets the search path, the other dialects `USE` the database.
pub open spec fn use_database_chars(dialect: SQLDialect, name: Seq<char>) -> Seq<char> {
    if dialect is PostgreSQL {
        "SET search_path TO "@ + name
    } else {
        "USE "@ + ident_chars(dialect, name)
    }
}

/// Renders the command that makes later statements run against the named
/// database.
pub fn use_database_command(dialect: SQLDialect, name: &str) -> (r: String)
    ensures
        r@ == use_database_chars(dialect, name@),
{
    match dialect {
        SQLDialect::PostgreSQL => {
            let mut out = String::from_str("SET search_path TO ");
            out.append(name);
            out
        },
        _ => {
            let mut out = String::from_str("USE ");
            let ident = quote_ident(dialect, name);
            out.append(ident.as_str());
            out
        },
    }
}

/// The statement sequence that ensures a server database exists before a
/// run: a `DROP DATABASE` first when a reset was asked, then the creation
/// — guarded by `IF NOT EXISTS` where the dialect has it, and by the
/// caller's catalog probe for PostgreSQL, which lacks it — and finally the
/// command that scopes the session to the database.
pub open spec fn spec_create_server_database_statements(
    dialect: SQLDialect,
    db_name: Seq<char>,
    reset: bool,
    exists_after_drop: bool,
) -> Seq<Seq<char>> {
    (if reset {
        seq![drop_database_chars(dialect, db_name)]
    } else {
        Seq::empty()
    }) + (if dialect is PostgreSQL {
        if exists_after_drop {
            Seq::empty()
        } else {
            seq![create_database_chars(dialect, db_name, false)]
        }
    } else {
        seq![create_database_chars(dialect, db_name, true)]
    }) + seq![use_database_chars(dialect, db_name)]
}

/// Renders the statements that ensure a server database exists, in
/// execution order. `exists_after_drop` answers the PostgreSQL existence
/// probe as of after any reset drop: with `reset` it is always false, and
/// without one the caller queries the catalog; the other dialects create
/// with `IF NOT EXISTS` and ignore it.
pub fn create_server_database_statements(
    dialect: SQLDialect,
    db_name: &str,
    reset: bool,
    exists_after_drop: bool,
) -> (r: Vec<String>)
    ensures
        r@.map_values(|s: String| s@) == spec_create_server_database_statements(
            dialect,
            db_name@,
            reset,
            exists_after_drop,
        ),
{
    let mut out: Vec<String> = Vec::new();
    if reset {
        out.push(drop_database_statement(dialect, db_name));
    }
    match dialect {
        SQLDialect::PostgreSQL => {
            if !exists_after_drop {
                out.push(create_database_statement(dialect, db_name, false));
            }
        },
        _ => {
            out.push(create_database_statement(dialect, db_name, true));
        },
    }
    out.push(use_database_command(dialect, db_name));
    proof {
        assert(out@.map_values(|s: String| s@) =~= spec_create_server_database_statements(
            dialect,
            db_name@,
            reset,
            exists_after_drop,
        ));
    }
    out
}

/// The PostgreSQL catalog probe that tells whether a database exists: it
/// returns a row exactly when it does.
pub open spec fn database_exists_chars(name: Seq<char>) -> Seq<char> {
    "select from pg_database where datname = '"@ + name + "'"@
}

/// Renders the PostgreSQL probe for a database's existence.
pub fn database_exists_query(name: &str) -> (r: String)
    ensures
        r@ == database_exists_chars(name@),
{
    let mut out = String::from_str("select from pg_database where datname = '");
    out.append(name);
    out.append("'");
    out
}

} // verus!
