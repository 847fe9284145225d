use teo::column::SQLColumn;
use teo::column::SQLType;
use teo::dialect::SQLDialect;
use teo::migrate::LiveTable;
use teo::migrate::MigrationStep;
use teo::migrate::SQLMigration;
use teo::model::Field;
use teo::model::Model;
use teo::model::ModelMigration;
use teo::model::column_of_field;
use teo::stmt::create_server_database_statements;
use teo::stmt::create_table_statement;
use teo::stmt::describe_table_query;
use teo::stmt::drop_database_statement;
use teo::stmt::create_database_statement;
use teo::stmt::database_exists_query;
use teo::stmt::drop_table_statement;
use teo::stmt::has_records_query;
use teo::stmt::list_tables_query;
use teo::stmt::rename_table_statement;
use teo::stmt::sqlite_auto_increment_query;
use teo::stmt::sqlite_list_indices_query;
use teo::stmt::use_database_command;
use teo::value::Value;

fn field(name: &str, ty: SQLType, required: bool) -> Field {
    Field {
        column_name: String::from(name),
        database_type: ty,
        required,
        auto_increment: false,
        primary: false,
        unique: false,
        default: None,
        add_action: None,
    }
}

fn users_model() -> Model {
    let mut id = field("id", SQLType::Int, true);
    id.auto_increment = true;
    id.primary = true;
    Model {
        name: String::from("User"),
        table_name: String::from("users"),
        is_virtual: false,
        migration: None,
        fields: vec![id, field("name", SQLType::Text, true)],
    }
}

fn live_table(name: &str, columns: Vec<SQLColumn>, has_records: bool) -> LiveTable {
    LiveTable { name: String::from(name), columns, has_records }
}

fn exec_texts(steps: &[MigrationStep]) -> Vec<String> {
    steps
        .iter()
        .map(|s| match s {
            MigrationStep::Execute(text) => text.clone(),
            MigrationStep::PostAction(a) => format!("action:{}", a),
        })
        .collect()
}

#[test]
fn empty_database_gets_one_create_table_statement() {
    let models = vec![users_model()];
    let steps = SQLMigration::migrate(SQLDialect::MySQL, &models, vec![], false).unwrap();
    assert_eq!(
        exec_texts(&steps),
        vec![
            "CREATE TABLE `users` (`id` INT PRIMARY KEY AUTO_INCREMENT NOT NULL, `name` TEXT NOT NULL)",
        ],
    );
}

#[test]
fn postgres_spells_an_auto_incremented_integer_serial() {
    let models = vec![users_model()];
    let steps = SQLMigration::migrate(SQLDialect::PostgreSQL, &models, vec![], false).unwrap();
    assert_eq!(
        exec_texts(&steps),
        vec![
            "CREATE TABLE \"users\" (\"id\" SERIAL PRIMARY KEY NOT NULL, \"name\" TEXT NOT NULL)",
        ],
    );
}

#[test]
fn converged_schema_plans_nothing() {
    let models = vec![users_model()];
    let live = vec![live_table(
        "users",
        vec![column_of_field(&models[0].fields[0]), column_of_field(&models[0].fields[1])],
        true,
    )];
    let steps = SQLMigration::migrate(SQLDialect::MySQL, &models, live, false).unwrap();
    assert_eq!(steps.len(), 0);
}

#[test]
fn convergence_is_idempotent_over_two_runs() {
    // first run creates the table; feeding the created shape back in as
    // the live snapshot makes the second run plan nothing
    let models = vec![users_model()];
    let first = SQLMigration::migrate(SQLDialect::MySQL, &models, vec![], false).unwrap();
    assert_eq!(first.len(), 1);
    let live = vec![live_table(
        "users",
        vec![column_of_field(&models[0].fields[0]), column_of_field(&models[0].fields[1])],
        false,
    )];
    let second = SQLMigration::migrate(SQLDialect::MySQL, &models, live, false).unwrap();
    assert_eq!(second.len(), 0);
}

#[test]
fn rename_history_renames_instead_of_create_and_drop() {
    let mut model = users_model();
    model.migration = Some(ModelMigration {
        renamed: vec![String::from("old_users")],
        dropped_actions: vec![],
    });
    let live = vec![live_table(
        "old_users",
        vec![column_of_field(&model.fields[0]), column_of_field(&model.fields[1])],
        true,
    )];
    let steps = SQLMigration::migrate(SQLDialect::MySQL, &vec![model], live, false).unwrap();
    assert_eq!(exec_texts(&steps), vec!["ALTER TABLE `old_users` RENAME TO `users`"]);
}

#[test]
fn first_matching_rename_history_entry_wins() {
    let mut model = users_model();
    model.migration = Some(ModelMigration {
        renamed: vec![String::from("ghost"), String::from("old_users"), String::from("older")],
        dropped_actions: vec![],
    });
    let live = vec![
        live_table(
            "older",
            vec![column_of_field(&model.fields[0]), column_of_field(&model.fields[1])],
            false,
        ),
        live_table(
            "old_users",
            vec![column_of_field(&model.fields[0]), column_of_field(&model.fields[1])],
            false,
        ),
    ];
    let steps = SQLMigration::migrate(SQLDialect::MySQL, &vec![model], live, false).unwrap();
    // the older name is renamed; the other historic table is cleaned up
    assert_eq!(
        exec_texts(&steps),
        vec!["ALTER TABLE `old_users` RENAME TO `users`", "DROP TABLE `older`"],
    );
}

#[test]
fn safe_add_gate_aborts_before_any_statement() {
    let live = vec![live_table(
        "accounts",
        vec![SQLColumn::new(String::from("id"), SQLType::Int, true, false, None, true, false)],
        true,
    )];
    let model = Model {
        name: String::from("Account"),
        table_name: String::from("accounts"),
        is_virtual: false,
        migration: None,
        fields: vec![
            {
                let mut id = field("id", SQLType::Int, true);
                id.primary = true;
                id
            },
            field("status", SQLType::Text, true),
        ],
    };
    let r = SQLMigration::migrate(SQLDialect::MySQL, &vec![model], live, false);
    let e = r.unwrap_err();
    assert_eq!(
        e.message(),
        "Cannot add new non null column `status', table `accounts' has records. Consider add a default value or drop the table.",
    );
}

#[test]
fn safe_add_gate_passes_when_the_table_is_empty() {
    let live = vec![live_table(
        "accounts",
        vec![SQLColumn::new(String::from("id"), SQLType::Int, true, false, None, true, false)],
        false,
    )];
    let model = Model {
        name: String::from("Account"),
        table_name: String::from("accounts"),
        is_virtual: false,
        migration: None,
        fields: vec![
            {
                let mut id = field("id", SQLType::Int, true);
                id.primary = true;
                id
            },
            field("status", SQLType::Text, true),
        ],
    };
    let steps = SQLMigration::migrate(SQLDialect::MySQL, &vec![model], live, false).unwrap();
    assert_eq!(exec_texts(&steps), vec!["ALTER TABLE `accounts` ADD COLUMN `status` TEXT NOT NULL"]);
}

#[test]
fn authorized_reset_recreates_instead_of_aborting() {
    let live = vec![live_table(
        "accounts",
        vec![SQLColumn::new(String::from("id"), SQLType::Int, true, false, None, true, false)],
        true,
    )];
    let model = Model {
        name: String::from("Account"),
        table_name: String::from("accounts"),
        is_virtual: false,
        migration: None,
        fields: vec![
            {
                let mut id = field("id", SQLType::Int, true);
                id.primary = true;
                id
            },
            field("status", SQLType::Text, true),
        ],
    };
    let steps = SQLMigration::migrate(SQLDialect::MySQL, &vec![model], live, true).unwrap();
    assert_eq!(
        exec_texts(&steps),
        vec![
            "DROP TABLE `accounts`",
            "CREATE TABLE `accounts` (`id` INT PRIMARY KEY NOT NULL, `status` TEXT NOT NULL)",
        ],
    );
}

#[test]
fn dropping_a_column_is_always_safe() {
    // live accounts has a not-null status column with no default and
    // records; the model no longer declares it: one DROP COLUMN statement,
    // post-action first, and the table itself survives
    let live = vec![live_table(
        "accounts",
        vec![
            SQLColumn::new(String::from("id"), SQLType::Int, true, false, None, true, false),
            SQLColumn::new(String::from("status"), SQLType::Text, true, false, None, false, false),
        ],
        true,
    )];
    let model = Model {
        name: String::from("Account"),
        table_name: String::from("accounts"),
        is_virtual: false,
        migration: Some(ModelMigration {
            renamed: vec![],
            dropped_actions: vec![(String::from("status"), 9)],
        }),
        fields: vec![{
            let mut id = field("id", SQLType::Int, true);
            id.primary = true;
            id
        }],
    };
    let steps = SQLMigration::migrate(SQLDialect::MySQL, &vec![model], live, false).unwrap();
    assert_eq!(
        exec_texts(&steps),
        vec!["action:9", "ALTER TABLE `accounts` DROP COLUMN `status`"],
    );
}

#[test]
fn unclaimed_live_tables_are_dropped_exactly_once() {
    let models = vec![users_model()];
    let live = vec![
        live_table(
            "users",
            vec![column_of_field(&models[0].fields[0]), column_of_field(&models[0].fields[1])],
            false,
        ),
        live_table("stray", vec![], false),
    ];
    let steps = SQLMigration::migrate(SQLDialect::MySQL, &models, live, false).unwrap();
    assert_eq!(exec_texts(&steps), vec!["DROP TABLE `stray`"]);
}

#[test]
fn virtual_models_are_skipped_entirely() {
    let mut model = users_model();
    model.is_virtual = true;
    let steps = SQLMigration::migrate(SQLDialect::MySQL, &vec![model], vec![], false).unwrap();
    assert_eq!(steps.len(), 0);
}

#[test]
fn sqlite_cannot_alter_columns_in_place() {
    let live = vec![live_table(
        "users",
        vec![SQLColumn::new(String::from("age"), SQLType::Int, false, false, None, false, false)],
        false,
    )];
    let model = Model {
        name: String::from("User"),
        table_name: String::from("users"),
        is_virtual: false,
        migration: None,
        fields: vec![field("age", SQLType::Text, false)],
    };
    let r = SQLMigration::migrate(SQLDialect::SQLite, &vec![model], live, false);
    assert_eq!(r.unwrap_err().message(), "SQLite doesn't support column altering");
}

#[test]
fn mysql_alters_with_a_single_modify_statement() {
    let live = vec![live_table(
        "users",
        vec![SQLColumn::new(String::from("age"), SQLType::Int, false, false, None, false, false)],
        false,
    )];
    let model = Model {
        name: String::from("User"),
        table_name: String::from("users"),
        is_virtual: false,
        migration: None,
        fields: vec![field("age", SQLType::BigInt, false)],
    };
    let steps = SQLMigration::migrate(SQLDialect::MySQL, &vec![model], live, false).unwrap();
    assert_eq!(exec_texts(&steps), vec!["ALTER TABLE `users` MODIFY `age` BIGINT"]);
}

#[test]
fn postgres_alters_with_separate_clauses() {
    let old_column =
        SQLColumn::new(String::from("age"), SQLType::Int, false, false, None, false, false);
    let mut new_column =
        SQLColumn::new(String::from("age"), SQLType::BigInt, false, false, None, false, false);
    new_column.set_default(Some(String::from("5")));
    let clauses = SQLMigration::psql_alter_clauses("users", &old_column, &new_column);
    assert_eq!(
        clauses,
        vec![
            "ALTER TABLE \"users\" ALTER COLUMN \"age\" TYPE BIGINT",
            "ALTER TABLE \"users\" ALTER COLUMN \"age\" SET DEFAULT 5",
        ],
    );
}

#[test]
fn postgres_drops_a_removed_default() {
    let mut old_column =
        SQLColumn::new(String::from("age"), SQLType::Int, false, false, None, false, false);
    old_column.set_default(Some(String::from("5")));
    let new_column =
        SQLColumn::new(String::from("age"), SQLType::Int, false, false, None, false, false);
    let clauses = SQLMigration::psql_alter_clauses("users", &old_column, &new_column);
    assert_eq!(clauses, vec!["ALTER TABLE \"users\" ALTER COLUMN \"age\" DROP DEFAULT"]);
}

#[test]
fn postgres_keeps_an_unchanged_default_quiet() {
    let mut old_column =
        SQLColumn::new(String::from("age"), SQLType::Int, false, false, None, false, false);
    old_column.set_default(Some(String::from("5")));
    let mut new_column =
        SQLColumn::new(String::from("age"), SQLType::Int, false, false, None, false, false);
    new_column.set_default(Some(String::from("5")));
    let clauses = SQLMigration::psql_alter_clauses("users", &old_column, &new_column);
    assert_eq!(clauses.len(), 0);
}

#[test]
fn added_columns_carry_an_encoded_default() {
    let live = vec![live_table(
        "accounts",
        vec![SQLColumn::new(String::from("id"), SQLType::Int, true, false, None, true, false)],
        true,
    )];
    let mut status = field("status", SQLType::Text, true);
    status.default = Some(Value::String(String::from("new")));
    status.add_action = Some(3);
    let model = Model {
        name: String::from("Account"),
        table_name: String::from("accounts"),
        is_virtual: false,
        migration: None,
        fields: vec![
            {
                let mut id = field("id", SQLType::Int, true);
                id.primary = true;
                id
            },
            status,
        ],
    };
    let steps = SQLMigration::migrate(SQLDialect::MySQL, &vec![model], live, false).unwrap();
    assert_eq!(
        exec_texts(&steps),
        vec![
            "ALTER TABLE `accounts` ADD COLUMN `status` TEXT NOT NULL DEFAULT 'new'",
            "action:3",
        ],
    );
}

#[test]
fn catalog_queries_match_each_dialect() {
    assert_eq!(list_tables_query(SQLDialect::MySQL), "SHOW TABLES");
    assert_eq!(
        list_tables_query(SQLDialect::PostgreSQL),
        "SELECT tablename FROM pg_catalog.pg_tables WHERE schemaname != 'pg_catalog' AND schemaname != 'information_schema'",
    );
    assert_eq!(
        list_tables_query(SQLDialect::SQLite),
        "SELECT name FROM sqlite_master WHERE type in ('table') AND name not like 'sqlite?_%' escape '?'",
    );
    assert_eq!(describe_table_query(SQLDialect::MySQL, "users"), "DESCRIBE `users`");
    assert_eq!(
        describe_table_query(SQLDialect::PostgreSQL, "users"),
        "SELECT * FROM information_schema.columns where table_name = 'users'",
    );
    assert_eq!(describe_table_query(SQLDialect::SQLite, "users"), "pragma table_info('users')");
    assert_eq!(sqlite_list_indices_query("users"), "pragma index_list('users')");
    assert_eq!(
        sqlite_auto_increment_query("users"),
        "SELECT 1 FROM sqlite_master WHERE type = 'table' AND name = 'users' AND sql LIKE '%AUTOINCREMENT%'",
    );
    assert_eq!(has_records_query(SQLDialect::MySQL, "users"), "select * from `users` limit 1");
}

#[test]
fn a_full_run_sequences_models_in_declaration_order() {
    // users is already converged; posts is new; accounts gains a column
    // and loses one; a legacy table no model declares is cleaned up last
    let users = users_model();
    let posts = Model {
        name: String::from("Post"),
        table_name: String::from("posts"),
        is_virtual: false,
        migration: None,
        fields: vec![field("id", SQLType::Int, true)],
    };
    let accounts = Model {
        name: String::from("Account"),
        table_name: String::from("accounts"),
        is_virtual: false,
        migration: None,
        fields: vec![field("id", SQLType::Int, true), field("age", SQLType::Int, false)],
    };
    let live = vec![
        live_table(
            "users",
            vec![column_of_field(&users.fields[0]), column_of_field(&users.fields[1])],
            true,
        ),
        live_table(
            "accounts",
            vec![
                column_of_field(&accounts.fields[0]),
                SQLColumn::new(String::from("old"), SQLType::Text, false, false, None, false,
                    false),
            ],
            false,
        ),
        live_table("legacy", vec![], true),
    ];
    let models = vec![users, posts, accounts];
    let steps = SQLMigration::migrate(SQLDialect::MySQL, &models, live, false).unwrap();
    assert_eq!(
        exec_texts(&steps),
        vec![
            "CREATE TABLE `posts` (`id` INT NOT NULL)",
            "ALTER TABLE `accounts` ADD COLUMN `age` INT",
            "ALTER TABLE `accounts` DROP COLUMN `old`",
            "DROP TABLE `legacy`",
        ],
    );
}

#[test]
fn server_database_creation_follows_reset_and_existence() {
    assert_eq!(
        create_server_database_statements(SQLDialect::MySQL, "app", true, false),
        vec![
            "DROP DATABASE IF EXISTS `app`",
            "CREATE DATABASE IF NOT EXISTS `app`",
            "USE `app`",
        ],
    );
    assert_eq!(
        create_server_database_statements(SQLDialect::MySQL, "app", false, true),
        vec!["CREATE DATABASE IF NOT EXISTS `app`", "USE `app`"],
    );
    assert_eq!(
        create_server_database_statements(SQLDialect::PostgreSQL, "app", false, true),
        vec!["SET search_path TO app"],
    );
    assert_eq!(
        create_server_database_statements(SQLDialect::PostgreSQL, "app", true, false),
        vec![
            "DROP DATABASE IF EXISTS \"app\"",
            "CREATE DATABASE \"app\"",
            "SET search_path TO app",
        ],
    );
}

#[test]
fn database_level_statements_match_each_dialect() {
    assert_eq!(drop_database_statement(SQLDialect::MySQL, "app"), "DROP DATABASE IF EXISTS `app`");
    assert_eq!(create_database_statement(SQLDialect::MySQL, "app", true),
        "CREATE DATABASE IF NOT EXISTS `app`");
    assert_eq!(create_database_statement(SQLDialect::PostgreSQL, "app", false),
        "CREATE DATABASE \"app\"");
    assert_eq!(use_database_command(SQLDialect::MySQL, "app"), "USE `app`");
    assert_eq!(use_database_command(SQLDialect::PostgreSQL, "app"), "SET search_path TO app");
    assert_eq!(database_exists_query("app"), "select from pg_database where datname = 'app'");
    assert_eq!(drop_table_statement(SQLDialect::PostgreSQL, "t"), "DROP TABLE \"t\"");
    assert_eq!(rename_table_statement(SQLDialect::MySQL, "a", "b"),
        "ALTER TABLE `a` RENAME TO `b`");
    assert_eq!(create_table_statement(SQLDialect::SQLite, &users_model()),
        "CREATE TABLE `users` (`id` INTEGER PRIMARY KEY AUTOINCREMENT NOT NULL, `name` TEXT NOT NULL)");
}
