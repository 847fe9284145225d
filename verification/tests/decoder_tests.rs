use teo::column::SQLColumn;
use teo::column::SQLType;
use teo::column::decode_type;
use teo::decoder::ColumnDecoder;
use teo::decoder::ColumnManipulation;
use teo::decoder::SqlitePragmaRow;
use teo::dialect::SQLDialect;
use teo::encode::ToSQLString;
use teo::model::Field;
use teo::model::Model;
use teo::model::ModelMigration;
use teo::model::column_of_field;

fn plain_column(name: &str, ty: SQLType, not_null: bool) -> SQLColumn {
    SQLColumn::new(String::from(name), ty, not_null, false, None, false, false)
}

fn plain_field(name: &str, ty: SQLType, required: bool) -> Field {
    Field {
        column_name: String::from(name),
        database_type: ty,
        required,
        auto_increment: false,
        primary: false,
        unique: false,
        default: None,
        add_action: None,
    }
}

fn model_with_fields(table: &str, fields: Vec<Field>) -> Model {
    Model {
        name: String::from(table),
        table_name: String::from(table),
        is_virtual: false,
        migration: None,
        fields,
    }
}

#[test]
fn type_names_follow_the_dialect() {
    assert_eq!(SQLType::Bool.to_string(SQLDialect::MySQL), "TINYINT(1)");
    assert_eq!(SQLType::Double.to_string(SQLDialect::PostgreSQL), "DOUBLE PRECISION");
    assert_eq!(SQLType::DateTime.to_string(SQLDialect::SQLite), "TEXT");
}

#[test]
fn type_decoding_round_trips_the_emitted_names() {
    let server_dialects = [SQLDialect::MySQL, SQLDialect::PostgreSQL];
    let types = [
        SQLType::Bool,
        SQLType::Int,
        SQLType::BigInt,
        SQLType::Double,
        SQLType::Text,
        SQLType::Date,
        SQLType::DateTime,
    ];
    for dialect in server_dialects {
        for ty in types {
            let spelled = ty.to_string(dialect);
            assert_eq!(decode_type(spelled.as_str(), dialect), Some(ty));
        }
    }
}

#[test]
fn type_decoding_lowers_case_and_reads_catalog_forms() {
    assert_eq!(decode_type("TINYINT(1)", SQLDialect::MySQL), Some(SQLType::Bool));
    assert_eq!(decode_type("int(11)", SQLDialect::MySQL), Some(SQLType::Int));
    assert_eq!(decode_type("timestamp without time zone", SQLDialect::PostgreSQL),
        Some(SQLType::DateTime));
    assert_eq!(decode_type("integer", SQLDialect::SQLite), Some(SQLType::Int));
    assert_eq!(decode_type("geometry", SQLDialect::MySQL), None);
}

#[test]
fn describe_row_decodes_into_a_column() {
    let col = ColumnDecoder::decode(
        String::from("id"),
        "int",
        "NO",
        "PRI",
        "auto_increment",
        SQLDialect::MySQL,
    )
    .unwrap();
    assert_eq!(col.name(), "id");
    assert_eq!(col.column_type(), SQLType::Int);
    assert!(col.not_null());
    assert!(col.auto_increment);
    assert!(col.primary_key);
    assert!(!col.unique_key);
    assert!(col.default().is_none());
}

#[test]
fn describe_row_reads_nullability_and_unique_role() {
    let col = ColumnDecoder::decode(
        String::from("email"),
        "text",
        "YES",
        "UNI",
        "",
        SQLDialect::MySQL,
    )
    .unwrap();
    assert!(!col.not_null());
    assert!(col.unique_key);
    assert!(!col.primary_key);
    assert!(!col.auto_increment);
}

#[test]
fn describe_row_with_unknown_type_is_fatal() {
    let r = ColumnDecoder::decode(String::from("g"), "geometry", "NO", "", "", SQLDialect::MySQL);
    assert!(r.is_err());
}

#[test]
fn postgres_row_decodes_with_dedicated_lookups() {
    let col = ColumnDecoder::decode_postgres(
        String::from("id"),
        "integer",
        "NO",
        true,
        false,
        true,
    )
    .unwrap();
    assert_eq!(col.column_type(), SQLType::Int);
    assert!(col.not_null());
    assert!(col.primary_key);
    assert!(col.auto_increment);
}

#[test]
fn sqlite_pragma_rows_merge_with_indices_and_autoincrement() {
    let rows = vec![
        SqlitePragmaRow {
            name: String::from("id"),
            column_type: String::from("INTEGER"),
            notnull: true,
            pk: true,
        },
        SqlitePragmaRow {
            name: String::from("email"),
            column_type: String::from("TEXT"),
            notnull: false,
            pk: false,
        },
    ];
    let unique = vec![String::from("email")];
    let cols = ColumnDecoder::decode_sqlite_columns(rows, &unique, true).unwrap();
    assert_eq!(cols.len(), 2);
    assert!(cols[0].auto_increment);
    assert!(cols[0].primary_key);
    assert!(!cols[0].unique_key);
    assert!(cols[1].unique_key);
    assert!(!cols[1].auto_increment);
}

#[test]
fn model_columns_come_in_declaration_order() {
    let model = model_with_fields(
        "users",
        vec![plain_field("id", SQLType::Int, true), plain_field("name", SQLType::Text, false)],
    );
    let cols = ColumnDecoder::decode_model_columns(&model);
    assert_eq!(cols.len(), 2);
    assert_eq!(cols[0].name(), "id");
    assert_eq!(cols[1].name(), "name");
    assert!(cols[0].not_null());
    assert!(!cols[1].not_null());
}

#[test]
fn missing_column_becomes_an_add() {
    let db = vec![plain_column("id", SQLType::Int, true)];
    let model = model_with_fields(
        "users",
        vec![plain_field("id", SQLType::Int, true), plain_field("age", SQLType::Int, false)],
    );
    let manips = ColumnDecoder::manipulations(&db, &model);
    assert_eq!(manips.len(), 1);
    match &manips[0] {
        ColumnManipulation::AddColumn { column, action, default } => {
            assert_eq!(column.name(), "age");
            assert!(action.is_none());
            assert!(default.is_none());
        },
        other => panic!("expected an add, got {:?}", other),
    }
}

#[test]
fn extra_live_column_becomes_a_remove() {
    let db = vec![
        plain_column("id", SQLType::Int, true),
        plain_column("status", SQLType::Text, true),
    ];
    let model = model_with_fields("accounts", vec![plain_field("id", SQLType::Int, true)]);
    let manips = ColumnDecoder::manipulations(&db, &model);
    assert_eq!(manips.len(), 1);
    match &manips[0] {
        ColumnManipulation::RemoveColumn { name, action } => {
            assert_eq!(name, "status");
            assert!(action.is_none());
        },
        other => panic!("expected a remove, got {:?}", other),
    }
}

#[test]
fn remove_carries_the_declared_dropped_action() {
    let db = vec![plain_column("status", SQLType::Text, true)];
    let mut model = model_with_fields("accounts", vec![]);
    model.migration = Some(ModelMigration {
        renamed: vec![],
        dropped_actions: vec![(String::from("status"), 7)],
    });
    let manips = ColumnDecoder::manipulations(&db, &model);
    assert_eq!(manips.len(), 1);
    match &manips[0] {
        ColumnManipulation::RemoveColumn { name, action } => {
            assert_eq!(name, "status");
            assert_eq!(*action, Some(7));
        },
        other => panic!("expected a remove, got {:?}", other),
    }
}

#[test]
fn changed_column_becomes_an_alter() {
    let db = vec![plain_column("age", SQLType::Int, false)];
    let model = model_with_fields("users", vec![plain_field("age", SQLType::BigInt, false)]);
    let manips = ColumnDecoder::manipulations(&db, &model);
    assert_eq!(manips.len(), 1);
    match &manips[0] {
        ColumnManipulation::AlterColumn { before, after, .. } => {
            assert_eq!(before.column_type(), SQLType::Int);
            assert_eq!(after.column_type(), SQLType::BigInt);
        },
        other => panic!("expected an alter, got {:?}", other),
    }
}

#[test]
fn key_role_changes_alone_ask_for_nothing() {
    // primary, unique and auto-increment are index-level concerns, not
    // column alterations
    let mut live = plain_column("id", SQLType::Int, true);
    live.unique_key = true;
    let db = vec![live];
    let model = model_with_fields("users", vec![plain_field("id", SQLType::Int, true)]);
    let manips = ColumnDecoder::manipulations(&db, &model);
    assert_eq!(manips.len(), 0);
}

#[test]
fn matching_columns_ask_for_nothing() {
    let model = model_with_fields(
        "users",
        vec![plain_field("id", SQLType::Int, true), plain_field("name", SQLType::Text, false)],
    );
    let db = vec![
        column_of_field(&model.fields[0]),
        column_of_field(&model.fields[1]),
    ];
    let manips = ColumnDecoder::manipulations(&db, &model);
    assert_eq!(manips.len(), 0);
    assert!(!ColumnDecoder::need_to_alter_any_columns(&db,
        &ColumnDecoder::decode_model_columns(&model)));
}

#[test]
fn need_to_alter_sees_a_nullability_change() {
    let db = vec![plain_column("age", SQLType::Int, false)];
    let model = model_with_fields("users", vec![plain_field("age", SQLType::Int, true)]);
    let desired = ColumnDecoder::decode_model_columns(&model);
    assert!(ColumnDecoder::need_to_alter_any_columns(&db, &desired));
}

#[test]
fn is_add_column_non_null_sees_only_dangerous_adds() {
    let dangerous = ColumnManipulation::AddColumn {
        column: plain_column("a", SQLType::Int, true),
        action: None,
        default: None,
    };
    assert!(dangerous.is_add_column_non_null());
    let with_default = ColumnManipulation::AddColumn {
        column: plain_column("a", SQLType::Int, true),
        action: None,
        default: Some(teo::value::Value::I32(0)),
    };
    assert!(!with_default.is_add_column_non_null());
    let nullable = ColumnManipulation::AddColumn {
        column: plain_column("a", SQLType::Int, false),
        action: None,
        default: None,
    };
    assert!(!nullable.is_add_column_non_null());
    let remove = ColumnManipulation::RemoveColumn { name: String::from("a"), action: None };
    assert!(!remove.is_add_column_non_null());
}

#[test]
fn columns_compare_structurally() {
    let a = plain_column("x", SQLType::Int, true);
    let b = plain_column("x", SQLType::Int, true);
    let c = plain_column("x", SQLType::Int, false);
    assert!(a == b);
    assert!(a != c);
    let mut with_default = plain_column("x", SQLType::Int, true);
    with_default.set_default(Some(String::from("0")));
    assert!(a != with_default);
    assert_eq!(with_default.default().as_deref(), Some("0"));
    assert_eq!(with_default.duplicate(), with_default);
}
