use teo::dialect::SQLDialect;
use teo::encode::FieldType;
use teo::encode::IfIMode;
use teo::encode::ToLike;
use teo::encode::ToSQLInput;
use teo::encode::ToSQLString;
use teo::encode::ToWrapped;
use teo::encode::TypeOrNull;
use teo::encode::WrapInArray;
use teo::encode::encode_value;
use teo::encode::format_date;
use teo::encode::format_datetime;
use teo::encode::quote_str;
use teo::value::SqlDate;
use teo::value::SqlDateTime;
use teo::value::Value;

#[test]
fn quoting_doubles_quotes_for_doubling_dialects() {
    assert_eq!(quote_str("O'Brien", true), "'O''Brien'");
}

#[test]
fn quoting_backslash_escapes_for_mysql_style_input() {
    assert_eq!(quote_str("O'Brien", false), "'O\\'Brien'");
    assert_eq!("O'Brien".to_sql_input(), "'O\\'Brien'");
    assert_eq!(String::from("it's").to_sql_input(), "'it\\'s'");
}

#[test]
fn bool_literals_follow_the_dialect() {
    assert_eq!(true.to_sql_input(), "TRUE");
    assert_eq!(false.to_sql_input(), "FALSE");
    assert_eq!(SQLDialect::SQLite.bool_literal(true), "1");
    assert_eq!(SQLDialect::SQLite.bool_literal(false), "0");
    assert_eq!(SQLDialect::MySQL.bool_literal(true), "TRUE");
}

#[test]
fn string_value_encodes_per_dialect() {
    let v = Value::String(String::from("O'Brien"));
    assert_eq!(v.to_string(SQLDialect::PostgreSQL), "'O''Brien'");
    assert_eq!(v.to_string(SQLDialect::SQLite), "'O''Brien'");
    assert_eq!(v.to_string(SQLDialect::MySQL), "'O\\'Brien'");
}

#[test]
fn integer_values_render_in_decimal() {
    assert_eq!(Value::I64(-42).to_string(SQLDialect::MySQL), "-42");
    assert_eq!(Value::U128(340282366920938463463374607431768211455).to_string(SQLDialect::MySQL),
        "340282366920938463463374607431768211455");
    assert_eq!(Value::I64(i64::MIN).to_string(SQLDialect::MySQL), "-9223372036854775808");
    assert_eq!(Value::I128(i128::MIN).to_string(SQLDialect::MySQL),
        "-170141183460469231731687303715884105728");
    assert_eq!(Value::U8(0).to_string(SQLDialect::MySQL), "0");
}

#[test]
fn date_renders_zero_padded() {
    let d = SqlDate { year: 2020, month: 3, day: 7 };
    assert_eq!(format_date(&d), "2020-03-07");
    assert_eq!(d.to_sql_input(), "'2020-03-07'");
}

#[test]
fn datetime_renders_with_fractional_seconds() {
    let d = SqlDateTime {
        date: SqlDate { year: 1999, month: 12, day: 31 },
        hour: 4,
        minute: 5,
        second: 6,
        nanos: 7,
    };
    assert_eq!(format_datetime(&d), "1999-12-31 04:05:06.000000007");
    assert_eq!(d.to_sql_input(), "'1999-12-31 04:05:06.000000007'");
}

#[test]
fn null_encodes_as_the_null_keyword() {
    assert_eq!(Value::Null.to_string(SQLDialect::MySQL), "NULL");
    assert_eq!(encode_value(&Value::Null, SQLDialect::SQLite).unwrap(), "NULL");
}

#[test]
fn decimal_text_passes_through_unquoted() {
    assert_eq!(encode_value(&Value::Decimal(String::from("3.25")), SQLDialect::MySQL).unwrap(),
        "3.25");
    assert_eq!(encode_value(&Value::Decimal(String::from("-1.5e10")), SQLDialect::MySQL).unwrap(),
        "-1.5e10");
}

#[test]
fn malformed_decimal_text_is_fatal() {
    let r = encode_value(&Value::Decimal(String::from("1; DROP TABLE x")), SQLDialect::MySQL);
    assert!(r.is_err());
}

#[test]
fn arrays_encode_only_where_the_dialect_has_them() {
    let v = Value::Vec(vec![Value::I32(1), Value::I32(2), Value::I32(3)]);
    assert_eq!(encode_value(&v, SQLDialect::PostgreSQL).unwrap(), "ARRAY[1, 2, 3]");
    let refused = encode_value(&v, SQLDialect::MySQL);
    assert!(refused.is_err());
    assert_eq!(refused.unwrap_err().message(),
        "UnsupportedType: this value cannot be encoded for the dialect");
}

#[test]
fn object_ids_cannot_be_encoded() {
    assert!(encode_value(&Value::ObjectId(String::from("abc")), SQLDialect::MySQL).is_err());
}

#[test]
fn nested_arrays_encode_recursively() {
    let v = Value::Vec(vec![
        Value::Vec(vec![Value::Bool(true)]),
        Value::Vec(vec![Value::Bool(false)]),
    ]);
    assert_eq!(encode_value(&v, SQLDialect::PostgreSQL).unwrap(),
        "ARRAY[ARRAY[TRUE], ARRAY[FALSE]]");
}

#[test]
fn coercion_renders_null_only_for_optional_fields() {
    let r = Value::Null.to_sql_string(&FieldType::String, true, SQLDialect::MySQL);
    assert_eq!(r.unwrap(), "NULL");
    let refused = Value::Null.to_sql_string(&FieldType::String, false, SQLDialect::MySQL);
    assert!(refused.is_err());
}

#[test]
fn coercion_quotes_strings_and_enums() {
    let v = Value::String(String::from("it's"));
    assert_eq!(v.to_sql_string(&FieldType::String, false, SQLDialect::PostgreSQL).unwrap(),
        "'it''s'");
    assert_eq!(v.to_sql_string(&FieldType::Enum(String::from("Role")), false,
        SQLDialect::PostgreSQL).unwrap(), "'it''s'");
}

#[test]
fn coercion_accepts_any_integer_variant_for_integer_fields() {
    assert_eq!(Value::U16(7).to_sql_string(&FieldType::I64, false, SQLDialect::MySQL).unwrap(),
        "7");
    assert_eq!(Value::I8(-3).to_sql_string(&FieldType::U32, false, SQLDialect::MySQL).unwrap(),
        "-3");
}

#[test]
fn coercion_rejects_an_integer_too_wide_for_machine_words() {
    let v = Value::I128(i128::MAX);
    assert!(v.to_sql_string(&FieldType::I64, false, SQLDialect::MySQL).is_err());
}

#[test]
fn coercion_takes_decimal_text_for_float_fields() {
    let v = Value::Decimal(String::from("0.5"));
    assert_eq!(v.to_sql_string(&FieldType::F64, false, SQLDialect::MySQL).unwrap(), "0.5");
    assert_eq!(Value::I32(2).to_sql_string(&FieldType::F32, false, SQLDialect::MySQL).unwrap(),
        "2");
}

#[test]
fn coercion_renders_composite_fields_as_arrays() {
    let v = Value::Vec(vec![Value::String(String::from("a")), Value::Null]);
    let t = FieldType::Vec(Box::new(FieldType::String), true);
    assert_eq!(v.to_sql_string(&t, false, SQLDialect::PostgreSQL).unwrap(), "ARRAY['a', NULL]");
    assert!(v.to_sql_string(&t, false, SQLDialect::SQLite).is_err());
}

#[test]
fn coercion_refuses_object_id_fields() {
    let v = Value::String(String::from("x"));
    let r = v.to_sql_string(&FieldType::ObjectId, false, SQLDialect::MySQL);
    assert_eq!(r.unwrap_err().message(), "SQL doesn't support `ObjectId`.");
}

#[test]
fn or_null_describes_optional_types() {
    assert_eq!("String".or_null(true), "String or null");
    assert_eq!("String".or_null(false), "String");
}

#[test]
fn to_wrapped_parenthesizes() {
    assert_eq!(String::from("a = 1").to_wrapped(), "(a = 1)");
}

#[test]
fn to_i_mode_wraps_in_lower() {
    assert_eq!("name".to_i_mode(true), "LOWER(name)");
    assert_eq!("name".to_i_mode(false), "name");
    assert_eq!(String::from("x").to_i_mode(true), "LOWER(x)");
}

#[test]
fn to_like_places_wildcards_inside_the_quotes() {
    assert_eq!("'abc'".to_like(true, true), "'%abc%'");
    assert_eq!("'abc'".to_like(true, false), "'%abc'");
    assert_eq!("'abc'".to_like(false, true), "'abc%'");
    assert_eq!(String::from("'abc'").to_like(false, false), "'abc'");
}

#[test]
fn wrap_in_array_brackets_the_body() {
    assert_eq!("1, 2".wrap_in_array(), "ARRAY[1, 2]");
    assert_eq!(String::from("").wrap_in_array(), "ARRAY[]");
}

#[test]
fn value_accessors_read_their_variant() {
    assert!(Value::Null.is_null());
    assert!(!Value::Bool(false).is_null());
    assert_eq!(Value::String(String::from("s")).as_str(), Some("s"));
    assert_eq!(Value::ObjectId(String::from("oid")).as_string(), Some(String::from("oid")));
    assert_eq!(Value::Bool(true).as_bool(), Some(true));
    assert_eq!(Value::I128(5).as_i64(), Some(5));
    assert_eq!(Value::I128(i128::MAX).as_i64(), None);
    assert_eq!(Value::I8(-1).as_u64(), None);
    assert_eq!(Value::U64(9).as_usize(), Some(9));
    assert_eq!(Value::String(String::from("no")).as_i64(), None);
    let items = Value::Vec(vec![Value::I32(1)]);
    assert_eq!(items.as_vec().map(|v| v.len()), Some(1));
}

#[test]
fn sized_accessors_respect_their_ranges() {
    assert_eq!(Value::I64(127).as_i8(), Some(127));
    assert_eq!(Value::I64(128).as_i8(), None);
    assert_eq!(Value::U8(200).as_i8(), None);
    assert_eq!(Value::I32(-32768).as_i16(), Some(-32768));
    assert_eq!(Value::I32(-32769).as_i16(), None);
    assert_eq!(Value::U64(u64::MAX).as_i32(), None);
    assert_eq!(Value::U128(u128::MAX).as_i128(), None);
    assert_eq!(Value::I128(-1).as_i128(), Some(-1));
    assert_eq!(Value::I16(-1).as_u8(), None);
    assert_eq!(Value::U32(65535).as_u16(), Some(65535));
    assert_eq!(Value::U32(65536).as_u16(), None);
    assert_eq!(Value::I64(1).as_u32(), Some(1));
    assert_eq!(Value::I8(-1).as_u128(), None);
    assert_eq!(Value::U128(u128::MAX).as_u128(), Some(u128::MAX));
}

#[test]
fn values_clone_equal() {
    let v = Value::Vec(vec![Value::String(String::from("x")), Value::I64(2)]);
    assert_eq!(v.clone(), v);
}
