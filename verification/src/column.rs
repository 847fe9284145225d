//! The dialect-neutral column representation the diff engine compares:
//! a name, a scalar type, nullability and key flags, and an optional default
//! literal; plus the per-dialect spelling of each scalar type and the
//! decoding of live catalog type names back into scalar types.
use crate::dialect::SQLDialect;
use crate::encode::ToSQLString;
use crate::strutil;
use vstd::prelude::*;

verus! {

/// A dialect-neutral scalar column type.
#[derive(Clone, Copy, Debug, PartialEq, Eq, Structural, Hash)]
pub enum SQLType {
    Bool,
    Int,
    BigInt,
    Double,
    Text,
    Date,
    DateTime,
}

impl SQLType {
    /// The SQL spelling of this type in the given dialect.
    pub open spec fn type_name_seq(self, dialect: SQLDialect) -> Seq<char> {
        match dialect {
            SQLDialect::MySQL => match self {
                SQLType::Bool => "TINYINT(1)"@,
                SQLType::Int => "INT"@,
                SQLType::BigInt => "BIGINT"@,
                SQLType::Double => "DOUBLE"@,
                SQLType::Text => "TEXT"@,
                SQLType::Date => "DATE"@,
                SQLType::DateTime => "DATETIME"@,
            },
            SQLDialect::PostgreSQL => match self {
                SQLType::Bool => "BOOLEAN"@,
                SQLType::Int => "INTEGER"@,
                SQLType::BigInt => "BIGINT"@,
                SQLType::Double => "DOUBLE PRECISION"@,
                SQLType::Text => "TEXT"@,
                SQLType::Date => "DATE"@,
                SQLType::DateTime => "TIMESTAMP"@,
            },
            SQLDialect::SQLite => match self {
                SQLType::Bool => "INTEGER"@,
                SQLType::Int => "INTEGER"@,
                SQLType::BigInt => "INTEGER"@,
                SQLType::Double => "REAL"@,
                SQLType::Text => "TEXT"@,
                SQLType::Date => "TEXT"@,
                SQLType::DateTime => "TEXT"@,
            },
        }
    }
}

impl ToSQLString for SQLType {
    open spec fn sql_encodable(&self, dialect: SQLDialect) -> bool {
        true
    }

    open spec fn sql_string(&self, dialect: SQLDialect) -> Seq<char> {
        self.type_name_seq(dialect)
    }

    fn to_string(&self, dialect: SQLDialect) -> (r: String) {
        match dialect {
            SQLDialect::MySQL => match self {
                SQLType::Bool => String::from_str("TINYINT(1)"),
                SQLType::Int => String::from_str("INT"),
                SQLType::BigInt => String::from_str("BIGINT"),
                SQLType::Double => String::from_str("DOUBLE"),
                SQLType::Text => String::from_str("TEXT"),
                SQLType::Date => String::from_str("DATE"),
                SQLType::DateTime => String::from_str("DATETIME"),
            },
            SQLDialect::PostgreSQL => match self {
                SQLType::Bool => String::from_str("BOOLEAN"),
                SQLType::Int => String::from_str("INTEGER"),
                SQLType::BigInt => String::from_str("BIGINT"),
                SQLType::Double => String::from_str("DOUBLE PRECISION"),
                SQLType::Text => String::from_str("TEXT"),
                SQLType::Date => String::from_str("DATE"),
                SQLType::DateTime => String::from_str("TIMESTAMP"),
            },
            SQLDialect::SQLite => match self {
                SQLType::Bool => String::from_str("INTEGER"),
                SQLType::Int => String::from_str("INTEGER"),
                SQLType::BigInt => String::from_str("INTEGER"),
                SQLType::Double => String::from_str("REAL"),
                SQLType::Text => String::from_str("TEXT"),
                SQLType::Date => String::from_str("TEXT"),
                SQLType::DateTime => String::from_str("TEXT"),
            },
        }
    }
}

/// The scalar type a live catalog type name denotes, compared after ASCII
/// lowering; the spellings this engine itself emits are always recognized,
/// alongside the common display forms of each dialect's catalogs.
pub open spec fn spec_decode_type(text: Seq<char>, dialect: SQLDialect) -> Option<SQLType> {
    let t = strutil::lower_seq(text);
    match dialect {
        SQLDialect::MySQL => if t == "tinyint(1)"@ {
            Some(SQLType::Bool)
        } else if t == "int"@ || t == "int(11)"@ || t == "integer"@ {
            Some(SQLType::Int)
        } else if t == "bigint"@ || t == "bigint(20)"@ {
            Some(SQLType::BigInt)
        } else if t == "double"@ {
            Some(SQLType::Double)
        } else if t == "text"@ || t == "longtext"@ {
            Some(SQLType::Text)
        } else if t == "date"@ {
            Some(SQLType::Date)
        } else if t == "datetime"@ || t == "datetime(3)"@ {
            Some(SQLType::DateTime)
        } else {
            None
        },
        SQLDialect::PostgreSQL => if t == "boolean"@ || t == "bool"@ {
            Some(SQLType::Bool)
        } else if t == "integer"@ || t == "int4"@ {
            Some(SQLType::Int)
        } else if t == "bigint"@ || t == "int8"@ {
            Some(SQLType::BigInt)
        } else if t == "double precision"@ || t == "float8"@ {
            Some(SQLType::Double)
        } else if t == "text"@ {
            Some(SQLType::Text)
        } else if t == "date"@ {
            Some(SQLType::Date)
        } else if t == "timestamp"@ || t == "timestamp without time zone"@ {
            Some(SQLType::DateTime)
        } else {
            None
        },
        SQLDialect::SQLite => if t == "integer"@ {
            Some(SQLType::Int)
        } else if t == "real"@ {
            Some(SQLType::Double)
        } else if t == "text"@ {
            Some(SQLType::Text)
        } else {
            None
        },
    }
}

/// Decodes a live catalog type name into the scalar type it denotes, or
/// nothing when the name is not recognized.
pub fn decode_type(text: &str, dialect: SQLDialect) -> (r: Option<SQLType>)
    ensures
        r == spec_decode_type(text@, dialect),
{
    let t = strutil::to_ascii_lower(text);
    let s = t.as_str();
    match dialect {
        SQLDialect::MySQL => if strutil::str_eq(s, "tinyint(1)") {
            Some(SQLType::Bool)
        } else if strutil::str_eq(s, "int") || strutil::str_eq(s, "int(11)") || strutil::str_eq(
            s,
            "integer",
        ) {
            Some(SQLType::Int)
        } else if strutil::str_eq(s, "bigint") || strutil::str_eq(s, "bigint(20)") {
            Some(SQLType::BigInt)
        } else if strutil::str_eq(s, "double") {
            Some(SQLType::Double)
        } else if strutil::str_eq(s, "text") || strutil::str_eq(s, "longtext") {
            Some(SQLType::Text)
        } else if strutil::str_eq(s, "date") {
            Some(SQLType::Date)
        } else if strutil::str_eq(s, "datetime") || strutil::str_eq(s, "datetime(3)") {
            Some(SQLType::DateTime)
        } else {
            None
        },
        SQLDialect::PostgreSQL => if strutil::str_eq(s, "boolean") || strutil::str_eq(s, "bool") {
            Some(SQLType::Bool)
        } else if strutil::str_eq(s, "integer") || strutil::str_eq(s, "int4") {
            Some(SQLType::Int)
        } else if strutil::str_eq(s, "bigint") || strutil::str_eq(s, "int8") {
            Some(SQLType::BigInt)
        } else if strutil::str_eq(s, "double precision") || strutil::str_eq(s, "float8") {
            Some(SQLType::Double)
        } else if strutil::str_eq(s, "text") {
            Some(SQLType::Text)
        } else if strutil::str_eq(s, "date") {
            Some(SQLType::Date)
        } else if strutil::str_eq(s, "timestamp") || strutil::str_eq(
            s,
            "timestamp without time zone",
        ) {
            Some(SQLType::DateTime)
        } else {
            None
        },
        SQLDialect::SQLite => if strutil::str_eq(s, "integer") {
            Some(SQLType::Int)
        } else if strutil::str_eq(s, "real") {
            Some(SQLType::Double)
        } else if strutil::str_eq(s, "text") {
            Some(SQLType::Text)
        } else {
            None
        },
    }
}

/// The mathematical content of a column: what the diff engine compares.
pub ghost struct ColumnModel {
    pub name: Seq<char>,
    pub column_type: SQLType,
    pub not_null: bool,
    pub auto_increment: bool,
    pub default: Option<Seq<char>>,
    pub primary_key: bool,
    pub unique_key: bool,
}

/// A dialect-neutral column: its name, scalar type, nullability,
/// auto-increment flag, optional rendered default literal, and key roles.
#[derive(Debug)]
pub struct SQLColumn {
    pub name: String,
    pub column_type: SQLType,
    pub not_null: bool,
    pub auto_increment: bool,
    pub default: Option<String>,
    pub primary_key: bool,
    pub unique_key: bool,
}

impl View for SQLColumn {
    type V = ColumnModel;

    open spec fn view(&self) -> ColumnModel {
        ColumnModel {
            name: self.name@,
            column_type: self.column_type,
            not_null: self.not_null,
            auto_increment: self.auto_increment,
            default: match self.default {
                Some(d) => Some(d@),
                None => None,
            },
            primary_key: self.primary_key,
            unique_key: self.unique_key,
        }
    }
}

impl SQLColumn {
    /// Builds a column from its parts.
    pub fn new(
        name: String,
        column_type: SQLType,
        not_null: bool,
        auto_increment: bool,
        default: Option<String>,
        primary_key: bool,
        unique_key: bool,
    ) -> (r: Self)
        ensures
            r@ == (ColumnModel {
                name: name@,
                column_type,
                not_null,
                auto_increment,
                default: match default {
                    Some(d) => Some(d@),
                    None => None,
                },
                primary_key,
                unique_key,
            }),
    {
        SQLColumn { name, column_type, not_null, auto_increment, default, primary_key, unique_key }
    }

    /// The column's name.
    pub fn name(&self) -> (r: &str)
        ensures
            r@ == self@.name,
    {
        self.name.as_str()
    }

    /// The column's scalar type.
    pub fn column_type(&self) -> (r: SQLType)
        ensures
            r == self@.column_type,
    {
        self.column_type
    }

    /// Whether the column refuses nulls.
    pub fn not_null(&self) -> (r: bool)
        ensures
            r == self@.not_null,
    {
        self.not_null
    }

    /// The column's rendered default literal, if any.
    pub fn default(&self) -> (r: &Option<String>)
        ensures
            match r {
                Some(d) => self@.default == Some(d@),
                None => self@.default is None,
            },
    {
        &self.default
    }

    /// Replaces the column's default literal.
    pub fn set_default(&mut self, default: Option<String>)
        ensures
            final(self)@ == (ColumnModel {
                default: match default {
                    Some(d) => Some(d@),
                    None => None,
                },
                ..old(self)@
            }),
    {
        self.default = default;
    }

    /// An owned copy of the column.
    pub fn duplicate(&self) -> (r: Self)
        ensures
            r@ == self@,
    {
        SQLColumn {
            name: self.name.clone(),
            column_type: self.column_type,
            not_null: self.not_null,
            auto_increment: self.auto_increment,
            default: match &self.default {
                Some(d) => Some(d.clone()),
                None => None,
            },
            primary_key: self.primary_key,
            unique_key: self.unique_key,
        }
    }
}

impl PartialEq for SQLColumn {
    /// Columns are compared structurally, by their mathematical content.
    fn eq(&self, other: &SQLColumn) -> (r: bool) {
        let same = self.name == other.name && self.column_type == other.column_type
            && self.not_null == other.not_null && self.auto_increment == other.auto_increment
            && strutil::opt_str_eq(&self.default, &other.default) && self.primary_key
            == other.primary_key && self.unique_key == other.unique_key;
        proof {
            if same {
                assert(self@ == other@);
            }
        }
        same
    }
}

impl vstd::std_specs::cmp::PartialEqSpecImpl for SQLColumn {
    open spec fn obeys_eq_spec() -> bool {
        true
    }

    open spec fn eq_spec(&self, other: &SQLColumn) -> bool {
        self@ == other@
    }
}

} // verus!
