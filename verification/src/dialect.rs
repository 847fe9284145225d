//! The closed set of supported SQL dialects, together with the lexical rules
//! and capability flags that the rest of the engine queries: identifier
//! escaping, boolean literal spelling, string-literal quote escaping, and
//! whether columns can be altered in place.
use vstd::prelude::*;

verus! {

/// A supported SQL database engine's syntax and capability profile.
#[derive(Clone, Copy, Debug, PartialEq, Eq, Structural)]
pub enum SQLDialect {
    MySQL,
    PostgreSQL,
    SQLite,
}

impl SQLDialect {
    /// The identifier-escape character, as a sequence of characters.
    pub open spec fn escape_seq(self) -> Seq<char> {
        if self is PostgreSQL {
            "\""@
        } else {
            "`"@
        }
    }

    /// The character used to escape identifiers (table and column names).
    pub fn escape(self) -> (r: &'static str)
        ensures
            r@ == self.escape_seq(),
    {
        match self {
            SQLDialect::PostgreSQL => "\"",
            _ => "`",
        }
    }

    /// Whether the dialect can alter a column's definition in place.
    /// SQLite cannot: converging a changed column there is a fatal
    /// configuration error.
    pub fn supports_in_place_column_alter(self) -> (r: bool)
        ensures
            r == !(self is SQLite),
    {
        match self {
            SQLDialect::SQLite => false,
            _ => true,
        }
    }

    /// Whether string literals escape an embedded quote by doubling it.
    /// MySQL escapes with a backslash instead.
    pub fn escapes_quote_by_doubling(self) -> (r: bool)
        ensures
            r == !(self is MySQL),
    {
        match self {
            SQLDialect::MySQL => false,
            _ => true,
        }
    }

    /// The spelling of the boolean literal `b` in this dialect.
    pub open spec fn bool_literal_seq(self, b: bool) -> Seq<char> {
        if self is SQLite {
            if b {
                "1"@
            } else {
                "0"@
            }
        } else {
            if b {
                "TRUE"@
            } else {
                "FALSE"@
            }
        }
    }

    /// The boolean literal for `b`. SQLite has no native booleans and uses
    /// `1` and `0`; the server dialects spell out `TRUE` and `FALSE`.
    pub fn bool_literal(self, b: bool) -> (r: &'static str)
        ensures
            r@ == self.bool_literal_seq(b),
    {
        match self {
            SQLDialect::SQLite => if b {
                "1"
            } else {
                "0"
            },
            _ => if b {
                "TRUE"
            } else {
                "FALSE"
            },
        }
    }

    /// Whether the dialect supports array-typed columns, and hence array
    /// literals in defaults.
    pub fn supports_array_columns(self) -> (r: bool)
        ensures
            r == (self is PostgreSQL),
    {
        match self {
            SQLDialect::PostgreSQL => true,
            _ => false,
        }
    }
}

} // verus!
