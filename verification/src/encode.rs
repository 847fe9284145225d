//! The value-encoding layer: renders typed application values into
//! syntactically correct literal SQL for each dialect, and the small string
//! helpers the query builders use (quoting, `LOWER(..)` wrapping, `LIKE`
//! patterns, array brackets).
use crate::dialect::SQLDialect;
use crate::error::Error;
use crate::strutil;
use crate::value::SqlDate;
use crate::value::SqlDateTime;
use crate::value::Value;
use crate::value::ValueModel;
use vstd::prelude::*;

verus! {

/// How one character is escaped inside a single-quoted SQL string literal:
/// a quote is doubled, or preceded by a backslash, depending on the dialect;
/// every other character stands for itself.
pub open spec fn esc_char(c: char, doubling: bool) -> Seq<char> {
    if c == '\'' {
        if doubling {
            seq!['\'', '\'']
        } else {
            seq!['\\', '\'']
        }
    } else {
        seq![c]
    }
}

/// The body of a single-quoted SQL string literal for `s`.
pub open spec fn escaped_chars(s: Seq<char>, doubling: bool) -> Seq<char>
    decreases s.len(),
{
    if s.len() == 0 {
        Seq::empty()
    } else {
        esc_char(s[0], doubling) + escaped_chars(s.drop_first(), doubling)
    }
}

/// A complete single-quoted SQL string literal for `s`.
pub open spec fn quoted(s: Seq<char>, doubling: bool) -> Seq<char> {
    seq!['\''] + escaped_chars(s, doubling) + seq!['\'']
}

proof fn lemma_escaped_push(s: Seq<char>, c: char, doubling: bool)
    ensures
        escaped_chars(s.push(c), doubling) == escaped_chars(s, doubling) + esc_char(c, doubling),
    decreases s.len(),
{
    if s.len() == 0 {
        assert(s.push(c) =~= seq![c]);
        assert(s.push(c)[0] == c);
        assert(s.push(c).drop_first() =~= Seq::empty());
        assert(escaped_chars(s.push(c), doubling) == esc_char(c, doubling) + escaped_chars(
            Seq::empty(),
            doubling,
        ));
        assert(esc_char(c, doubling) + Seq::empty() =~= esc_char(c, doubling));
        assert(escaped_chars(s, doubling) + esc_char(c, doubling) =~= esc_char(c, doubling));
    } else {
        assert(s.push(c).drop_first() =~= s.drop_first().push(c));
        lemma_escaped_push(s.drop_first(), c, doubling);
        assert(escaped_chars(s.push(c), doubling) =~= esc_char(s[0], doubling) + (escaped_chars(
            s.drop_first(),
            doubling,
        ) + esc_char(c, doubling)));
        assert(escaped_chars(s, doubling) + esc_char(c, doubling) =~= esc_char(s[0], doubling)
            + (escaped_chars(s.drop_first(), doubling) + esc_char(c, doubling)));
    }
}

/// Renders `s` as a single-quoted SQL string literal, escaping embedded
/// quotes by doubling or with a backslash.
pub fn quote_str(s: &str, doubling: bool) -> (r: String)
    ensures
        r@ == quoted(s@, doubling),
{
    let len = s.unicode_len();
    let mut out = String::new();
    strutil::push_char(&mut out, '\'');
    let mut i: usize = 0;
    while i < len
        invariant
            len == s@.len(),
            0 <= i <= len,
            out@ == seq!['\''] + escaped_chars(s@.subrange(0, i as int), doubling),
        decreases len - i,
    {
        let c = s.get_char(i);
        if c == '\'' {
            if doubling {
                strutil::push_char(&mut out, '\'');
                strutil::push_char(&mut out, '\'');
            } else {
                strutil::push_char(&mut out, '\\');
                strutil::push_char(&mut out, '\'');
            }
        } else {
            strutil::push_char(&mut out, c);
        }
        proof {
            lemma_escaped_push(s@.subrange(0, i as int), s@[i as int], doubling);
            assert(s@.subrange(0, i + 1) =~= s@.subrange(0, i as int).push(s@[i as int]));
            assert(out@ =~= seq!['\''] + escaped_chars(s@.subrange(0, i + 1), doubling));
        }
        i += 1;
    }
    assert(s@.subrange(0, len as int) =~= s@);
    strutil::push_char(&mut out, '\'');
    assert(out@ =~= quoted(s@, doubling));
    out
}

/// Reads a single-quoted SQL string literal of the quote-doubling grammar
/// back into the string it denotes: the literal must open and close with a
/// quote, and every quote inside the body must come doubled. Returns nothing
/// when `lit` is not such a literal.
pub open spec fn parse_quoted_doubling(lit: Seq<char>) -> Option<Seq<char>> {
    if lit.len() >= 2 && lit[0] == '\'' && lit[lit.len() - 1] == '\'' {
        parse_quoted_body(lit.subrange(1, lit.len() - 1))
    } else {
        None
    }
}

/// Reads the body of a single-quoted literal under the quote-doubling rule.
pub open spec fn parse_quoted_body(body: Seq<char>) -> Option<Seq<char>>
    decreases body.len(),
{
    if body.len() == 0 {
        Some(Seq::empty())
    } else if body[0] == '\'' {
        if body.len() >= 2 && body[1] == '\'' {
            match parse_quoted_body(body.subrange(2, body.len() as int)) {
                Some(rest) => Some(seq!['\''] + rest),
                None => None,
            }
        } else {
            None
        }
    } else {
        match parse_quoted_body(body.drop_first()) {
            Some(rest) => Some(seq![body[0]] + rest),
            None => None,
        }
    }
}

proof fn lemma_escaped_body_parses(s: Seq<char>)
    ensures
        parse_quoted_body(escaped_chars(s, true)) == Some(s),
    decreases s.len(),
{
    if s.len() == 0 {
        assert(escaped_chars(s, true) =~= Seq::<char>::empty());
    } else {
        lemma_escaped_body_parses(s.drop_first());
        let body = escaped_chars(s, true);
        if s[0] == '\'' {
            assert(body =~= seq!['\'', '\''] + escaped_chars(s.drop_first(), true));
            assert(body.subrange(2, body.len() as int) =~= escaped_chars(s.drop_first(), true));
            assert(seq!['\''] + s.drop_first() =~= s);
        } else {
            assert(body =~= seq![s[0]] + escaped_chars(s.drop_first(), true));
            assert(body.drop_first() =~= escaped_chars(s.drop_first(), true));
            assert(seq![s[0]] + s.drop_first() =~= s);
        }
    }
}

/// The dialect-specific literal grammar reads back exactly the string that
/// was encoded: for every string `s`, quoting `s` for a dialect that escapes
/// quotes by doubling yields a literal that the doubling grammar parses back
/// to `s`.
pub proof fn lemma_quote_round_trip(s: Seq<char>)
    ensures
        parse_quoted_doubling(quoted(s, true)) == Some(s),
{
    let lit = quoted(s, true);
    assert(lit[0] == '\'');
    assert(lit[lit.len() - 1] == '\'');
    assert(lit.subrange(1, lit.len() - 1) =~= escaped_chars(s, true));
    lemma_escaped_body_parses(s);
}

/// Renders a value as dialect-correct SQL text.
pub trait ToSQLString {
    /// Whether the rendering is defined for this value in this dialect.
    spec fn sql_encodable(&self, dialect: SQLDialect) -> bool;

    /// The rendered text, as characters.
    spec fn sql_string(&self, dialect: SQLDialect) -> Seq<char>;

    /// The rendered text.
    fn to_string(&self, dialect: SQLDialect) -> (r: String)
        requires
            self.sql_encodable(dialect),
        ensures
            r@ == self.sql_string(dialect),
    ;
}

/// Spells a type's name, with ` or null` appended when the value is
/// optional; used to describe an expected input.
pub trait TypeOrNull {
    /// The described type, as characters.
    spec fn type_desc(&self) -> Seq<char>;

    /// The description, with ` or null` appended when `optional` holds.
    fn or_null(&self, optional: bool) -> (r: String)
        ensures
            r@ == self.type_desc() + if optional {
                " or null"@
            } else {
                Seq::<char>::empty()
            },
    ;
}

impl TypeOrNull for &str {
    open spec fn type_desc(&self) -> Seq<char> {
        self@
    }

    fn or_null(&self, optional: bool) -> (r: String) {
        let mut out = String::from_str(self);
        if optional {
            out.append(" or null");
        }
        out
    }
}

/// Wraps a rendered expression in parentheses.
pub trait ToWrapped {
    /// The characters to wrap.
    spec fn wrap_body(&self) -> Seq<char>;

    /// The body inside `(` and `)`.
    fn to_wrapped(&self) -> (r: String)
        ensures
            r@ == "("@ + self.wrap_body() + ")"@,
    ;
}

impl ToWrapped for String {
    open spec fn wrap_body(&self) -> Seq<char> {
        self@
    }

    fn to_wrapped(&self) -> (r: String) {
        let mut out = String::from_str("(");
        out.append(self.as_str());
        out.append(")");
        out
    }
}

/// Renders a plain input value as a SQL literal in the legacy input style:
/// strings are single-quoted with embedded quotes backslash-escaped,
/// booleans spelled `TRUE` and `FALSE`, dates and timestamps quoted in their
/// calendar rendering.
pub trait ToSQLInput {
    /// Whether the rendering is defined for this value.
    spec fn sql_input_ok(&self) -> bool;

    /// The rendered literal, as characters.
    spec fn sql_input(&self) -> Seq<char>;

    /// The rendered literal.
    fn to_sql_input(&self) -> (r: String)
        requires
            self.sql_input_ok(),
        ensures
            r@ == self.sql_input(),
    ;
}

impl ToSQLInput for String {
    open spec fn sql_input_ok(&self) -> bool {
        true
    }

    open spec fn sql_input(&self) -> Seq<char> {
        quoted(self@, false)
    }

    fn to_sql_input(&self) -> (r: String) {
        quote_str(self.as_str(), false)
    }
}

impl ToSQLInput for &str {
    open spec fn sql_input_ok(&self) -> bool {
        true
    }

    open spec fn sql_input(&self) -> Seq<char> {
        quoted(self@, false)
    }

    fn to_sql_input(&self) -> (r: String) {
        quote_str(self, false)
    }
}

impl ToSQLInput for bool {
    open spec fn sql_input_ok(&self) -> bool {
        true
    }

    open spec fn sql_input(&self) -> Seq<char> {
        if *self {
            "TRUE"@
        } else {
            "FALSE"@
        }
    }

    fn to_sql_input(&self) -> (r: String) {
        if *self {
            String::from_str("TRUE")
        } else {
            String::from_str("FALSE")
        }
    }
}

/// The `YYYY-MM-DD` rendering of a date.
pub open spec fn date_chars(d: SqlDate) -> Seq<char> {
    strutil::padded_dec(d.year as nat, 4) + "-"@ + strutil::padded_dec(d.month as nat, 2) + "-"@
        + strutil::padded_dec(d.day as nat, 2)
}

/// The `YYYY-MM-DD HH:MM:SS.NNNNNNNNN` rendering of a timestamp, the
/// fractional second in nanoseconds.
pub open spec fn datetime_chars(d: SqlDateTime) -> Seq<char> {
    date_chars(d.date) + " "@ + strutil::padded_dec(d.hour as nat, 2) + ":"@ + strutil::padded_dec(
        d.minute as nat,
        2,
    ) + ":"@ + strutil::padded_dec(d.second as nat, 2) + "."@ + strutil::padded_dec(
        d.nanos as nat,
        9,
    )
}

/// Renders a date as `YYYY-MM-DD`.
pub fn format_date(d: &SqlDate) -> (r: String)
    requires
        d.wf(),
    ensures
        r@ == date_chars(*d),
{
    proof {
        strutil::lemma_pow10_small();
    }
    let mut out = strutil::to_padded_dec(d.year as u64, 4);
    out.append("-");
    let m = strutil::to_padded_dec(d.month as u64, 2);
    out.append(m.as_str());
    out.append("-");
    let day = strutil::to_padded_dec(d.day as u64, 2);
    out.append(day.as_str());
    out
}

/// Renders a timestamp as `YYYY-MM-DD HH:MM:SS.NNNNNNNNN`.
pub fn format_datetime(d: &SqlDateTime) -> (r: String)
    requires
        d.wf(),
    ensures
        r@ == datetime_chars(*d),
{
    proof {
        strutil::lemma_pow10_small();
    }
    let mut out = format_date(&d.date);
    out.append(" ");
    let h = strutil::to_padded_dec(d.hour as u64, 2);
    out.append(h.as_str());
    out.append(":");
    let m = strutil::to_padded_dec(d.minute as u64, 2);
    out.append(m.as_str());
    out.append(":");
    let s = strutil::to_padded_dec(d.second as u64, 2);
    out.append(s.as_str());
    out.append(".");
    let n = strutil::to_padded_dec(d.nanos as u64, 9);
    out.append(n.as_str());
    out
}

impl ToSQLInput for SqlDate {
    open spec fn sql_input_ok(&self) -> bool {
        self.wf()
    }

    open spec fn sql_input(&self) -> Seq<char> {
        quoted(date_chars(*self), false)
    }

    fn to_sql_input(&self) -> (r: String) {
        let text = format_date(self);
        quote_str(text.as_str(), false)
    }
}

impl ToSQLInput for SqlDateTime {
    open spec fn sql_input_ok(&self) -> bool {
        self.wf()
    }

    open spec fn sql_input(&self) -> Seq<char> {
        quoted(datetime_chars(*self), false)
    }

    fn to_sql_input(&self) -> (r: String) {
        let text = format_datetime(self);
        quote_str(text.as_str(), false)
    }
}

/// Wraps a rendered expression in `LOWER(..)` for case-insensitive
/// comparison.
pub trait IfIMode {
    /// The wrapped characters.
    spec fn i_mode_body(&self) -> Seq<char>;

    /// The expression, wrapped in `LOWER(..)` when `i_mode` holds.
    fn to_i_mode(&self, i_mode: bool) -> (r: String)
        ensures
            r@ == if i_mode {
                "LOWER("@ + self.i_mode_body() + ")"@
            } else {
                self.i_mode_body()
            },
    ;
}

impl IfIMode for &str {
    open spec fn i_mode_body(&self) -> Seq<char> {
        self@
    }

    fn to_i_mode(&self, i_mode: bool) -> (r: String) {
        if i_mode {
            let mut out = String::from_str("LOWER(");
            out.append(self);
            out.append(")");
            out
        } else {
            String::from_str(self)
        }
    }
}

impl IfIMode for String {
    open spec fn i_mode_body(&self) -> Seq<char> {
        self@
    }

    fn to_i_mode(&self, i_mode: bool) -> (r: String) {
        self.as_str().to_i_mode(i_mode)
    }
}

/// Turns a quoted literal into a `LIKE` pattern by placing `%` wildcards
/// just inside its delimiters.
pub trait ToLike {
    /// The rendered literal the wildcards go into.
    spec fn like_body(&self) -> Seq<char>;

    /// Whether the wildcards can be placed.
    spec fn like_ok(&self) -> bool;

    /// The literal with a `%` after its opening delimiter when `left`
    /// holds, and one before its closing delimiter when `right` holds.
    fn to_like(&self, left: bool, right: bool) -> (r: String)
        requires
            self.like_ok(),
        ensures
            r@ == seq![self.like_body()[0]] + (if left {
                "%"@
            } else {
                Seq::<char>::empty()
            }) + self.like_body().subrange(1, self.like_body().len() - 1) + (if right {
                "%"@
            } else {
                Seq::<char>::empty()
            }) + seq![self.like_body()[self.like_body().len() - 1]],
    ;
}

impl ToLike for &str {
    open spec fn like_body(&self) -> Seq<char> {
        self@
    }

    open spec fn like_ok(&self) -> bool {
        self@.len() >= 2
    }

    fn to_like(&self, left: bool, right: bool) -> (r: String) {
        let len = self.unicode_len();
        let mut out = String::new();
        strutil::push_char(&mut out, self.get_char(0));
        if left {
            strutil::push_char(&mut out, '%');
        }
        let middle = self.substring_char(1, len - 1);
        out.append(middle);
        if right {
            strutil::push_char(&mut out, '%');
        }
        strutil::push_char(&mut out, self.get_char(len - 1));
        proof {
            reveal_strlit("%");
            assert(out@ =~= seq![self@[0]] + (if left {
                "%"@
            } else {
                Seq::<char>::empty()
            }) + self@.subrange(1, self@.len() - 1) + (if right {
                "%"@
            } else {
                Seq::<char>::empty()
            }) + seq![self@[self@.len() - 1]]);
        }
        out
    }
}

impl ToLike for String {
    open spec fn like_body(&self) -> Seq<char> {
        self@
    }

    open spec fn like_ok(&self) -> bool {
        self@.len() >= 2
    }

    fn to_like(&self, left: bool, right: bool) -> (r: String) {
        self.as_str().to_like(left, right)
    }
}

/// Wraps a comma-joined list of rendered elements in an `ARRAY[..]`
/// constructor.
pub trait WrapInArray {
    /// The characters between the brackets.
    spec fn array_body(&self) -> Seq<char>;

    /// The body inside `ARRAY[` and `]`.
    fn wrap_in_array(&self) -> (r: String)
        ensures
            r@ == "ARRAY["@ + self.array_body() + "]"@,
    ;
}

impl WrapInArray for &str {
    open spec fn array_body(&self) -> Seq<char> {
        self@
    }

    fn wrap_in_array(&self) -> (r: String) {
        let mut out = String::from_str("ARRAY[");
        out.append(self);
        out.append("]");
        out
    }
}

impl WrapInArray for String {
    open spec fn array_body(&self) -> Seq<char> {
        self@
    }

    fn wrap_in_array(&self) -> (r: String) {
        self.as_str().wrap_in_array()
    }
}

/// Whether `c` may appear in pre-rendered decimal text: digits, sign,
/// point, and exponent marks.
pub open spec fn is_decimal_char(c: char) -> bool {
    ('0' <= c <= '9') || c == '.' || c == '-' || c == '+' || c == 'e' || c == 'E'
}

/// Whether `s` is acceptable pre-rendered decimal text: nonempty and made
/// of decimal characters only, so that it can stand unquoted in a
/// statement.
pub open spec fn decimal_text_wf(s: Seq<char>) -> bool {
    s.len() > 0 && forall|i: int| 0 <= i < s.len() ==> is_decimal_char(#[trigger] s[i])
}

/// Checks that `s` is acceptable pre-rendered decimal text.
pub fn check_decimal_text(s: &str) -> (r: bool)
    ensures
        r == decimal_text_wf(s@),
{
    let len = s.unicode_len();
    if len == 0 {
        return false;
    }
    let mut i: usize = 0;
    while i < len
        invariant
            len == s@.len(),
            0 <= i <= len,
            forall|k: int| 0 <= k < i ==> is_decimal_char(#[trigger] s@[k]),
        decreases len - i,
    {
        let c = s.get_char(i);
        let ok = ('0' <= c && c <= '9') || c == '.' || c == '-' || c == '+' || c == 'e' || c
            == 'E';
        if !ok {
            return false;
        }
        i += 1;
    }
    true
}

/// Whether string literals of `dialect` escape a quote by doubling it.
pub open spec fn doubling(dialect: SQLDialect) -> bool {
    !(dialect is MySQL)
}

/// Whether a scalar value can be rendered for `dialect`: everything but
/// object ids and composites, with well-formed decimal text and calendar
/// fields.
pub open spec fn scalar_encodable(m: ValueModel, dialect: SQLDialect) -> bool {
    match m {
        ValueModel::ObjectId(_) => false,
        ValueModel::Vec(_) => false,
        ValueModel::Decimal(s) => decimal_text_wf(s),
        ValueModel::Date(d) => d.wf(),
        ValueModel::DateTime(d) => d.wf(),
        _ => true,
    }
}

/// The SQL literal a scalar value renders to in `dialect`.
pub open spec fn scalar_sql_chars(m: ValueModel, dialect: SQLDialect) -> Seq<char> {
    match m {
        ValueModel::Null => "NULL"@,
        ValueModel::Bool(b) => dialect.bool_literal_seq(b),
        ValueModel::I8(x) => strutil::dec_of_int(x as int),
        ValueModel::I16(x) => strutil::dec_of_int(x as int),
        ValueModel::I32(x) => strutil::dec_of_int(x as int),
        ValueModel::I64(x) => strutil::dec_of_int(x as int),
        ValueModel::I128(x) => strutil::dec_of_int(x as int),
        ValueModel::U8(x) => strutil::dec_of_int(x as int),
        ValueModel::U16(x) => strutil::dec_of_int(x as int),
        ValueModel::U32(x) => strutil::dec_of_int(x as int),
        ValueModel::U64(x) => strutil::dec_of_int(x as int),
        ValueModel::U128(x) => strutil::dec_of_int(x as int),
        ValueModel::Decimal(s) => s,
        ValueModel::String(s) => quoted(s, doubling(dialect)),
        ValueModel::Date(d) => quoted(date_chars(d), doubling(dialect)),
        ValueModel::DateTime(d) => quoted(datetime_chars(d), doubling(dialect)),
        _ => Seq::empty(),
    }
}

impl ToSQLString for Value {
    open spec fn sql_encodable(&self, dialect: SQLDialect) -> bool {
        scalar_encodable(self@, dialect)
    }

    open spec fn sql_string(&self, dialect: SQLDialect) -> Seq<char> {
        scalar_sql_chars(self@, dialect)
    }

    /// Renders a scalar value as a SQL literal for `dialect`.
    fn to_string(&self, dialect: SQLDialect) -> (r: String) {
        match self {
            Value::Null => String::from_str("NULL"),
            Value::Bool(b) => String::from_str(dialect.bool_literal(*b)),
            Value::I8(x) => strutil::i64_to_dec(*x as i64),
            Value::I16(x) => strutil::i64_to_dec(*x as i64),
            Value::I32(x) => strutil::i64_to_dec(*x as i64),
            Value::I64(x) => strutil::i64_to_dec(*x),
            Value::I128(x) => strutil::i128_to_dec(*x),
            Value::U8(x) => strutil::u64_to_dec(*x as u64),
            Value::U16(x) => strutil::u64_to_dec(*x as u64),
            Value::U32(x) => strutil::u64_to_dec(*x as u64),
            Value::U64(x) => strutil::u64_to_dec(*x),
            Value::U128(x) => strutil::u128_to_dec(*x),
            Value::Decimal(s) => s.clone(),
            Value::String(s) => quote_str(s.as_str(), dialect.escapes_quote_by_doubling()),
            Value::Date(d) => {
                let text = format_date(d);
                quote_str(text.as_str(), dialect.escapes_quote_by_doubling())
            },
            Value::DateTime(d) => {
                let text = format_datetime(d);
                quote_str(text.as_str(), dialect.escapes_quote_by_doubling())
            },
            // these variants are excluded by the precondition; the arms
            // only make the match total
            Value::ObjectId(_) => String::new(),
            Value::Vec(_) => String::new(),
        }
    }
}

/// Whether a value, composites included, can be rendered for `dialect`:
/// composite values need a dialect with array columns, and every element
/// must itself be renderable.
pub open spec fn spec_encodable(m: ValueModel, dialect: SQLDialect) -> bool
    decreases m,
{
    match m {
        ValueModel::Vec(items) => dialect is PostgreSQL && forall|i: int|
            0 <= i < items.len() ==> spec_encodable(#[trigger] items[i], dialect),
        _ => scalar_encodable(m, dialect),
    }
}

/// The SQL literal a value renders to in `dialect`; a composite renders as
/// `ARRAY[..]` around its comma-joined elements.
pub open spec fn spec_encoded(m: ValueModel, dialect: SQLDialect) -> Seq<char>
    decreases m,
{
    match m {
        ValueModel::Vec(items) => "ARRAY["@ + spec_encoded_items(items, dialect) + "]"@,
        _ => scalar_sql_chars(m, dialect),
    }
}

/// The comma-joined renderings of `items` in `dialect`.
pub open spec fn spec_encoded_items(items: Seq<ValueModel>, dialect: SQLDialect) -> Seq<char>
    decreases items,
{
    if items.len() == 0 {
        Seq::empty()
    } else if items.len() == 1 {
        spec_encoded(items[0], dialect)
    } else {
        spec_encoded(items[0], dialect) + ", "@ + spec_encoded_items(items.drop_first(), dialect)
    }
}

proof fn lemma_encoded_items_push(items: Seq<ValueModel>, m: ValueModel, dialect: SQLDialect)
    ensures
        spec_encoded_items(items.push(m), dialect) == if items.len() == 0 {
            spec_encoded(m, dialect)
        } else {
            spec_encoded_items(items, dialect) + ", "@ + spec_encoded(m, dialect)
        },
    decreases items.len(),
{
    if items.len() == 0 {
        assert(items.push(m) =~= seq![m]);
        assert(items.push(m)[0] == m);
    } else {
        assert(items.push(m).drop_first() =~= items.drop_first().push(m));
        lemma_encoded_items_push(items.drop_first(), m, dialect);
        if items.len() == 1 {
            assert(items.push(m).len() == 2);
            assert(spec_encoded_items(items.push(m), dialect) == spec_encoded(items[0], dialect)
                + ", "@ + spec_encoded_items(items.drop_first().push(m), dialect));
            assert(spec_encoded_items(items.drop_first().push(m), dialect) == spec_encoded(
                m,
                dialect,
            ));
            assert(spec_encoded_items(items, dialect) == spec_encoded(items[0], dialect));
        } else {
            assert(spec_encoded_items(items, dialect) + ", "@ + spec_encoded(m, dialect)
                == spec_encoded(items[0], dialect) + ", "@ + (spec_encoded_items(
                items.drop_first(),
                dialect,
            ) + ", "@ + spec_encoded(m, dialect)));
        }
    }
}

/// Renders a typed application value into a syntactically valid SQL
/// literal for `dialect`, or fails with a fatal `UnsupportedType` error
/// when the value cannot be represented there: object ids never can, and
/// composites only where the dialect has array columns.
#[verifier::loop_isolation(false)]
pub fn encode_value(value: &Value, dialect: SQLDialect) -> (r: Result<String, Error>)
    ensures
        match r {
            Ok(s) => spec_encodable(value@, dialect) && s@ == spec_encoded(value@, dialect),
            Err(e) => !spec_encodable(value@, dialect) && (e matches Error::FatalError(f) && f.0@
                == "UnsupportedType: this value cannot be encoded for the dialect"@),
        },
    decreases value,
{
    match value {
        Value::ObjectId(_) => Err(
            Error::fatal("UnsupportedType: this value cannot be encoded for the dialect"),
        ),
        Value::Decimal(s) => {
            if check_decimal_text(s.as_str()) {
                Ok(s.clone())
            } else {
                Err(Error::fatal("UnsupportedType: this value cannot be encoded for the dialect"))
            }
        },
        Value::Date(d) => {
            if d.month >= 1 && d.month <= 12 && d.day >= 1 && d.day <= 31 && d.year <= 9999 {
                let text = format_date(d);
                Ok(quote_str(text.as_str(), dialect.escapes_quote_by_doubling()))
            } else {
                Err(Error::fatal("UnsupportedType: this value cannot be encoded for the dialect"))
            }
        },
        Value::DateTime(d) => {
            let date_ok = d.date.month >= 1 && d.date.month <= 12 && d.date.day >= 1 && d.date.day
                <= 31 && d.date.year <= 9999;
            if date_ok && d.hour <= 23 && d.minute <= 59 && d.second <= 59 && d.nanos
                <= 999_999_999 {
                let text = format_datetime(d);
                Ok(quote_str(text.as_str(), dialect.escapes_quote_by_doubling()))
            } else {
                Err(Error::fatal("UnsupportedType: this value cannot be encoded for the dialect"))
            }
        },
        Value::Vec(items) => {
            if !dialect.supports_array_columns() {
                return Err(
                    Error::fatal("UnsupportedType: this value cannot be encoded for the dialect"),
                );
            }
            let mut body = String::new();
            let mut i: usize = 0;
            while i < items.len()
                invariant
                    dialect is PostgreSQL,
                    0 <= i <= items@.len(),
                    forall|k: int|
                        0 <= k < i ==> spec_encodable(#[trigger] items@[k]@, dialect),
                    body@ == spec_encoded_items(
                        items@.subrange(0, i as int).map_values(|v: Value| v@),
                        dialect,
                    ),
                decreases items@.len() - i,
            {
                proof {
                    assert(decreases_to!(*value => *items));
                    assert(decreases_to!(*items => items[i as int]));
                }
                let encoded = match encode_value(&items[i], dialect) {
                    Ok(s) => s,
                    Err(e) => {
                        proof {
                            assert(!spec_encodable(items@[i as int]@, dialect));
                            assert(value@->Vec_0[i as int] == items@[i as int]@);
                            assert(!spec_encodable(value@, dialect));
                        }
                        return Err(e);
                    },
                };
                if i > 0 {
                    body.append(", ");
                }
                body.append(encoded.as_str());
                proof {
                    let prefix = items@.subrange(0, i as int).map_values(|v: Value| v@);
                    let extended = items@.subrange(0, i + 1).map_values(|v: Value| v@);
                    assert(extended =~= prefix.push(items@[i as int]@));
                    lemma_encoded_items_push(prefix, items@[i as int]@, dialect);
                    assert(prefix.len() == i);
                    assert(body@ =~= spec_encoded_items(extended, dialect));
                }
                i += 1;
            }
            proof {
                assert(items@.subrange(0, items@.len() as int) =~= items@);
                assert(items@.map_values(|v: Value| v@) =~= value@->Vec_0);
                assert(spec_encodable(value@, dialect));
            }
            let mut out = String::from_str("ARRAY[");
            out.append(body.as_str());
            out.append("]");
            proof {
                assert(out@ =~= spec_encoded(value@, dialect));
            }
            Ok(out)
        },
        _ => {
            let r = value.to_string(dialect);
            Ok(r)
        },
    }
}

/// A declared field's value type, as the coercing encoder dispatches on
/// it. A composite type carries its element type and whether elements are
/// optional.
#[derive(Debug)]
pub enum FieldType {
    ObjectId,
    String,
    Bool,
    I8,
    I16,
    I32,
    I64,
    I128,
    U8,
    U16,
    U32,
    U64,
    U128,
    F32,
    F64,
    Enum(String),
    Vec(Box<FieldType>, bool),
}

/// The mathematical integer a numeric value holds, if any.
pub open spec fn int_val_model(m: ValueModel) -> Option<int> {
    match m {
        ValueModel::I8(v) => Some(v as int),
        ValueModel::I16(v) => Some(v as int),
        ValueModel::I32(v) => Some(v as int),
        ValueModel::I64(v) => Some(v as int),
        ValueModel::I128(v) => Some(v as int),
        ValueModel::U8(v) => Some(v as int),
        ValueModel::U16(v) => Some(v as int),
        ValueModel::U32(v) => Some(v as int),
        ValueModel::U64(v) => Some(v as int),
        ValueModel::U128(v) => Some(v as int),
        _ => None,
    }
}

/// The literal a value coerced to a declared field type renders to in
/// `dialect`, or nothing when the value cannot be represented: a null is
/// accepted only for an optional field, numbers must fit a machine
/// integer's range or come as pre-rendered decimal text, and composite
/// values need a dialect with array columns.
pub open spec fn coerce_spec(
    m: ValueModel,
    t: FieldType,
    optional: bool,
    dialect: SQLDialect,
) -> Option<Seq<char>>
    decreases t, 0int,
{
    if optional && m is Null {
        Some("NULL"@)
    } else {
        match t {
            FieldType::ObjectId => None,
            FieldType::String => match m {
                ValueModel::String(s) => Some(quoted(s, doubling(dialect))),
                ValueModel::ObjectId(s) => Some(quoted(s, doubling(dialect))),
                _ => None,
            },
            FieldType::Enum(_) => match m {
                ValueModel::String(s) => Some(quoted(s, doubling(dialect))),
                ValueModel::ObjectId(s) => Some(quoted(s, doubling(dialect))),
                _ => None,
            },
            FieldType::Bool => match m {
                ValueModel::Bool(b) => Some(dialect.bool_literal_seq(b)),
                _ => None,
            },
            FieldType::F32 | FieldType::F64 => match m {
                ValueModel::Decimal(s) => if decimal_text_wf(s) {
                    Some(s)
                } else {
                    None
                },
                _ => coerce_int(m),
            },
            FieldType::Vec(elem, elem_optional) => if dialect is PostgreSQL {
                match m {
                    ValueModel::Vec(items) => match coerce_items(
                        items,
                        *elem,
                        elem_optional,
                        dialect,
                    ) {
                        Some(body) => Some("ARRAY["@ + body + "]"@),
                        None => None,
                    },
                    _ => None,
                }
            } else {
                None
            },
            _ => coerce_int(m),
        }
    }
}

/// The decimal rendering of a numeric value that fits a machine integer.
pub open spec fn coerce_int(m: ValueModel) -> Option<Seq<char>> {
    match int_val_model(m) {
        Some(k) => if i64::MIN <= k <= u64::MAX {
            Some(strutil::dec_of_int(k))
        } else {
            None
        },
        None => None,
    }
}

/// The comma-joined coerced renderings of `items`, or nothing when any
/// element cannot be represented.
pub open spec fn coerce_items(
    items: Seq<ValueModel>,
    elem: FieldType,
    elem_optional: bool,
    dialect: SQLDialect,
) -> Option<Seq<char>>
    decreases elem, items.len() + 1,
{
    if items.len() == 0 {
        Some(Seq::empty())
    } else {
        match coerce_spec(items[0], elem, elem_optional, dialect) {
            Some(first) => if items.len() == 1 {
                Some(first)
            } else {
                match coerce_items(items.drop_first(), elem, elem_optional, dialect) {
                    Some(rest) => Some(first + ", "@ + rest),
                    None => None,
                }
            },
            None => None,
        }
    }
}

proof fn lemma_coerce_items_push(
    items: Seq<ValueModel>,
    m: ValueModel,
    elem: FieldType,
    elem_optional: bool,
    dialect: SQLDialect,
)
    requires
        coerce_items(items, elem, elem_optional, dialect) is Some,
    ensures
        coerce_items(items.push(m), elem, elem_optional, dialect) == match coerce_spec(
            m,
            elem,
            elem_optional,
            dialect,
        ) {
            Some(enc) => if items.len() == 0 {
                Some(enc)
            } else {
                Some(coerce_items(items, elem, elem_optional, dialect)->0 + ", "@ + enc)
            },
            None => None::<Seq<char>>,
        },
    decreases items.len(),
{
    if items.len() == 0 {
        assert(items.push(m) =~= seq![m]);
        assert(items.push(m)[0] == m);
    } else {
        assert(items.push(m)[0] == items[0]);
        assert(items.push(m).drop_first() =~= items.drop_first().push(m));
        lemma_coerce_items_push(items.drop_first(), m, elem, elem_optional, dialect);
    }
}

impl Value {
    /// Renders this value for a declared field of the given type, coercing
    /// numeric variants as the type asks, or fails with a fatal error when
    /// the value cannot represent that type in `dialect`. A null renders as
    /// `NULL` only for an optional field.
    #[verifier::loop_isolation(false)]
    pub fn to_sql_string(
        &self,
        field_type: &FieldType,
        optional: bool,
        dialect: SQLDialect,
    ) -> (r: Result<String, Error>)
        ensures
            match r {
                Ok(s) => coerce_spec(self@, *field_type, optional, dialect) == Some(s@),
                Err(e) => coerce_spec(self@, *field_type, optional, dialect) is None && (
                e matches Error::FatalError(_)),
            },
        decreases self,
    {
        if optional && self.is_null() {
            return Ok(String::from_str("NULL"));
        }
        match field_type {
            FieldType::ObjectId => Err(Error::fatal("SQL doesn't support `ObjectId`.")),
            FieldType::String | FieldType::Enum(_) => match self.as_str() {
                Some(s) => Ok(quote_str(s, dialect.escapes_quote_by_doubling())),
                None => Err(Error::fatal("UnsupportedType: expected a string value")),
            },
            FieldType::Bool => match self.as_bool() {
                Some(b) => Ok(String::from_str(dialect.bool_literal(b))),
                None => Err(Error::fatal("UnsupportedType: expected a boolean value")),
            },
            FieldType::F32 | FieldType::F64 => match self {
                Value::Decimal(s) => {
                    if check_decimal_text(s.as_str()) {
                        Ok(s.clone())
                    } else {
                        Err(Error::fatal("UnsupportedType: malformed decimal text"))
                    }
                },
                _ => self.int_to_dec_text(),
            },
            FieldType::Vec(elem, elem_optional) => {
                if !dialect.supports_array_columns() {
                    return Err(
                        Error::fatal(
                            "UnsupportedType: this value cannot be encoded for the dialect",
                        ),
                    );
                }
                let items = match self {
                    Value::Vec(items) => items,
                    _ => {
                        return Err(Error::fatal("UnsupportedType: expected a composite value"));
                    },
                };
                let mut body = String::new();
                let mut i: usize = 0;
                while i < items.len()
                    invariant
                        0 <= i <= items@.len(),
                        coerce_items(
                            items@.subrange(0, i as int).map_values(|v: Value| v@),
                            **elem,
                            *elem_optional,
                            dialect,
                        ) == Some(body@),
                    decreases items@.len() - i,
                {
                    proof {
                        assert(decreases_to!(*self => *items));
                        assert(decreases_to!(*items => items[i as int]));
                    }
                    let encoded = match items[i].to_sql_string(&**elem, *elem_optional, dialect) {
                        Ok(s) => s,
                        Err(e) => {
                            proof {
                                let whole = self@->Vec_0;
                                let prefix = items@.subrange(0, i as int).map_values(
                                    |v: Value| v@,
                                );
                                assert(whole =~= items@.map_values(|v: Value| v@));
                                lemma_coerce_items_prefix_none(
                                    whole,
                                    i as int,
                                    **elem,
                                    *elem_optional,
                                    dialect,
                                );
                            }
                            return Err(e);
                        },
                    };
                    if i > 0 {
                        body.append(", ");
                    }
                    body.append(encoded.as_str());
                    proof {
                        let prefix = items@.subrange(0, i as int).map_values(|v: Value| v@);
                        let extended = items@.subrange(0, i + 1).map_values(|v: Value| v@);
                        assert(extended =~= prefix.push(items@[i as int]@));
                        lemma_coerce_items_push(
                            prefix,
                            items@[i as int]@,
                            **elem,
                            *elem_optional,
                            dialect,
                        );
                        assert(prefix.len() == i);
                        assert(coerce_items(extended, **elem, *elem_optional, dialect) == Some(
                            body@,
                        ));
                    }
                    i += 1;
                }
                proof {
                    assert(items@.subrange(0, items@.len() as int) =~= items@);
                    assert(items@.map_values(|v: Value| v@) =~= self@->Vec_0);
                }
                let mut out = String::from_str("ARRAY[");
                out.append(body.as_str());
                out.append("]");
                proof {
                    assert(out@ =~= "ARRAY["@ + body@ + "]"@);
                }
                Ok(out)
            },
            _ => {
                let r = self.int_to_dec_text();
                proof {
                    match *field_type {
                        FieldType::I8 | FieldType::I16 | FieldType::I32 | FieldType::I64
                            | FieldType::I128 | FieldType::U8 | FieldType::U16 | FieldType::U32
                            | FieldType::U64 | FieldType::U128 => {},
                        _ => { assert(false); },
                    }
                }
                r
            },
        }
    }

    /// Renders any integer variant that fits a machine integer's range in
    /// decimal.
    fn int_to_dec_text(&self) -> (r: Result<String, Error>)
        ensures
            match r {
                Ok(s) => coerce_int(self@) == Some(s@),
                Err(e) => coerce_int(self@) is None && (e matches Error::FatalError(_)),
            },
    {
        match self.as_i64() {
            Some(v) => Ok(strutil::i64_to_dec(v)),
            None => match self.as_u64() {
                Some(v) => Ok(strutil::u64_to_dec(v)),
                None => Err(Error::fatal("Uncoded number.")),
            },
        }
    }
}

proof fn lemma_coerce_items_prefix_none(
    items: Seq<ValueModel>,
    i: int,
    elem: FieldType,
    elem_optional: bool,
    dialect: SQLDialect,
)
    requires
        0 <= i < items.len(),
        coerce_spec(items[i], elem, elem_optional, dialect) is None,
    ensures
        coerce_items(items, elem, elem_optional, dialect) is None,
    decreases i,
{
    if i == 0 {
    } else {
        lemma_coerce_items_prefix_none(items.drop_first(), i - 1, elem, elem_optional, dialect);
    }
}

} // verus!
