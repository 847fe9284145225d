//! The diff engine and the live-column decoders: turns introspected column
//! metadata into the dialect-neutral representation, compares the desired
//! column set of a model against the live one, and classifies each
//! discrepancy into a column manipulation.
use crate::column::ColumnModel;
use crate::column::SQLColumn;
use crate::column::decode_type;
use crate::column::spec_decode_type;
use crate::dialect::SQLDialect;
use crate::error::Error;
use crate::model::Model;
use crate::model::FieldModel;
use crate::model::ModelContent;
use crate::model::column_of_field;
use crate::model::field_column;
use crate::strutil;
use crate::value::Value;
use crate::value::ValueModel;
use vstd::prelude::*;

verus! {

/// The mathematical content of one column manipulation.
pub ghost enum ManipModel {
    Add { column: ColumnModel, action: Option<u64>, default: Option<ValueModel> },
    Alter { before: ColumnModel, after: ColumnModel, action: Option<u64> },
    Remove { name: Seq<char>, action: Option<u64> },
    Rename { from_name: Seq<char>, to_name: Seq<char> },
}

/// One atomic schema-change instruction for a single column, as the diff
/// engine emits it and the DDL synthesis consumes it. Add and remove
/// manipulations may carry an opaque post-action to run at a precise point
/// of their execution, and an add may carry a default value to attach.
#[derive(Debug)]
pub enum ColumnManipulation {
    AddColumn { column: SQLColumn, action: Option<u64>, default: Option<Value> },
    AlterColumn { before: SQLColumn, after: SQLColumn, action: Option<u64> },
    RemoveColumn { name: String, action: Option<u64> },
    RenameColumn { from_name: String, to_name: String },
}

impl View for ColumnManipulation {
    type V = ManipModel;

    open spec fn view(&self) -> ManipModel {
        match self {
            ColumnManipulation::AddColumn { column, action, default } => ManipModel::Add {
                column: column@,
                action: *action,
                default: match default {
                    Some(v) => Some(v@),
                    None => None,
                },
            },
            ColumnManipulation::AlterColumn { before, after, action } => ManipModel::Alter {
                before: before@,
                after: after@,
                action: *action,
            },
            ColumnManipulation::RemoveColumn { name, action } => ManipModel::Remove {
                name: name@,
                action: *action,
            },
            ColumnManipulation::RenameColumn { from_name, to_name } => ManipModel::Rename {
                from_name: from_name@,
                to_name: to_name@,
            },
        }
    }
}

/// Whether a manipulation adds a column that refuses nulls and carries no
/// default: the shape that endangers existing rows.
pub open spec fn spec_is_add_non_null(m: ManipModel) -> bool {
    m matches ManipModel::Add { column, default, .. } && column.not_null && default is None
}

impl ColumnManipulation {
    /// Whether this manipulation adds a not-null column with no default.
    pub fn is_add_column_non_null(&self) -> (r: bool)
        ensures
            r == spec_is_add_non_null(self@),
    {
        match self {
            ColumnManipulation::AddColumn { column, default, .. } => column.not_null()
                && default.is_none(),
            _ => false,
        }
    }
}

/// The first column of `cols` named `name`, if any.
pub open spec fn find_column(cols: Seq<ColumnModel>, name: Seq<char>) -> Option<ColumnModel>
    decreases cols.len(),
{
    if cols.len() == 0 {
        None
    } else if cols[0].name == name {
        Some(cols[0])
    } else {
        find_column(cols.drop_first(), name)
    }
}

proof fn lemma_find_column_skip(cols: Seq<ColumnModel>, name: Seq<char>, i: int)
    requires
        0 <= i <= cols.len(),
        forall|k: int| 0 <= k < i ==> (#[trigger] cols[k]).name != name,
    ensures
        find_column(cols, name) == find_column(cols.subrange(i, cols.len() as int), name),
    decreases i,
{
    if i == 0 {
        assert(cols.subrange(0, cols.len() as int) =~= cols);
    } else {
        lemma_find_column_skip(cols, name, i - 1);
        let tail = cols.subrange(i - 1, cols.len() as int);
        assert(tail[0] == cols[i - 1]);
        assert(tail.drop_first() =~= cols.subrange(i, cols.len() as int));
    }
}

/// Looks a column up by name; returns the index of the first match.
fn find_col_index(cols: &Vec<SQLColumn>, name: &str) -> (r: Option<usize>)
    ensures
        match r {
            Some(i) => i < cols@.len() && cols@[i as int]@.name == name@ && find_column(
                cols@.map_values(|c: SQLColumn| c@),
                name@,
            ) == Some(cols@[i as int]@),
            None => find_column(cols@.map_values(|c: SQLColumn| c@), name@) is None,
        },
{
    let ghost models = cols@.map_values(|c: SQLColumn| c@);
    let mut i: usize = 0;
    while i < cols.len()
        invariant
            models == cols@.map_values(|c: SQLColumn| c@),
            0 <= i <= cols@.len(),
            forall|k: int| 0 <= k < i ==> (#[trigger] models[k]).name != name@,
        decreases cols@.len() - i,
    {
        if strutil::str_eq(cols[i].name.as_str(), name) {
            proof {
                lemma_find_column_skip(models, name@, i as int);
                let tail = models.subrange(i as int, models.len() as int);
                assert(tail[0] == models[i as int]);
            }
            return Some(i);
        }
        i += 1;
    }
    proof {
        lemma_find_column_skip(models, name@, models.len() as int);
        assert(models.subrange(models.len() as int, models.len() as int) =~= Seq::<
            ColumnModel,
        >::empty());
    }
    None
}

/// Whether converging `have` to `want` requires altering the column in
/// place: the type, the nullability, or the default differs.
pub open spec fn needs_alter(have: ColumnModel, want: ColumnModel) -> bool {
    have.column_type != want.column_type || have.not_null != want.not_null || have.default
        != want.default
}

fn column_differs(have: &SQLColumn, want: &SQLColumn) -> (r: bool)
    ensures
        r == needs_alter(have@, want@),
{
    let type_differs = !matches!(
        (have.column_type, want.column_type),
        (crate::column::SQLType::Bool, crate::column::SQLType::Bool)
        | (crate::column::SQLType::Int, crate::column::SQLType::Int)
        | (crate::column::SQLType::BigInt, crate::column::SQLType::BigInt)
        | (crate::column::SQLType::Double, crate::column::SQLType::Double)
        | (crate::column::SQLType::Text, crate::column::SQLType::Text)
        | (crate::column::SQLType::Date, crate::column::SQLType::Date)
        | (crate::column::SQLType::DateTime, crate::column::SQLType::DateTime)
    );
    type_differs || have.not_null != want.not_null || !strutil::opt_str_eq(
        &have.default,
        &want.default,
    )
}

/// Whether any declared column exists live under the same name with a
/// different type, nullability or default, so that convergence would have
/// to alter a column in place.
pub open spec fn spec_any_alter(db: Seq<ColumnModel>, desired: Seq<ColumnModel>) -> bool {
    exists|i: int|
        0 <= i < desired.len() && match find_column(db, (#[trigger] desired[i]).name) {
            Some(have) => needs_alter(have, desired[i]),
            None => false,
        }
}

/// The first field of `fields` whose column is named `name`, if any.
pub open spec fn find_field(fields: Seq<FieldModel>, name: Seq<char>) -> Option<FieldModel>
    decreases fields.len(),
{
    if fields.len() == 0 {
        None
    } else if fields[0].column_name == name {
        Some(fields[0])
    } else {
        find_field(fields.drop_first(), name)
    }
}

proof fn lemma_find_field_skip(fields: Seq<FieldModel>, name: Seq<char>, i: int)
    requires
        0 <= i <= fields.len(),
        forall|k: int| 0 <= k < i ==> (#[trigger] fields[k]).column_name != name,
    ensures
        find_field(fields, name) == find_field(fields.subrange(i, fields.len() as int), name),
    decreases i,
{
    if i == 0 {
        assert(fields.subrange(0, fields.len() as int) =~= fields);
    } else {
        lemma_find_field_skip(fields, name, i - 1);
        let tail = fields.subrange(i - 1, fields.len() as int);
        assert(tail[0] == fields[i - 1]);
        assert(tail.drop_first() =~= fields.subrange(i, fields.len() as int));
    }
}

/// The post-action declared for dropping the column named `name`, if any.
pub open spec fn dropped_action_for(
    actions: Seq<(Seq<char>, u64)>,
    name: Seq<char>,
) -> Option<u64>
    decreases actions.len(),
{
    if actions.len() == 0 {
        None
    } else if actions[0].0 == name {
        Some(actions[0].1)
    } else {
        dropped_action_for(actions.drop_first(), name)
    }
}

/// The dropped-column actions a model declares.
pub open spec fn model_dropped_actions(model: ModelContent) -> Seq<(Seq<char>, u64)> {
    match model.migration {
        Some(m) => m.dropped_actions,
        None => Seq::empty(),
    }
}

/// The manipulations the declared fields call for against the live
/// columns, in declaration order: a missing column is added, a column with
/// a differing type, nullability or default is altered, and a matching
/// column asks for nothing.
pub open spec fn field_manips(db: Seq<ColumnModel>, fields: Seq<FieldModel>) -> Seq<ManipModel>
    decreases fields.len(),
{
    if fields.len() == 0 {
        Seq::empty()
    } else {
        let f = fields[0];
        let want = field_column(f);
        let rest = field_manips(db, fields.drop_first());
        match find_column(db, f.column_name) {
            None => seq![
                ManipModel::Add { column: want, action: f.add_action, default: f.default },
            ] + rest,
            Some(have) => if needs_alter(have, want) {
                seq![ManipModel::Alter { before: have, after: want, action: None }] + rest
            } else {
                rest
            },
        }
    }
}

/// The removals the live columns call for: every live column that no
/// declared field names is removed, in live order, carrying the model's
/// dropped-column action for it, if one is declared.
pub open spec fn remove_manips(
    db: Seq<ColumnModel>,
    fields: Seq<FieldModel>,
    actions: Seq<(Seq<char>, u64)>,
) -> Seq<ManipModel>
    decreases db.len(),
{
    if db.len() == 0 {
        Seq::empty()
    } else {
        let rest = remove_manips(db.drop_first(), fields, actions);
        if find_field(fields, db[0].name) is Some {
            rest
        } else {
            seq![
                ManipModel::Remove { name: db[0].name, action: dropped_action_for(actions, db[0].name) },
            ] + rest
        }
    }
}

/// The complete manipulation list for one table: the adds and alters the
/// declared fields call for, then the removals of live columns no field
/// names.
pub open spec fn spec_manipulations(db: Seq<ColumnModel>, model: ModelContent) -> Seq<ManipModel> {
    field_manips(db, model.fields) + remove_manips(
        db,
        model.fields,
        model_dropped_actions(model),
    )
}

/// Decodes live column metadata and derives the per-table manipulation
/// list.
pub struct ColumnDecoder {}

impl ColumnDecoder {
    /// Decodes one row of a server dialect's column description into the
    /// dialect-neutral representation: nullability reads `YES` or `NO`, the
    /// key field marks primary and unique roles as `PRI` and `UNI`, and the
    /// extra field mentions `auto_increment` for auto-incremented columns.
    /// Fails when the type name is not recognized.
    pub fn decode(
        field: String,
        type_text: &str,
        null_text: &str,
        key: &str,
        extra: &str,
        dialect: SQLDialect,
    ) -> (r: Result<SQLColumn, Error>)
        ensures
            match r {
                Ok(c) => spec_decode_type(type_text@, dialect) matches Some(t) && c@ == (
                ColumnModel {
                    name: field@,
                    column_type: t,
                    not_null: !(null_text@ == "YES"@),
                    auto_increment: strutil::contains_seq(extra@, "auto_increment"@),
                    default: None,
                    primary_key: key@ == "PRI"@,
                    unique_key: key@ == "UNI"@,
                }),
                Err(e) => spec_decode_type(type_text@, dialect) is None && (
                e matches Error::FatalError(_)),
            },
    {
        let column_type = match decode_type(type_text, dialect) {
            Some(t) => t,
            None => {
                return Err(Error::fatal("unrecognized live column type"));
            },
        };
        let null = strutil::str_eq(null_text, "YES");
        let auto_increment = strutil::str_contains(extra, "auto_increment");
        let primary = strutil::str_eq(key, "PRI");
        let unique = strutil::str_eq(key, "UNI");
        Ok(SQLColumn::new(field, column_type, !null, auto_increment, None, primary, unique))
    }

    /// Decodes one row of a PostgreSQL `information_schema.columns` query,
    /// with the primary, unique and auto-increment roles supplied by the
    /// dedicated catalog lookups that dialect needs. Fails when the type
    /// name is not recognized.
    pub fn decode_postgres(
        column_name: String,
        data_type: &str,
        is_nullable: &str,
        is_primary: bool,
        is_unique: bool,
        is_auto_increment: bool,
    ) -> (r: Result<SQLColumn, Error>)
        ensures
            match r {
                Ok(c) => spec_decode_type(data_type@, SQLDialect::PostgreSQL) matches Some(t)
                    && c@ == (ColumnModel {
                    name: column_name@,
                    column_type: t,
                    not_null: !(is_nullable@ == "YES"@),
                    auto_increment: is_auto_increment,
                    default: None,
                    primary_key: is_primary,
                    unique_key: is_unique,
                }),
                Err(e) => spec_decode_type(data_type@, SQLDialect::PostgreSQL) is None && (
                e matches Error::FatalError(_)),
            },
    {
        let column_type = match decode_type(data_type, SQLDialect::PostgreSQL) {
            Some(t) => t,
            None => {
                return Err(Error::fatal("unrecognized live column type"));
            },
        };
        let null = strutil::str_eq(is_nullable, "YES");
        Ok(
            SQLColumn::new(
                column_name,
                column_type,
                !null,
                is_auto_increment,
                None,
                is_primary,
                is_unique,
            ),
        )
    }

    /// The columns the model's fields call for, in declaration order.
    pub fn decode_model_columns(model: &Model) -> (r: Vec<SQLColumn>)
        ensures
            r@.map_values(|c: SQLColumn| c@) == model@.desired_columns(),
    {
        let mut out: Vec<SQLColumn> = Vec::new();
        let mut i: usize = 0;
        while i < model.fields.len()
            invariant
                0 <= i <= model.fields@.len(),
                out@.len() == i,
                forall|k: int|
                    0 <= k < i ==> (#[trigger] out@[k])@ == field_column(model.fields@[k]@),
            decreases model.fields@.len() - i,
        {
            let c = column_of_field(&model.fields[i]);
            out.push(c);
            i += 1;
        }
        proof {
            assert(out@.map_values(|c: SQLColumn| c@) =~= model@.desired_columns());
        }
        out
    }

    /// Whether converging the model columns against the live columns would
    /// require altering any column in place.
    pub fn need_to_alter_any_columns(
        db_columns: &Vec<SQLColumn>,
        model_columns: &Vec<SQLColumn>,
    ) -> (r: bool)
        ensures
            r == spec_any_alter(
                db_columns@.map_values(|c: SQLColumn| c@),
                model_columns@.map_values(|c: SQLColumn| c@),
            ),
    {
        let ghost db = db_columns@.map_values(|c: SQLColumn| c@);
        let ghost desired = model_columns@.map_values(|c: SQLColumn| c@);
        let mut i: usize = 0;
        while i < model_columns.len()
            invariant
                db == db_columns@.map_values(|c: SQLColumn| c@),
                desired == model_columns@.map_values(|c: SQLColumn| c@),
                0 <= i <= model_columns@.len(),
                forall|k: int|
                    0 <= k < i ==> match find_column(db, (#[trigger] desired[k]).name) {
                        Some(have) => !needs_alter(have, desired[k]),
                        None => true,
                    },
            decreases model_columns@.len() - i,
        {
            let want = &model_columns[i];
            match find_col_index(db_columns, want.name.as_str()) {
                Some(j) => {
                    if column_differs(&db_columns[j], want) {
                        proof {
                            assert(find_column(db, desired[i as int].name) == Some(
                                db[j as int],
                            ));
                        }
                        return true;
                    }
                },
                None => {},
            }
            i += 1;
        }
        false
    }

    /// Computes the manipulation list for one table: a column present only
    /// in the declared fields is added (with the field's declared default
    /// and post-action), a column present on both sides with a differing
    /// type, nullability or default is altered, and a live column no field
    /// names is removed (with the model's dropped-column action, if
    /// declared). Adds and alters come in declaration order, then removals
    /// in live order.
    pub fn manipulations(db_columns: &Vec<SQLColumn>, model: &Model) -> (r: Vec<
        ColumnManipulation,
    >)
        ensures
            r@.map_values(|m: ColumnManipulation| m@) == spec_manipulations(
                db_columns@.map_values(|c: SQLColumn| c@),
                model@,
            ),
    {
        let ghost db = db_columns@.map_values(|c: SQLColumn| c@);
        let mut out: Vec<ColumnManipulation> = Vec::new();
        let mut i: usize = 0;
        while i < model.fields.len()
            invariant
                db == db_columns@.map_values(|c: SQLColumn| c@),
                0 <= i <= model.fields@.len(),
                out@.map_values(|m: ColumnManipulation| m@) == field_manips(
                    db,
                    model@.fields.subrange(0, i as int),
                ),
            decreases model.fields@.len() - i,
        {
            let field = &model.fields[i];
            let want = column_of_field(field);
            match find_col_index(db_columns, field.column_name.as_str()) {
                None => {
                    let default = match &field.default {
                        Some(v) => Some(v.clone()),
                        None => None,
                    };
                    out.push(
                        ColumnManipulation::AddColumn {
                            column: want,
                            action: field.add_action,
                            default,
                        },
                    );
                },
                Some(j) => {
                    if column_differs(&db_columns[j], &want) {
                        let old = db_columns[j].duplicate();
                        out.push(
                            ColumnManipulation::AlterColumn {
                                before: old,
                                after: want,
                                action: None,
                            },
                        );
                    }
                },
            }
            proof {
                lemma_field_manips_push(db, model@.fields, i as int);
                assert(out@.map_values(|m: ColumnManipulation| m@) =~= field_manips(
                    db,
                    model@.fields.subrange(0, i + 1),
                ));
            }
            i += 1;
        }
        proof {
            assert(model@.fields.subrange(0, model@.fields.len() as int) =~= model@.fields);
        }
        Self::append_removals(out, db_columns, model, Ghost(db))
    }

    /// Appends the removal manipulations for live columns no field names.
    fn append_removals(
        manips: Vec<ColumnManipulation>,
        db_columns: &Vec<SQLColumn>,
        model: &Model,
        Ghost(db): Ghost<Seq<ColumnModel>>,
    ) -> (r: Vec<ColumnManipulation>)
        requires
            db == db_columns@.map_values(|c: SQLColumn| c@),
            manips@.map_values(|m: ColumnManipulation| m@) == field_manips(db, model@.fields),
        ensures
            r@.map_values(|m: ColumnManipulation| m@) == spec_manipulations(db, model@),
    {
        let mut out = manips;
        let ghost actions = model_dropped_actions(model@);
        let mut i: usize = 0;
        while i < db_columns.len()
            invariant
                db == db_columns@.map_values(|c: SQLColumn| c@),
                actions == model_dropped_actions(model@),
                0 <= i <= db_columns@.len(),
                out@.map_values(|m: ColumnManipulation| m@) == field_manips(db, model@.fields)
                    + remove_manips(db.subrange(0, i as int), model@.fields, actions),
            decreases db_columns@.len() - i,
        {
            let ghost out_before = out@;
            let live = &db_columns[i];
            proof {
                assert(db[i as int] == db_columns@[i as int]@);
                assert(live.name@ == db[i as int].name);
            }
            if !Self::any_field_named(model, live.name.as_str()) {
                let action = Self::dropped_action(model, live.name.as_str());
                out.push(
                    ColumnManipulation::RemoveColumn { name: live.name.clone(), action },
                );
                proof {
                    assert(find_field(model@.fields, db[i as int].name) is None);
                    assert(out@ == out_before.push(out@[out@.len() - 1]));
                    assert(out@[out@.len() - 1]@ == (ManipModel::Remove {
                        name: db[i as int].name,
                        action: dropped_action_for(actions, db[i as int].name),
                    }));
                }
            }
            proof {
                lemma_remove_manips_push(db, model@.fields, actions, i as int);
                let lhs = out@.map_values(|m: ColumnManipulation| m@);
                let rhs = field_manips(db, model@.fields) + remove_manips(
                    db.subrange(0, i + 1),
                    model@.fields,
                    actions,
                );
                let prev = field_manips(db, model@.fields) + remove_manips(
                    db.subrange(0, i as int),
                    model@.fields,
                    actions,
                );
                assert(out_before.map_values(|m: ColumnManipulation| m@) == prev);
                let tail: Seq<ManipModel> = if find_field(model@.fields, db[i as int].name)
                    is Some {
                    Seq::empty()
                } else {
                    seq![
                        ManipModel::Remove {
                            name: db[i as int].name,
                            action: dropped_action_for(actions, db[i as int].name),
                        },
                    ]
                };
                assert(remove_manips(db.subrange(0, i + 1), model@.fields, actions)
                    == remove_manips(db.subrange(0, i as int), model@.fields, actions) + tail);
                assert(lhs.len() == out@.len());
                assert(prev.len() == out_before.len());
                assert(out@.len() == out_before.len() + tail.len());
                assert(lhs.len() == rhs.len());
                assert forall|k: int| 0 <= k < lhs.len() implies lhs[k] == rhs[k] by {
                    if k < out_before.len() {
                        assert(out@[k] == out_before[k]);
                        assert(out_before.map_values(|m: ColumnManipulation| m@)[k] == prev[k]);
                    }
                }
                assert(lhs =~= rhs);
            }
            i += 1;
        }
        proof {
            assert(db.subrange(0, db.len() as int) =~= db);
        }
        out
    }

    /// Whether any declared field names the column `name`.
    fn any_field_named(model: &Model, name: &str) -> (r: bool)
        ensures
            r == (find_field(model@.fields, name@) is Some),
    {
        let mut i: usize = 0;
        while i < model.fields.len()
            invariant
                0 <= i <= model.fields@.len(),
                forall|k: int|
                    0 <= k < i ==> (#[trigger] model@.fields[k]).column_name != name@,
            decreases model.fields@.len() - i,
        {
            if strutil::str_eq(model.fields[i].column_name.as_str(), name) {
                proof {
                    lemma_find_field_skip(model@.fields, name@, i as int);
                    let tail = model@.fields.subrange(i as int, model@.fields.len() as int);
                    assert(tail[0] == model@.fields[i as int]);
                }
                return true;
            }
            i += 1;
        }
        proof {
            lemma_find_field_skip(model@.fields, name@, model@.fields.len() as int);
            assert(model@.fields.subrange(model@.fields.len() as int, model@.fields.len() as int)
                =~= Seq::<FieldModel>::empty());
        }
        false
    }

    /// The model's declared dropped-column action for `name`, if any.
    fn dropped_action(model: &Model, name: &str) -> (r: Option<u64>)
        ensures
            r == dropped_action_for(model_dropped_actions(model@), name@),
    {
        let actions: &Vec<(String, u64)> = match &model.migration {
            Some(m) => &m.dropped_actions,
            None => {
                return None;
            },
        };
        let ghost acts = model_dropped_actions(model@);
        let mut i: usize = 0;
        while i < actions.len()
            invariant
                acts == model_dropped_actions(model@),
                acts == actions@.map_values(|p: (String, u64)| (p.0@, p.1)),
                0 <= i <= actions@.len(),
                forall|k: int| 0 <= k < i ==> (#[trigger] acts[k]).0 != name@,
            decreases actions@.len() - i,
        {
            if strutil::str_eq(actions[i].0.as_str(), name) {
                proof {
                    lemma_dropped_action_skip(acts, name@, i as int);
                    let tail = acts.subrange(i as int, acts.len() as int);
                    assert(tail[0] == acts[i as int]);
                }
                return Some(actions[i].1);
            }
            i += 1;
        }
        proof {
            lemma_dropped_action_skip(acts, name@, acts.len() as int);
            assert(acts.subrange(acts.len() as int, acts.len() as int) =~= Seq::<
                (Seq<char>, u64),
            >::empty());
        }
        None
    }
}

/// The mathematical content of one row of SQLite's column-info pragma.
pub ghost struct SqlitePragmaRowModel {
    pub name: Seq<char>,
    pub column_type: Seq<char>,
    pub notnull: bool,
    pub pk: bool,
}

/// One row of SQLite's column-info pragma, as plain values.
#[derive(Debug)]
pub struct SqlitePragmaRow {
    pub name: String,
    pub column_type: String,
    pub notnull: bool,
    pub pk: bool,
}

impl View for SqlitePragmaRow {
    type V = SqlitePragmaRowModel;

    open spec fn view(&self) -> SqlitePragmaRowModel {
        SqlitePragmaRowModel {
            name: self.name@,
            column_type: self.column_type@,
            notnull: self.notnull,
            pk: self.pk,
        }
    }
}

/// The column one SQLite pragma row denotes, merged with the unique-index
/// column names and the table's auto-increment mark, which SQLite exposes
/// through two further queries; nothing when the type name is not
/// recognized.
pub open spec fn spec_decode_sqlite_column(
    row: SqlitePragmaRowModel,
    unique_names: Seq<Seq<char>>,
    table_auto_increment: bool,
) -> Option<ColumnModel> {
    match spec_decode_type(row.column_type, SQLDialect::SQLite) {
        None => None,
        Some(t) => Some(
            ColumnModel {
                name: row.name,
                column_type: t,
                not_null: row.notnull,
                auto_increment: row.pk && table_auto_increment,
                default: None,
                primary_key: row.pk,
                unique_key: unique_names.contains(row.name),
            },
        ),
    }
}

/// Whether some listed name reads `name`.
fn names_contain(names: &Vec<String>, name: &str) -> (r: bool)
    ensures
        r == names@.map_values(|s: String| s@).contains(name@),
{
    let ghost seqs = names@.map_values(|s: String| s@);
    let mut i: usize = 0;
    while i < names.len()
        invariant
            seqs == names@.map_values(|s: String| s@),
            0 <= i <= names@.len(),
            forall|k: int| 0 <= k < i ==> #[trigger] seqs[k] != name@,
        decreases names@.len() - i,
    {
        if strutil::str_eq(names[i].as_str(), name) {
            assert(seqs[i as int] == name@);
            return true;
        }
        i += 1;
    }
    false
}

impl ColumnDecoder {
    /// Merges SQLite's three per-table queries — the column-info pragma
    /// rows, the column names its unique indices cover, and whether the
    /// table was created with `AUTOINCREMENT` — into the dialect-neutral
    /// column list. Fails when any row's type name is not recognized.
    pub fn decode_sqlite_columns(
        rows: Vec<SqlitePragmaRow>,
        unique_columns: &Vec<String>,
        table_auto_increment: bool,
    ) -> (r: Result<Vec<SQLColumn>, Error>)
        ensures
            ({
                let row_models = rows@.map_values(|x: SqlitePragmaRow| x@);
                let unique_names = unique_columns@.map_values(|s: String| s@);
                match r {
                    Ok(cols) => cols@.len() == row_models.len() && forall|i: int|
                        0 <= i < row_models.len() ==> Some((#[trigger] cols@[i])@)
                            == spec_decode_sqlite_column(
                            row_models[i],
                            unique_names,
                            table_auto_increment,
                        ),
                    Err(e) => (e matches Error::FatalError(_)) && exists|i: int|
                        0 <= i < row_models.len() && spec_decode_sqlite_column(
                            #[trigger] row_models[i],
                            unique_names,
                            table_auto_increment,
                        ) is None,
                }
            }),
    {
        let ghost row_models = rows@.map_values(|x: SqlitePragmaRow| x@);
        let ghost unique_names = unique_columns@.map_values(|s: String| s@);
        let mut out: Vec<SQLColumn> = Vec::new();
        let mut i: usize = 0;
        while i < rows.len()
            invariant
                row_models == rows@.map_values(|x: SqlitePragmaRow| x@),
                unique_names == unique_columns@.map_values(|s: String| s@),
                0 <= i <= rows@.len(),
                out@.len() == i,
                forall|k: int|
                    0 <= k < i ==> Some((#[trigger] out@[k])@) == spec_decode_sqlite_column(
                        row_models[k],
                        unique_names,
                        table_auto_increment,
                    ),
            decreases rows@.len() - i,
        {
            let row = &rows[i];
            let column_type = match decode_type(row.column_type.as_str(), SQLDialect::SQLite) {
                Some(t) => t,
                None => {
                    proof {
                        assert(row_models[i as int] == rows@[i as int]@);
                        assert(spec_decode_sqlite_column(
                            row_models[i as int],
                            unique_names,
                            table_auto_increment,
                        ) is None);
                    }
                    return Err(Error::fatal("unrecognized live column type"));
                },
            };
            let unique = names_contain(unique_columns, row.name.as_str());
            let column = SQLColumn::new(
                row.name.clone(),
                column_type,
                row.notnull,
                row.pk && table_auto_increment,
                None,
                row.pk,
                unique,
            );
            out.push(column);
            i += 1;
        }
        Ok(out)
    }
}

proof fn lemma_dropped_action_skip(actions: Seq<(Seq<char>, u64)>, name: Seq<char>, i: int)
    requires
        0 <= i <= actions.len(),
        forall|k: int| 0 <= k < i ==> (#[trigger] actions[k]).0 != name,
    ensures
        dropped_action_for(actions, name) == dropped_action_for(
            actions.subrange(i, actions.len() as int),
            name,
        ),
    decreases i,
{
    if i == 0 {
        assert(actions.subrange(0, actions.len() as int) =~= actions);
    } else {
        lemma_dropped_action_skip(actions, name, i - 1);
        let tail = actions.subrange(i - 1, actions.len() as int);
        assert(tail[0] == actions[i - 1]);
        assert(tail.drop_first() =~= actions.subrange(i, actions.len() as int));
    }
}

proof fn lemma_field_manips_push(db: Seq<ColumnModel>, fields: Seq<FieldModel>, i: int)
    requires
        0 <= i < fields.len(),
    ensures
        field_manips(db, fields.subrange(0, i + 1)) == field_manips(db, fields.subrange(0, i))
            + match find_column(db, fields[i].column_name) {
            None => seq![
                ManipModel::Add {
                    column: field_column(fields[i]),
                    action: fields[i].add_action,
                    default: fields[i].default,
                },
            ],
            Some(have) => if needs_alter(have, field_column(fields[i])) {
                seq![
                    ManipModel::Alter {
                        before: have,
                        after: field_column(fields[i]),
                        action: None,
                    },
                ]
            } else {
                Seq::empty()
            },
        },
    decreases i,
{
    let prefix = fields.subrange(0, i);
    let extended = fields.subrange(0, i + 1);
    if i == 0 {
        assert(extended =~= seq![fields[0]]);
        assert(extended.drop_first() =~= Seq::<FieldModel>::empty());
        assert(prefix =~= Seq::<FieldModel>::empty());
        match find_column(db, fields[0].column_name) {
            None => {
                assert(field_manips(db, extended) =~= seq![
                    ManipModel::Add {
                        column: field_column(fields[0]),
                        action: fields[0].add_action,
                        default: fields[0].default,
                    },
                ]);
            },
            Some(have) => {
                if needs_alter(have, field_column(fields[0])) {
                    assert(field_manips(db, extended) =~= seq![
                        ManipModel::Alter {
                            before: have,
                            after: field_column(fields[0]),
                            action: None,
                        },
                    ]);
                } else {
                    assert(field_manips(db, extended) =~= Seq::<ManipModel>::empty());
                }
            },
        }
    } else {
        assert(extended[0] == fields[0]);
        assert(prefix[0] == fields[0]);
        assert(extended.drop_first() =~= fields.drop_first().subrange(0, i));
        assert(prefix.drop_first() =~= fields.drop_first().subrange(0, i - 1));
        assert(fields.drop_first()[i - 1] == fields[i]);
        lemma_field_manips_push(db, fields.drop_first(), i - 1);
        assert(fields.drop_first().subrange(0, i - 1 + 1) =~= extended.drop_first());
    }
}

proof fn lemma_remove_manips_push(
    db: Seq<ColumnModel>,
    fields: Seq<FieldModel>,
    actions: Seq<(Seq<char>, u64)>,
    i: int,
)
    requires
        0 <= i < db.len(),
    ensures
        remove_manips(db.subrange(0, i + 1), fields, actions) == remove_manips(
            db.subrange(0, i),
            fields,
            actions,
        ) + if find_field(fields, db[i].name) is Some {
            Seq::<ManipModel>::empty()
        } else {
            seq![
                ManipModel::Remove {
                    name: db[i].name,
                    action: dropped_action_for(actions, db[i].name),
                },
            ]
        },
    decreases i,
{
    let prefix = db.subrange(0, i);
    let extended = db.subrange(0, i + 1);
    if i == 0 {
        assert(extended =~= seq![db[0]]);
        assert(extended.drop_first() =~= Seq::<ColumnModel>::empty());
        assert(prefix =~= Seq::<ColumnModel>::empty());
        if find_field(fields, db[0].name) is Some {
            assert(remove_manips(extended, fields, actions) =~= Seq::<ManipModel>::empty());
        } else {
            assert(remove_manips(extended, fields, actions) =~= seq![
                ManipModel::Remove {
                    name: db[0].name,
                    action: dropped_action_for(actions, db[0].name),
                },
            ]);
        }
    } else {
        assert(extended[0] == db[0]);
        assert(prefix[0] == db[0]);
        assert(extended.drop_first() =~= db.drop_first().subrange(0, i));
        assert(prefix.drop_first() =~= db.drop_first().subrange(0, i - 1));
        assert(db.drop_first()[i - 1] == db[i]);
        lemma_remove_manips_push(db.drop_first(), fields, actions, i - 1);
        assert(db.drop_first().subrange(0, i - 1 + 1) =~= extended.drop_first());
    }
}

} // verus!
