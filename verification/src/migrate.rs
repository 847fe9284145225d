//! The orchestrator: given the declared models and a snapshot of the live
//! schema, computes the ordered sequence of DDL statements and post-actions
//! that converges the database, enforcing the safety gates — no in-place
//! column alteration on a dialect that cannot, and no data-loss hazard
//! without explicit authorization. Callers execute the returned steps in
//! order against one connection and abort on the first failure.
//!
//! Creates and drops are not ordered by foreign-key dependency: cleanup
//! drops come in working-set order, an open limitation a caller with
//! referential constraints must keep in mind.
use crate::column::ColumnModel;
use crate::column::SQLColumn;
use crate::decoder::ColumnDecoder;
use crate::decoder::ManipModel;
use crate::decoder::ColumnManipulation;
use crate::decoder::spec_any_alter;
use crate::decoder::spec_is_add_non_null;
use crate::decoder::spec_manipulations;
use crate::dialect::SQLDialect;
use crate::encode::encode_value;
use crate::encode::spec_encodable;
use crate::encode::spec_encoded;
use crate::error::Error;
use crate::model::Model;
use crate::model::ModelContent;
use crate::stmt;
use crate::strutil;
use vstd::prelude::*;

verus! {

/// The mathematical content of one introspected live table.
pub ghost struct LiveTableModel {
    pub name: Seq<char>,
    pub columns: Seq<ColumnModel>,
    pub has_records: bool,
}

/// One live table, as the introspector hands it in: its name, its decoded
/// columns, and whether it holds at least one record.
#[derive(Debug)]
pub struct LiveTable {
    pub name: String,
    pub columns: Vec<SQLColumn>,
    pub has_records: bool,
}

impl View for LiveTable {
    type V = LiveTableModel;

    open spec fn view(&self) -> LiveTableModel {
        LiveTableModel {
            name: self.name@,
            columns: self.columns@.map_values(|c: SQLColumn| c@),
            has_records: self.has_records,
        }
    }
}

/// The mathematical content of one convergence step.
pub ghost enum StepModel {
    Execute(Seq<char>),
    PostAction(u64),
}

/// One step of a convergence run: a statement to execute against the
/// connection, or an opaque post-action to run at this point.
#[derive(Debug)]
pub enum MigrationStep {
    Execute(String),
    PostAction(u64),
}

impl View for MigrationStep {
    type V = StepModel;

    open spec fn view(&self) -> StepModel {
        match self {
            MigrationStep::Execute(s) => StepModel::Execute(s@),
            MigrationStep::PostAction(a) => StepModel::PostAction(*a),
        }
    }
}

/// Whether some live table is named `name`.
pub open spec fn has_live(tables: Seq<LiveTableModel>, name: Seq<char>) -> bool
    decreases tables.len(),
{
    if tables.len() == 0 {
        false
    } else if tables[0].name == name {
        true
    } else {
        has_live(tables.drop_first(), name)
    }
}

/// The first live table named `name`; meaningful only when one exists.
pub open spec fn get_live(tables: Seq<LiveTableModel>, name: Seq<char>) -> LiveTableModel
    decreases tables.len(),
{
    if tables.len() == 0 {
        LiveTableModel { name: Seq::empty(), columns: Seq::empty(), has_records: false }
    } else if tables[0].name == name {
        tables[0]
    } else {
        get_live(tables.drop_first(), name)
    }
}

/// The working set with the first table named `name` removed.
pub open spec fn remove_live(tables: Seq<LiveTableModel>, name: Seq<char>) -> Seq<LiveTableModel>
    decreases tables.len(),
{
    if tables.len() == 0 {
        tables
    } else if tables[0].name == name {
        tables.drop_first()
    } else {
        seq![tables[0]] + remove_live(tables.drop_first(), name)
    }
}

/// The working set with the first table named `from_name` renamed to
/// `to_name`, columns and record flag kept.
pub open spec fn rename_live(
    tables: Seq<LiveTableModel>,
    from_name: Seq<char>,
    to_name: Seq<char>,
) -> Seq<LiveTableModel>
    decreases tables.len(),
{
    if tables.len() == 0 {
        tables
    } else if tables[0].name == from_name {
        seq![LiveTableModel { name: to_name, ..tables[0] }] + tables.drop_first()
    } else {
        seq![tables[0]] + rename_live(tables.drop_first(), from_name, to_name)
    }
}

/// The steps an optional post-action contributes.
pub open spec fn action_steps(action: Option<u64>) -> Seq<StepModel> {
    match action {
        Some(a) => seq![StepModel::PostAction(a)],
        None => Seq::empty(),
    }
}

/// Statements, as execute steps.
pub open spec fn exec_steps(texts: Seq<Seq<char>>) -> Seq<StepModel> {
    texts.map_values(|t: Seq<char>| StepModel::Execute(t))
}

/// The PostgreSQL clauses that alter one column: a `TYPE` change when the
/// type differs, and a `SET DEFAULT` or `DROP DEFAULT` clause when a
/// default is added, changed or removed — each its own statement, since
/// that dialect refuses to combine them.
pub open spec fn spec_psql_alter_clauses(
    table: Seq<char>,
    before: ColumnModel,
    after: ColumnModel,
) -> Seq<Seq<char>> {
    let d = SQLDialect::PostgreSQL;
    let prefix = "ALTER TABLE "@ + stmt::ident_chars(d, table) + " ALTER COLUMN "@
        + stmt::ident_chars(d, after.name);
    (if before.column_type != after.column_type {
        seq![prefix + " TYPE "@ + after.column_type.type_name_seq(d)]
    } else {
        Seq::empty()
    }) + (match (before.default, after.default) {
        (Option::None, Option::Some(text)) => seq![prefix + " SET DEFAULT "@ + text],
        (Option::Some(_), Option::None) => seq![prefix + " DROP DEFAULT"@],
        (Option::Some(old_text), Option::Some(new_text)) => if old_text != new_text {
            seq![prefix + " SET DEFAULT "@ + new_text]
        } else {
            Seq::empty()
        },
        (Option::None, Option::None) => Seq::empty(),
    })
}

/// The message of the fatal error raised when a dialect cannot alter
/// columns in place.
pub open spec fn alter_unsupported_msg() -> Seq<char> {
    "SQLite doesn't support column altering"@
}

/// The message of the fatal data-loss error for adding the not-null
/// column `column` without a default to the populated table `table`.
pub open spec fn add_non_null_msg(column: Seq<char>, table: Seq<char>) -> Seq<char> {
    "Cannot add new non null column `"@ + column + "', table `"@ + table
        + "' has records. Consider add a default value or drop the table."@
}

/// The message of the fatal error raised when a default value cannot be
/// encoded for the dialect.
pub open spec fn unsupported_value_msg() -> Seq<char> {
    "UnsupportedType: this value cannot be encoded for the dialect"@
}

/// The name of the first manipulation's column that adds a not-null
/// column without a default.
pub open spec fn first_add_non_null_name(manips: Seq<ManipModel>) -> Seq<char>
    decreases manips.len(),
{
    if manips.len() == 0 {
        Seq::empty()
    } else if spec_is_add_non_null(manips[0]) {
        manips[0]->Add_column.name
    } else {
        first_add_non_null_name(manips.drop_first())
    }
}

/// Whether any manipulation adds a not-null column without a default.
pub open spec fn any_add_non_null(manips: Seq<ManipModel>) -> bool {
    exists|i: int| 0 <= i < manips.len() && spec_is_add_non_null(#[trigger] manips[i])
}

/// The steps one manipulation renders to, or the fatal message when its
/// default value cannot be encoded.
pub open spec fn one_manip_steps(
    dialect: SQLDialect,
    table: Seq<char>,
    m: ManipModel,
) -> Result<Seq<StepModel>, Seq<char>> {
    match m {
        ManipModel::Add { column, action, default } => match default {
            Some(v) => if spec_encodable(v, dialect) {
                Ok(
                    seq![
                        StepModel::Execute(
                            stmt::add_column_chars(
                                dialect,
                                table,
                                ColumnModel { default: Some(spec_encoded(v, dialect)), ..column },
                            ),
                        ),
                    ] + action_steps(action),
                )
            } else {
                Err(unsupported_value_msg())
            },
            None => Ok(
                seq![StepModel::Execute(stmt::add_column_chars(dialect, table, column))]
                    + action_steps(action),
            ),
        },
        ManipModel::Alter { before, after, .. } => if !(dialect is PostgreSQL) {
            Ok(seq![StepModel::Execute(stmt::modify_column_chars(dialect, table, after))])
        } else {
            Ok(exec_steps(spec_psql_alter_clauses(table, before, after)))
        },
        ManipModel::Remove { name, action } => Ok(
            action_steps(action) + seq![
                StepModel::Execute(stmt::drop_column_chars(dialect, table, name)),
            ],
        ),
        ManipModel::Rename { from_name, to_name } => Ok(
            seq![
                StepModel::Execute(
                    stmt::rename_column_chars(dialect, table, from_name, to_name),
                ),
            ],
        ),
    }
}

/// The steps a manipulation list renders to, in emission order, or the
/// first fatal message.
pub open spec fn manip_steps(dialect: SQLDialect, table: Seq<char>, manips: Seq<ManipModel>) -> Result<
    Seq<StepModel>,
    Seq<char>,
>
    decreases manips.len(),
{
    if manips.len() == 0 {
        Ok(Seq::empty())
    } else {
        match one_manip_steps(dialect, table, manips[0]) {
            Err(msg) => Err(msg),
            Ok(head) => match manip_steps(dialect, table, manips.drop_first()) {
                Err(msg) => Err(msg),
                Ok(rest) => Ok(head + rest),
            },
        }
    }
}

/// The rename pass of one model: when its table is missing live, the first
/// name of its rename history that exists live is renamed to the model's
/// table name in place. Gives the rename statement and the updated working
/// set, or nothing when no prior name matches.
pub open spec fn spec_rename_pass(
    tables: Seq<LiveTableModel>,
    renamed: Seq<Seq<char>>,
    table_name: Seq<char>,
) -> Option<(Seq<char>, Seq<LiveTableModel>)>
    decreases renamed.len(),
{
    if renamed.len() == 0 {
        None
    } else if has_live(tables, renamed[0]) {
        Some((renamed[0], rename_live(tables, renamed[0], table_name)))
    } else {
        spec_rename_pass(tables, renamed.drop_first(), table_name)
    }
}

/// The convergence plan of one model against the working set: the steps it
/// contributes and the updated working set, or the first fatal message.
/// A virtual model contributes nothing. A missing table is first looked
/// for under the model's rename history and renamed in place when found;
/// a table still missing is created from the full declared column set; an
/// existing table is removed from the working set and its manipulation
/// list rendered, behind the two safety gates.
pub open spec fn spec_model_plan(
    dialect: SQLDialect,
    m: ModelContent,
    tables: Seq<LiveTableModel>,
    reset: bool,
) -> Result<(Seq<StepModel>, Seq<LiveTableModel>), Seq<char>> {
    if m.is_virtual {
        Ok((Seq::empty(), tables))
    } else {
        let renamed: Seq<Seq<char>> = match m.migration {
            Some(mig) => mig.renamed,
            None => Seq::empty(),
        };
        let pre = if !has_live(tables, m.table_name) {
            match spec_rename_pass(tables, renamed, m.table_name) {
                Some((from_name, updated)) => (
                    seq![
                        StepModel::Execute(
                            stmt::rename_table_chars(dialect, from_name, m.table_name),
                        ),
                    ],
                    updated,
                ),
                None => (Seq::<StepModel>::empty(), tables),
            }
        } else {
            (Seq::<StepModel>::empty(), tables)
        };
        let pre_steps = pre.0;
        let tables1 = pre.1;
        if !has_live(tables1, m.table_name) {
            Ok(
                (
                    pre_steps + seq![
                        StepModel::Execute(stmt::create_table_chars(dialect, m)),
                    ],
                    tables1,
                ),
            )
        } else {
            let live = get_live(tables1, m.table_name);
            let remaining = remove_live(tables1, m.table_name);
            let manips = spec_manipulations(live.columns, m);
            if spec_any_alter(live.columns, m.desired_columns()) && dialect is SQLite {
                Err(alter_unsupported_msg())
            } else if live.has_records && any_add_non_null(manips) {
                if reset {
                    Ok(
                        (
                            pre_steps + seq![
                                StepModel::Execute(stmt::drop_table_chars(dialect, m.table_name)),
                                StepModel::Execute(stmt::create_table_chars(dialect, m)),
                            ],
                            remaining,
                        ),
                    )
                } else {
                    Err(add_non_null_msg(first_add_non_null_name(manips), m.table_name))
                }
            } else {
                match manip_steps(dialect, m.table_name, manips) {
                    Err(msg) => Err(msg),
                    Ok(steps) => Ok((pre_steps + steps, remaining)),
                }
            }
        }
    }
}

/// The plans of the models in declaration order, threaded through the
/// working set, or the first fatal message.
pub open spec fn spec_migrate_models(
    dialect: SQLDialect,
    models: Seq<ModelContent>,
    tables: Seq<LiveTableModel>,
    reset: bool,
) -> Result<(Seq<StepModel>, Seq<LiveTableModel>), Seq<char>>
    decreases models.len(),
{
    if models.len() == 0 {
        Ok((Seq::empty(), tables))
    } else {
        match spec_model_plan(dialect, models[0], tables, reset) {
            Err(msg) => Err(msg),
            Ok(head) => match spec_migrate_models(dialect, models.drop_first(), head.1, reset) {
                Err(msg) => Err(msg),
                Ok(rest) => Ok((head.0 + rest.0, rest.1)),
            },
        }
    }
}

/// The statements that drop every table left in the working set, in its
/// order.
pub open spec fn drop_steps(dialect: SQLDialect, tables: Seq<LiveTableModel>) -> Seq<StepModel> {
    tables.map_values(|t: LiveTableModel| StepModel::Execute(
        stmt::drop_table_chars(dialect, t.name),
    ))
}

/// The complete convergence plan: each declared model's plan in order,
/// then a drop of every live table no model accounted for.
pub open spec fn spec_migrate(
    dialect: SQLDialect,
    models: Seq<ModelContent>,
    tables: Seq<LiveTableModel>,
    reset: bool,
) -> Result<Seq<StepModel>, Seq<char>> {
    match spec_migrate_models(dialect, models, tables, reset) {
        Err(msg) => Err(msg),
        Ok(done) => Ok(done.0 + drop_steps(dialect, done.1)),
    }
}

proof fn lemma_live_found(tables: Seq<LiveTableModel>, name: Seq<char>, i: int)
    requires
        0 <= i < tables.len(),
        tables[i].name == name,
        forall|k: int| 0 <= k < i ==> (#[trigger] tables[k]).name != name,
    ensures
        has_live(tables, name),
        get_live(tables, name) == tables[i],
        remove_live(tables, name) == tables.remove(i),
        forall|to_name: Seq<char>|
            #[trigger] rename_live(tables, name, to_name) == tables.update(
                i,
                LiveTableModel { name: to_name, ..tables[i] },
            ),
    decreases i,
{
    if i == 0 {
        assert(remove_live(tables, name) =~= tables.remove(0));
        assert forall|to_name: Seq<char>| #[trigger] rename_live(tables, name, to_name)
            == tables.update(0, LiveTableModel { name: to_name, ..tables[0] }) by {
            assert(rename_live(tables, name, to_name) =~= tables.update(
                0,
                LiveTableModel { name: to_name, ..tables[0] },
            ));
        }
    } else {
        assert(tables.drop_first()[i - 1] == tables[i]);
        assert(forall|k: int|
            0 <= k < i - 1 ==> (#[trigger] tables.drop_first()[k]).name != name);
        lemma_live_found(tables.drop_first(), name, i - 1);
        assert(remove_live(tables, name) =~= tables.remove(i));
        assert forall|to_name: Seq<char>| #[trigger] rename_live(tables, name, to_name)
            == tables.update(i, LiveTableModel { name: to_name, ..tables[i] }) by {
            assert(rename_live(tables.drop_first(), name, to_name) == tables.drop_first().update(
                i - 1,
                LiveTableModel { name: to_name, ..tables.drop_first()[i - 1] },
            ));
            assert(rename_live(tables, name, to_name) =~= tables.update(
                i,
                LiveTableModel { name: to_name, ..tables[i] },
            ));
        }
    }
}

proof fn lemma_live_absent(tables: Seq<LiveTableModel>, name: Seq<char>)
    requires
        forall|k: int| 0 <= k < tables.len() ==> (#[trigger] tables[k]).name != name,
    ensures
        !has_live(tables, name),
    decreases tables.len(),
{
    if tables.len() > 0 {
        assert(forall|k: int|
            0 <= k < tables.drop_first().len() ==> (#[trigger] tables.drop_first()[k]).name
                != name);
        lemma_live_absent(tables.drop_first(), name);
    }
}

/// Looks a live table up by name; gives the index of the first match,
/// together with what the lookup means for the working-set operations.
fn find_table_index(tables: &Vec<LiveTable>, name: &str) -> (r: Option<usize>)
    ensures
        match r {
            Some(i) => {
                let m = tables@.map_values(|t: LiveTable| t@);
                &&& i < m.len()
                &&& m[i as int].name == name@
                &&& has_live(m, name@)
                &&& get_live(m, name@) == m[i as int]
                &&& remove_live(m, name@) == m.remove(i as int)
                &&& forall|to_name: Seq<char>|
                    #[trigger] rename_live(m, name@, to_name) == m.update(
                        i as int,
                        LiveTableModel { name: to_name, ..m[i as int] },
                    )
            },
            None => !has_live(tables@.map_values(|t: LiveTable| t@), name@),
        },
{
    let ghost m = tables@.map_values(|t: LiveTable| t@);
    let mut i: usize = 0;
    while i < tables.len()
        invariant
            m == tables@.map_values(|t: LiveTable| t@),
            0 <= i <= tables@.len(),
            forall|k: int| 0 <= k < i ==> (#[trigger] m[k]).name != name@,
        decreases tables@.len() - i,
    {
        if strutil::str_eq(tables[i].name.as_str(), name) {
            proof {
                lemma_live_found(m, name@, i as int);
            }
            return Some(i);
        }
        i += 1;
    }
    proof {
        lemma_live_absent(m, name@);
    }
    None
}

pub proof fn lemma_rename_pass_skip(
    tables: Seq<LiveTableModel>,
    renamed: Seq<Seq<char>>,
    table_name: Seq<char>,
    i: int,
)
    requires
        0 <= i <= renamed.len(),
        forall|k: int| 0 <= k < i ==> !has_live(tables, #[trigger] renamed[k]),
    ensures
        spec_rename_pass(tables, renamed, table_name) == spec_rename_pass(
            tables,
            renamed.subrange(i, renamed.len() as int),
            table_name,
        ),
    decreases i,
{
    if i == 0 {
        assert(renamed.subrange(0, renamed.len() as int) =~= renamed);
    } else {
        lemma_rename_pass_skip(tables, renamed, table_name, i - 1);
        let tail = renamed.subrange(i - 1, renamed.len() as int);
        assert(tail[0] == renamed[i - 1]);
        assert(tail.drop_first() =~= renamed.subrange(i, renamed.len() as int));
    }
}

proof fn lemma_manip_steps_push(
    dialect: SQLDialect,
    table: Seq<char>,
    manips: Seq<ManipModel>,
    m: ManipModel,
)
    ensures
        manip_steps(dialect, table, manips.push(m)) == match manip_steps(
            dialect,
            table,
            manips,
        ) {
            Err(msg) => Err(msg),
            Ok(s) => match one_manip_steps(dialect, table, m) {
                Err(msg) => Err(msg),
                Ok(hs) => Ok(s + hs),
            },
        },
    decreases manips.len(),
{
    if manips.len() == 0 {
        assert(manips.push(m) =~= seq![m]);
        assert(manips.push(m)[0] == m);
        assert(manips.push(m).drop_first() =~= Seq::<ManipModel>::empty());
        assert(manip_steps(dialect, table, manips) == Ok::<_, Seq<char>>(
            Seq::<StepModel>::empty(),
        ));
        assert(manip_steps(dialect, table, manips.push(m).drop_first()) == Ok::<_, Seq<char>>(
            Seq::<StepModel>::empty(),
        ));
        match one_manip_steps(dialect, table, m) {
            Err(msg) => {
                assert(manip_steps(dialect, table, manips.push(m)) == Err::<
                    Seq<StepModel>,
                    _,
                >(msg));
            },
            Ok(hs) => {
                assert(manip_steps(dialect, table, manips.push(m)) == Ok::<_, Seq<char>>(
                    hs + Seq::<StepModel>::empty(),
                ));
                assert(Seq::<StepModel>::empty() + hs =~= hs);
                assert(hs + Seq::<StepModel>::empty() =~= hs);
            },
        }
    } else {
        assert(manips.push(m)[0] == manips[0]);
        assert(manips.push(m).drop_first() =~= manips.drop_first().push(m));
        lemma_manip_steps_push(dialect, table, manips.drop_first(), m);
        match one_manip_steps(dialect, table, manips[0]) {
            Err(_) => {},
            Ok(head) => {
                match manip_steps(dialect, table, manips.drop_first()) {
                    Err(_) => {},
                    Ok(rest) => {
                        match one_manip_steps(dialect, table, m) {
                            Err(_) => {},
                            Ok(hs) => {
                                assert(head + (rest + hs) =~= (head + rest) + hs);
                            },
                        }
                    },
                }
            },
        }
    }
}

proof fn lemma_manip_steps_err(
    dialect: SQLDialect,
    table: Seq<char>,
    manips: Seq<ManipModel>,
    i: int,
)
    requires
        0 <= i < manips.len(),
        manip_steps(dialect, table, manips.subrange(0, i)) is Ok,
        one_manip_steps(dialect, table, manips[i]) is Err,
    ensures
        manip_steps(dialect, table, manips) == Err::<Seq<StepModel>, Seq<char>>(
            one_manip_steps(dialect, table, manips[i])->Err_0,
        ),
    decreases i,
{
    if i == 0 {
    } else {
        let tail = manips.drop_first();
        assert(manips.subrange(0, i)[0] == manips[0]);
        assert(manips.subrange(0, i).drop_first() =~= tail.subrange(0, i - 1));
        assert(tail[i - 1] == manips[i]);
        lemma_manip_steps_err(dialect, table, tail, i - 1);
    }
}

/// Pushes one execute step per rendered clause.
#[verifier::loop_isolation(false)]
fn push_exec_clauses(steps: &mut Vec<MigrationStep>, clauses: Vec<String>)
    ensures
        final(steps)@.map_values(|s: MigrationStep| s@) == old(steps)@.map_values(
            |s: MigrationStep| s@,
        ) + exec_steps(clauses@.map_values(|s: String| s@)),
{
    let ghost texts = clauses@.map_values(|s: String| s@);
    let mut k: usize = 0;
    proof {
        assert(exec_steps(texts.subrange(0, 0)) =~= Seq::<StepModel>::empty());
        assert(steps@.map_values(|s: MigrationStep| s@) =~= steps@.map_values(
            |s: MigrationStep| s@,
        ) + exec_steps(texts.subrange(0, 0)));
    }
    while k < clauses.len()
        invariant
            0 <= k <= clauses@.len(),
            steps@.map_values(|s: MigrationStep| s@) == old(steps)@.map_values(
                |s: MigrationStep| s@,
            ) + exec_steps(texts.subrange(0, k as int)),
        decreases clauses@.len() - k,
    {
        let text = clauses[k].clone();
        steps.push(MigrationStep::Execute(text));
        proof {
            assert(texts.subrange(0, k + 1) =~= texts.subrange(0, k as int).push(
                texts[k as int],
            ));
            assert(exec_steps(texts.subrange(0, k + 1)) =~= exec_steps(
                texts.subrange(0, k as int),
            ).push(StepModel::Execute(texts[k as int])));
            assert(text@ == texts[k as int]);
            assert(steps@.map_values(|s: MigrationStep| s@).len() == steps@.len());
            assert(old(steps)@.map_values(|s: MigrationStep| s@).len() == old(steps)@.len());
            assert(exec_steps(texts.subrange(0, k as int)).len() == k);
            assert(exec_steps(texts.subrange(0, k + 1)).len() == k + 1);
            let lhs = steps@.map_values(|s: MigrationStep| s@);
            let rhs = old(steps)@.map_values(|s: MigrationStep| s@) + exec_steps(
                texts.subrange(0, k + 1),
            );
            let prev = old(steps)@.map_values(|s: MigrationStep| s@) + exec_steps(
                texts.subrange(0, k as int),
            );
            assert(lhs.len() == rhs.len());
            assert forall|j: int| 0 <= j < lhs.len() implies lhs[j] == rhs[j] by {
                if j < prev.len() {
                    assert(lhs[j] == prev[j]);
                    if j >= old(steps)@.len() {
                        assert(exec_steps(texts.subrange(0, k as int))[j - old(steps)@.len()]
                            == StepModel::Execute(texts.subrange(0, k as int)[j - old(
                            steps,
                        )@.len()]));
                        assert(exec_steps(texts.subrange(0, k + 1))[j - old(steps)@.len()]
                            == StepModel::Execute(texts.subrange(0, k + 1)[j - old(
                            steps,
                        )@.len()]));
                    }
                } else {
                    assert(lhs[j] == StepModel::Execute(texts[k as int]));
                    assert(rhs[j] == exec_steps(texts.subrange(0, k + 1))[k as int]);
                    assert(exec_steps(texts.subrange(0, k + 1))[k as int] == StepModel::Execute(
                        texts.subrange(0, k + 1)[k as int],
                    ));
                }
            }
            assert(lhs =~= rhs);
        }
        k += 1;
    }
    proof {
        assert(texts.subrange(0, texts.len() as int) =~= texts);
    }
}

/// Renders a manipulation list into steps, encoding each declared default
/// for the dialect; fails with the fatal encoding error when a default
/// cannot be represented.
#[verifier::loop_isolation(false)]
fn render_manips(dialect: SQLDialect, table: &str, manips: &Vec<ColumnManipulation>) -> (r:
    Result<Vec<MigrationStep>, Error>)
    ensures
        match r {
            Ok(steps) => manip_steps(
                dialect,
                table@,
                manips@.map_values(|m: ColumnManipulation| m@),
            ) == Ok::<_, Seq<char>>(steps@.map_values(|s: MigrationStep| s@)),
            Err(e) => e matches Error::FatalError(f) && manip_steps(
                dialect,
                table@,
                manips@.map_values(|m: ColumnManipulation| m@),
            ) == Err::<Seq<StepModel>, _>(f.0@),
        },
{
    let ghost all = manips@.map_values(|m: ColumnManipulation| m@);
    let mut steps: Vec<MigrationStep> = Vec::new();
    proof {
        assert(all.subrange(0, 0) =~= Seq::<ManipModel>::empty());
        assert(steps@.map_values(|s: MigrationStep| s@) =~= Seq::<StepModel>::empty());
    }
    let mut i: usize = 0;
    while i < manips.len()
        invariant
            0 <= i <= manips@.len(),
            manip_steps(dialect, table@, all.subrange(0, i as int)) == Ok::<_, Seq<char>>(
                steps@.map_values(|s: MigrationStep| s@),
            ),
        decreases manips@.len() - i,
    {
        let ghost steps_before = steps@;
        match &manips[i] {
            ColumnManipulation::AddColumn { column, action, default } => {
                let mut c = column.duplicate();
                match default {
                    Some(v) => {
                        match encode_value(v, dialect) {
                            Ok(lit) => {
                                c.set_default(Some(lit));
                            },
                            Err(e) => {
                                proof {
                                    assert(one_manip_steps(dialect, table@, all[i as int])
                                        is Err);
                                    lemma_manip_steps_err(dialect, table@, all, i as int);
                                }
                                return Err(e);
                            },
                        }
                    },
                    None => {},
                }
                let statement = stmt::add_column_statement(dialect, table, &c);
                steps.push(MigrationStep::Execute(statement));
                match action {
                    Some(a) => {
                        steps.push(MigrationStep::PostAction(*a));
                    },
                    None => {},
                }
            },
            ColumnManipulation::AlterColumn { before, after, .. } => {
                if !matches!(dialect, SQLDialect::PostgreSQL) {
                    let statement = stmt::modify_column_statement(dialect, table, after);
                    steps.push(MigrationStep::Execute(statement));
                } else {
                    let clauses = SQLMigration::psql_alter_clauses(table, before, after);
                    push_exec_clauses(&mut steps, clauses);
                }
            },
            ColumnManipulation::RemoveColumn { name, action } => {
                match action {
                    Some(a) => {
                        steps.push(MigrationStep::PostAction(*a));
                    },
                    None => {},
                }
                let statement = stmt::drop_column_statement(dialect, table, name.as_str());
                steps.push(MigrationStep::Execute(statement));
            },
            ColumnManipulation::RenameColumn { from_name, to_name } => {
                let statement = stmt::rename_column_statement(
                    dialect,
                    table,
                    from_name.as_str(),
                    to_name.as_str(),
                );
                steps.push(MigrationStep::Execute(statement));
            },
        }
        proof {
            lemma_manip_steps_push(dialect, table@, all.subrange(0, i as int), all[i as int]);
            assert(all.subrange(0, i + 1) =~= all.subrange(0, i as int).push(all[i as int]));
            let rendered = one_manip_steps(dialect, table@, all[i as int])->Ok_0;
            assert(steps@.map_values(|s: MigrationStep| s@) =~= steps_before.map_values(
                |s: MigrationStep| s@,
            ) + rendered);
        }
        i += 1;
    }
    proof {
        assert(all.subrange(0, all.len() as int) =~= all);
    }
    Ok(steps)
}

/// Finds the first manipulation that adds a not-null column without a
/// default, if any.
fn find_add_non_null(manips: &Vec<ColumnManipulation>) -> (r: Option<usize>)
    ensures
        match r {
            Some(i) => {
                let all = manips@.map_values(|m: ColumnManipulation| m@);
                &&& i < all.len()
                &&& spec_is_add_non_null(all[i as int])
                &&& any_add_non_null(all)
                &&& first_add_non_null_name(all) == all[i as int]->Add_column.name
            },
            None => !any_add_non_null(manips@.map_values(|m: ColumnManipulation| m@)),
        },
{
    let ghost all = manips@.map_values(|m: ColumnManipulation| m@);
    let mut i: usize = 0;
    while i < manips.len()
        invariant
            all == manips@.map_values(|m: ColumnManipulation| m@),
            0 <= i <= manips@.len(),
            forall|k: int| 0 <= k < i ==> !spec_is_add_non_null(#[trigger] all[k]),
        decreases manips@.len() - i,
    {
        if manips[i].is_add_column_non_null() {
            proof {
                lemma_first_ann_skip(all, i as int);
                let tail = all.subrange(i as int, all.len() as int);
                assert(tail[0] == all[i as int]);
            }
            return Some(i);
        }
        i += 1;
    }
    None
}

proof fn lemma_first_ann_skip(manips: Seq<ManipModel>, i: int)
    requires
        0 <= i <= manips.len(),
        forall|k: int| 0 <= k < i ==> !spec_is_add_non_null(#[trigger] manips[k]),
    ensures
        first_add_non_null_name(manips) == first_add_non_null_name(
            manips.subrange(i, manips.len() as int),
        ),
    decreases i,
{
    if i == 0 {
        assert(manips.subrange(0, manips.len() as int) =~= manips);
    } else {
        lemma_first_ann_skip(manips, i - 1);
        let tail = manips.subrange(i - 1, manips.len() as int);
        assert(tail[0] == manips[i - 1]);
        assert(tail.drop_first() =~= manips.subrange(i, manips.len() as int));
    }
}

/// Computes and applies convergence plans.
pub struct SQLMigration {}

impl SQLMigration {
    /// The PostgreSQL clauses that alter one column, each its own
    /// statement: a `TYPE` change when the type differs, and a
    /// `SET DEFAULT` or `DROP DEFAULT` clause when a default is added,
    /// changed or removed.
    pub fn psql_alter_clauses(table: &str, old_column: &SQLColumn, new_column: &SQLColumn) -> (r:
        Vec<String>)
        ensures
            r@.map_values(|s: String| s@) == spec_psql_alter_clauses(
                table@,
                old_column@,
                new_column@,
            ),
    {
        let d = SQLDialect::PostgreSQL;
        let mut prefix = String::from_str("ALTER TABLE ");
        let table_ident = stmt::quote_ident(d, table);
        prefix.append(table_ident.as_str());
        prefix.append(" ALTER COLUMN ");
        let name_ident = stmt::quote_ident(d, new_column.name.as_str());
        prefix.append(name_ident.as_str());
        let mut result: Vec<String> = Vec::new();
        if column_type_differs(old_column, new_column) {
            let mut s = prefix.clone();
            s.append(" TYPE ");
            let spelled = crate::encode::ToSQLString::to_string(&new_column.column_type, d);
            s.append(spelled.as_str());
            result.push(s);
        }
        match (&old_column.default, &new_column.default) {
            (Option::None, Option::Some(text)) => {
                let mut s = prefix.clone();
                s.append(" SET DEFAULT ");
                s.append(text.as_str());
                result.push(s);
            },
            (Option::Some(_), Option::None) => {
                let mut s = prefix.clone();
                s.append(" DROP DEFAULT");
                result.push(s);
            },
            (Option::Some(old_text), Option::Some(new_text)) => {
                if !strutil::str_eq(old_text.as_str(), new_text.as_str()) {
                    let mut s = prefix.clone();
                    s.append(" SET DEFAULT ");
                    s.append(new_text.as_str());
                    result.push(s);
                }
            },
            (Option::None, Option::None) => {},
        }
        proof {
            assert(result@.map_values(|s: String| s@) =~= spec_psql_alter_clauses(
                table@,
                old_column@,
                new_column@,
            ));
        }
        result
    }
}

/// Performs a model's rename pass: when the model's table is missing
/// live, the first name of `renamed` that exists live is renamed to the
/// model's table name in place, and the rename step is returned.
#[verifier::loop_isolation(false)]
fn rename_pass(
    dialect: SQLDialect,
    tables: &mut Vec<LiveTable>,
    renamed: &Vec<String>,
    table_name: &str,
) -> (r: Option<MigrationStep>)
    ensures
        ({
            let t0 = old(tables)@.map_values(|t: LiveTable| t@);
            let t1 = final(tables)@.map_values(|t: LiveTable| t@);
            match spec_rename_pass(t0, renamed@.map_values(|s: String| s@), table_name@) {
                Some(done) => r matches Some(step) && step@ == StepModel::Execute(
                    stmt::rename_table_chars(dialect, done.0, table_name@),
                ) && t1 == done.1,
                None => r is None && t1 == t0,
            }
        }),
{
    let ghost t0 = tables@.map_values(|t: LiveTable| t@);
    let ghost names = renamed@.map_values(|s: String| s@);
    let mut k: usize = 0;
    while k < renamed.len()
        invariant
            tables@.map_values(|t: LiveTable| t@) == t0,
            0 <= k <= renamed@.len(),
            forall|j: int| 0 <= j < k ==> !has_live(t0, #[trigger] names[j]),
        decreases renamed@.len() - k,
    {
        let from_name = &renamed[k];
        match find_table_index(tables, from_name.as_str()) {
            Some(i) => {
                let statement = stmt::rename_table_statement(
                    dialect,
                    from_name.as_str(),
                    table_name,
                );
                let mut entry = tables.remove(i);
                entry.name = String::from_str(table_name);
                let ghost renamed_entry = entry@;
                tables.insert(i, entry);
                proof {
                    lemma_rename_pass_skip(t0, names, table_name@, k as int);
                    let tail = names.subrange(k as int, names.len() as int);
                    assert(tail[0] == names[k as int]);
                    assert(spec_rename_pass(t0, names, table_name@) == Some(
                        (names[k as int], rename_live(t0, names[k as int], table_name@)),
                    ));
                    let updated = t0.update(
                        i as int,
                        LiveTableModel { name: table_name@, ..t0[i as int] },
                    );
                    assert(rename_live(t0, names[k as int], table_name@) == updated);
                    assert(tables@.map_values(|t: LiveTable| t@) =~= updated);
                }
                return Some(MigrationStep::Execute(statement));
            },
            None => {},
        }
        k += 1;
    }
    proof {
        lemma_rename_pass_skip(t0, names, table_name@, names.len() as int);
        assert(names.subrange(names.len() as int, names.len() as int) =~= Seq::<
            Seq<char>,
        >::empty());
    }
    None
}

impl SQLMigration {
    /// Computes the convergence plan of one model against the working set,
    /// removing its table from the set when matched: the rename pass, then
    /// table creation when the table is still missing, else the column
    /// manipulations behind the two safety gates. A fatal gate error
    /// carries the descriptive message naming the table or column.
    pub fn model_plan(
        dialect: SQLDialect,
        model: &Model,
        tables: &mut Vec<LiveTable>,
        reset: bool,
    ) -> (r: Result<Vec<MigrationStep>, Error>)
        ensures
            ({
                let t0 = old(tables)@.map_values(|t: LiveTable| t@);
                let t1 = final(tables)@.map_values(|t: LiveTable| t@);
                match r {
                    Ok(steps) => spec_model_plan(dialect, model@, t0, reset) == Ok::<
                        _,
                        Seq<char>,
                    >((steps@.map_values(|s: MigrationStep| s@), t1)),
                    Err(e) => e matches Error::FatalError(f) && spec_model_plan(
                        dialect,
                        model@,
                        t0,
                        reset,
                    ) == Err::<(Seq<StepModel>, Seq<LiveTableModel>), _>(f.0@),
                }
            }),
    {
        let ghost t0 = tables@.map_values(|t: LiveTable| t@);
        let mut steps: Vec<MigrationStep> = Vec::new();
        if model.is_virtual() {
            proof {
                assert(steps@.map_values(|s: MigrationStep| s@) =~= Seq::<StepModel>::empty());
            }
            return Ok(steps);
        }
        if find_table_index(tables, model.table_name.as_str()).is_none() {
            match &model.migration {
                Some(mig) => {
                    match rename_pass(
                        dialect,
                        tables,
                        &mig.renamed,
                        model.table_name.as_str(),
                    ) {
                        Some(step) => {
                            steps.push(step);
                        },
                        None => {},
                    }
                },
                None => {
                    proof {
                        assert(spec_rename_pass(t0, Seq::empty(), model@.table_name) is None);
                    }
                },
            }
        }
        let ghost t1 = tables@.map_values(|t: LiveTable| t@);
        match find_table_index(tables, model.table_name.as_str()) {
            None => {
                let statement = stmt::create_table_statement(dialect, model);
                steps.push(MigrationStep::Execute(statement));
                proof {
                    assert(steps@.map_values(|s: MigrationStep| s@)
                        =~= spec_model_plan(dialect, model@, t0, reset)->Ok_0.0);
                }
                Ok(steps)
            },
            Some(i) => {
                let entry = tables.remove(i);
                proof {
                    assert(tables@.map_values(|t: LiveTable| t@) =~= t1.remove(i as int));
                    assert(entry@ == get_live(t1, model@.table_name));
                    assert(tables@.map_values(|t: LiveTable| t@) == remove_live(
                        t1,
                        model@.table_name,
                    ));
                }
                let model_columns = ColumnDecoder::decode_model_columns(model);
                let need_alter = ColumnDecoder::need_to_alter_any_columns(
                    &entry.columns,
                    &model_columns,
                );
                if need_alter && !dialect.supports_in_place_column_alter() {
                    return Err(Error::fatal("SQLite doesn't support column altering"));
                }
                let manips = ColumnDecoder::manipulations(&entry.columns, model);
                let offending = if entry.has_records {
                    find_add_non_null(&manips)
                } else {
                    None
                };
                match offending {
                    Some(j) => {
                        if reset {
                            let drop_stmt = stmt::drop_table_statement(
                                dialect,
                                model.table_name.as_str(),
                            );
                            steps.push(MigrationStep::Execute(drop_stmt));
                            let create_stmt = stmt::create_table_statement(dialect, model);
                            steps.push(MigrationStep::Execute(create_stmt));
                            proof {
                                assert(steps@.map_values(|s: MigrationStep| s@)
                                    =~= spec_model_plan(dialect, model@, t0, reset)->Ok_0.0);
                            }
                            Ok(steps)
                        } else {
                            let column_name = match &manips[j] {
                                ColumnManipulation::AddColumn { column, .. } => column.name(),
                                _ => "",
                            };
                            let mut message = String::from_str(
                                "Cannot add new non null column `",
                            );
                            message.append(column_name);
                            message.append("', table `");
                            message.append(model.table_name.as_str());
                            message.append(
                                "' has records. Consider add a default value or drop the table.",
                            );
                            Err(Error::fatal_message(message))
                        }
                    },
                    None => {
                        match render_manips(dialect, model.table_name.as_str(), &manips) {
                            Ok(mut rendered) => {
                                steps.append(&mut rendered);
                                proof {
                                    assert(steps@.map_values(|s: MigrationStep| s@)
                                        =~= spec_model_plan(dialect, model@, t0, reset)->Ok_0.0);
                                }
                                Ok(steps)
                            },
                            Err(e) => Err(e),
                        }
                    },
                }
            },
        }
    }
}

fn column_type_differs(a: &SQLColumn, b: &SQLColumn) -> (r: bool)
    ensures
        r == (a@.column_type != b@.column_type),
{
    !matches!(
        (a.column_type, b.column_type),
        (crate::column::SQLType::Bool, crate::column::SQLType::Bool)
        | (crate::column::SQLType::Int, crate::column::SQLType::Int)
        | (crate::column::SQLType::BigInt, crate::column::SQLType::BigInt)
        | (crate::column::SQLType::Double, crate::column::SQLType::Double)
        | (crate::column::SQLType::Text, crate::column::SQLType::Text)
        | (crate::column::SQLType::Date, crate::column::SQLType::Date)
        | (crate::column::SQLType::DateTime, crate::column::SQLType::DateTime)
    )
}

proof fn lemma_models_push(
    dialect: SQLDialect,
    prefix: Seq<ModelContent>,
    m: ModelContent,
    tables: Seq<LiveTableModel>,
    reset: bool,
)
    ensures
        spec_migrate_models(dialect, prefix.push(m), tables, reset) == match spec_migrate_models(
            dialect,
            prefix,
            tables,
            reset,
        ) {
            Err(msg) => Err(msg),
            Ok(done) => match spec_model_plan(dialect, m, done.1, reset) {
                Err(msg) => Err(msg),
                Ok(head) => Ok((done.0 + head.0, head.1)),
            },
        },
    decreases prefix.len(),
{
    if prefix.len() == 0 {
        assert(prefix.push(m) =~= seq![m]);
        assert(prefix.push(m)[0] == m);
        assert(prefix.push(m).drop_first() =~= Seq::<ModelContent>::empty());
        assert(spec_migrate_models(dialect, prefix, tables, reset) == Ok::<_, Seq<char>>(
            (Seq::<StepModel>::empty(), tables),
        ));
        match spec_model_plan(dialect, m, tables, reset) {
            Err(msg) => {
                assert(spec_migrate_models(dialect, prefix.push(m), tables, reset) == Err::<
                    (Seq<StepModel>, Seq<LiveTableModel>),
                    _,
                >(msg));
            },
            Ok(head) => {
                assert(spec_migrate_models(dialect, prefix.push(m).drop_first(), head.1, reset)
                    == Ok::<_, Seq<char>>((Seq::<StepModel>::empty(), head.1)));
                assert(spec_migrate_models(dialect, prefix.push(m), tables, reset) == Ok::<
                    _,
                    Seq<char>,
                >((head.0 + Seq::<StepModel>::empty(), head.1)));
                assert(head.0 + Seq::<StepModel>::empty() =~= head.0);
                assert(Seq::<StepModel>::empty() + head.0 =~= head.0);
            },
        }
    } else {
        assert(prefix.push(m)[0] == prefix[0]);
        assert(prefix.push(m).drop_first() =~= prefix.drop_first().push(m));
        match spec_model_plan(dialect, prefix[0], tables, reset) {
            Err(_) => {},
            Ok(head) => {
                lemma_models_push(dialect, prefix.drop_first(), m, head.1, reset);
                match spec_migrate_models(dialect, prefix.drop_first(), head.1, reset) {
                    Err(_) => {},
                    Ok(rest) => {
                        match spec_model_plan(dialect, m, rest.1, reset) {
                            Err(_) => {},
                            Ok(last) => {
                                assert(head.0 + (rest.0 + last.0) =~= (head.0 + rest.0)
                                    + last.0);
                            },
                        }
                    },
                }
            },
        }
    }
}

proof fn lemma_models_err_prefix(
    dialect: SQLDialect,
    models: Seq<ModelContent>,
    tables: Seq<LiveTableModel>,
    reset: bool,
    k: int,
)
    requires
        0 <= k <= models.len(),
        spec_migrate_models(dialect, models.subrange(0, k), tables, reset) is Err,
    ensures
        spec_migrate_models(dialect, models, tables, reset) == spec_migrate_models(
            dialect,
            models.subrange(0, k),
            tables,
            reset,
        ),
    decreases models.len(),
{
    if k == 0 {
        assert(models.subrange(0, 0) =~= Seq::<ModelContent>::empty());
    } else {
        assert(models.subrange(0, k)[0] == models[0]);
        match spec_model_plan(dialect, models[0], tables, reset) {
            Err(_) => {},
            Ok(head) => {
                assert(models.subrange(0, k).drop_first() =~= models.drop_first().subrange(
                    0,
                    k - 1,
                ));
                lemma_models_err_prefix(dialect, models.drop_first(), head.1, reset, k - 1);
            },
        }
    }
}

impl SQLMigration {
    /// Computes the complete convergence plan for the declared models
    /// against the live snapshot: each model's plan in declaration order
    /// over the mutable working set, then a drop of every live table no
    /// model accounted for. Fails with the first fatal error — an in-place
    /// alteration on a dialect that cannot, an unauthorized data-loss
    /// hazard, or an unencodable default — before any statement of the
    /// offending table is emitted.
    #[verifier::loop_isolation(false)]
    pub fn migrate(
        dialect: SQLDialect,
        models: &Vec<Model>,
        live: Vec<LiveTable>,
        reset: bool,
    ) -> (r: Result<Vec<MigrationStep>, Error>)
        ensures
            match r {
                Ok(steps) => spec_migrate(
                    dialect,
                    models@.map_values(|m: Model| m@),
                    live@.map_values(|t: LiveTable| t@),
                    reset,
                ) == Ok::<_, Seq<char>>(steps@.map_values(|s: MigrationStep| s@)),
                Err(e) => e matches Error::FatalError(f) && spec_migrate(
                    dialect,
                    models@.map_values(|m: Model| m@),
                    live@.map_values(|t: LiveTable| t@),
                    reset,
                ) == Err::<Seq<StepModel>, _>(f.0@),
            },
    {
        let ghost all_models = models@.map_values(|m: Model| m@);
        let ghost t0 = live@.map_values(|t: LiveTable| t@);
        let mut tables = live;
        let mut steps: Vec<MigrationStep> = Vec::new();
        proof {
            assert(all_models.subrange(0, 0) =~= Seq::<ModelContent>::empty());
            assert(steps@.map_values(|s: MigrationStep| s@) =~= Seq::<StepModel>::empty());
        }
        let mut i: usize = 0;
        while i < models.len()
            invariant
                0 <= i <= models@.len(),
                spec_migrate_models(dialect, all_models.subrange(0, i as int), t0, reset)
                    == Ok::<_, Seq<char>>(
                    (
                        steps@.map_values(|s: MigrationStep| s@),
                        tables@.map_values(|t: LiveTable| t@),
                    ),
                ),
            decreases models@.len() - i,
        {
            let ghost steps_before = steps@;
            let ghost tables_before = tables@.map_values(|t: LiveTable| t@);
            let more = match Self::model_plan(dialect, &models[i], &mut tables, reset) {
                Ok(s) => s,
                Err(e) => {
                    proof {
                        lemma_models_push(
                            dialect,
                            all_models.subrange(0, i as int),
                            all_models[i as int],
                            t0,
                            reset,
                        );
                        assert(all_models.subrange(0, i + 1) =~= all_models.subrange(
                            0,
                            i as int,
                        ).push(all_models[i as int]));
                        lemma_models_err_prefix(dialect, all_models, t0, reset, i + 1);
                        assert(all_models.subrange(0, all_models.len() as int) =~= all_models);
                    }
                    return Err(e);
                },
            };
            let mut more_steps = more;
            steps.append(&mut more_steps);
            proof {
                lemma_models_push(
                    dialect,
                    all_models.subrange(0, i as int),
                    all_models[i as int],
                    t0,
                    reset,
                );
                assert(all_models.subrange(0, i + 1) =~= all_models.subrange(0, i as int).push(
                    all_models[i as int],
                ));
                let lhs = steps@.map_values(|s: MigrationStep| s@);
                let rhs = steps_before.map_values(|s: MigrationStep| s@) + more@.map_values(
                    |s: MigrationStep| s@,
                );
                assert(lhs.len() == rhs.len());
                assert forall|j: int| 0 <= j < lhs.len() implies lhs[j] == rhs[j] by {
                    if j < steps_before.len() {
                        assert(steps@[j] == steps_before[j]);
                    } else {
                        assert(steps@[j] == more@[j - steps_before.len()]);
                    }
                }
                assert(lhs =~= rhs);
            }
            i += 1;
        }
        proof {
            assert(all_models.subrange(0, all_models.len() as int) =~= all_models);
        }
        let ghost plan_steps = steps@.map_values(|s: MigrationStep| s@);
        let ghost remaining = tables@.map_values(|t: LiveTable| t@);
        let mut j: usize = 0;
        while j < tables.len()
            invariant
                0 <= j <= tables@.len(),
                tables@.map_values(|t: LiveTable| t@) == remaining,
                steps@.map_values(|s: MigrationStep| s@) == plan_steps + drop_steps(
                    dialect,
                    remaining.subrange(0, j as int),
                ),
            decreases tables@.len() - j,
        {
            let ghost steps_before = steps@;
            let statement = stmt::drop_table_statement(dialect, tables[j].name.as_str());
            steps.push(MigrationStep::Execute(statement));
            proof {
                let prefix = remaining.subrange(0, j as int);
                let extended = remaining.subrange(0, j + 1);
                assert(extended =~= prefix.push(remaining[j as int]));
                assert(drop_steps(dialect, extended) =~= drop_steps(dialect, prefix).push(
                    StepModel::Execute(stmt::drop_table_chars(dialect, remaining[j as int].name)),
                ));
                assert(steps@.map_values(|s: MigrationStep| s@).len() == steps@.len());
                let lhs = steps@.map_values(|s: MigrationStep| s@);
                let rhs = plan_steps + drop_steps(dialect, extended);
                assert(drop_steps(dialect, extended).len() == j + 1);
                assert(drop_steps(dialect, prefix).len() == j as int);
                assert(lhs.len() == rhs.len());
                assert forall|n: int| 0 <= n < lhs.len() implies lhs[n] == rhs[n] by {
                    if n < steps_before.len() {
                        assert(steps@[n] == steps_before[n]);
                        assert(steps_before.map_values(|s: MigrationStep| s@)[n] == (plan_steps
                            + drop_steps(dialect, prefix))[n]);
                        if n >= plan_steps.len() {
                            assert(drop_steps(dialect, prefix)[n - plan_steps.len()]
                                == StepModel::Execute(
                                stmt::drop_table_chars(
                                    dialect,
                                    prefix[n - plan_steps.len()].name,
                                ),
                            ));
                            assert(drop_steps(dialect, extended)[n - plan_steps.len()]
                                == StepModel::Execute(
                                stmt::drop_table_chars(
                                    dialect,
                                    extended[n - plan_steps.len()].name,
                                ),
                            ));
                        }
                    } else {
                        assert(steps@[n] == MigrationStep::Execute(statement));
                        assert(drop_steps(dialect, extended)[j as int] == StepModel::Execute(
                            stmt::drop_table_chars(dialect, extended[j as int].name),
                        ));
                        assert(tables@[j as int]@ == remaining[j as int]);
                    }
                }
                assert(lhs =~= rhs);
            }
            j += 1;
        }
        proof {
            assert(remaining.subrange(0, remaining.len() as int) =~= remaining);
        }
        Ok(steps)
    }
}

} // verus!
