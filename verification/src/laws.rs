//! The engine's convergence laws, proved against the plan specification:
//! a converged schema plans nothing further, a rename history match renames
//! instead of creating or dropping, the data-loss gate aborts before any
//! statement for the table, and exactly the unclaimed live tables are
//! scheduled for dropping.
use crate::column::ColumnModel;
use crate::decoder::ManipModel;
use crate::decoder::field_manips;
use crate::decoder::find_column;
use crate::decoder::find_field;
use crate::decoder::model_dropped_actions;
use crate::decoder::needs_alter;
use crate::decoder::remove_manips;
use crate::decoder::spec_any_alter;
use crate::decoder::spec_manipulations;
use crate::dialect::SQLDialect;
use crate::migrate::LiveTableModel;
use crate::migrate::StepModel;
use crate::migrate::any_add_non_null;
use crate::migrate::drop_steps;
use crate::migrate::get_live;
use crate::migrate::has_live;
use crate::migrate::manip_steps;
use crate::migrate::one_manip_steps;
use crate::migrate::action_steps;
use crate::migrate::spec_psql_alter_clauses;
use crate::migrate::lemma_rename_pass_skip;
use crate::migrate::remove_live;
use crate::migrate::rename_live;
use crate::migrate::spec_migrate;
use crate::migrate::spec_rename_pass;
use crate::migrate::spec_migrate_models;
use crate::migrate::spec_model_plan;
use crate::model::FieldModel;
use crate::model::ModelContent;
use crate::model::field_column;
use crate::stmt;
use vstd::prelude::*;

verus! {

/// Whether the live columns of a table already are exactly what the model
/// declares: every declared field finds its exact column live, and every
/// live column is named by some declared field.
pub open spec fn columns_converged(db: Seq<ColumnModel>, m: ModelContent) -> bool {
    (forall|i: int|
        0 <= i < m.fields.len() ==> find_column(db, (#[trigger] m.fields[i]).column_name)
            == Some(field_column(m.fields[i]))) && (forall|j: int|
        0 <= j < db.len() ==> find_field(m.fields, (#[trigger] db[j]).name) is Some)
}

proof fn lemma_field_manips_empty(db: Seq<ColumnModel>, fields: Seq<FieldModel>)
    requires
        forall|i: int|
            0 <= i < fields.len() ==> find_column(db, (#[trigger] fields[i]).column_name)
                == Some(field_column(fields[i])),
    ensures
        field_manips(db, fields) == Seq::<ManipModel>::empty(),
    decreases fields.len(),
{
    if fields.len() > 0 {
        assert(find_column(db, fields[0].column_name) == Some(field_column(fields[0])));
        assert(!needs_alter(field_column(fields[0]), field_column(fields[0])));
        assert(forall|i: int|
            0 <= i < fields.drop_first().len() ==> find_column(
                db,
                (#[trigger] fields.drop_first()[i]).column_name,
            ) == Some(field_column(fields.drop_first()[i])));
        lemma_field_manips_empty(db, fields.drop_first());
    }
}

proof fn lemma_remove_manips_empty(
    db: Seq<ColumnModel>,
    fields: Seq<FieldModel>,
    actions: Seq<(Seq<char>, u64)>,
)
    requires
        forall|j: int| 0 <= j < db.len() ==> find_field(fields, (#[trigger] db[j]).name) is Some,
    ensures
        remove_manips(db, fields, actions) == Seq::<ManipModel>::empty(),
    decreases db.len(),
{
    if db.len() > 0 {
        assert(find_field(fields, db[0].name) is Some);
        assert(forall|j: int|
            0 <= j < db.drop_first().len() ==> find_field(
                fields,
                (#[trigger] db.drop_first()[j]).name,
            ) is Some);
        lemma_remove_manips_empty(db.drop_first(), fields, actions);
    }
}

/// A converged table asks for no manipulation at all.
pub proof fn lemma_converged_no_manipulations(db: Seq<ColumnModel>, m: ModelContent)
    requires
        columns_converged(db, m),
    ensures
        spec_manipulations(db, m) == Seq::<ManipModel>::empty(),
{
    lemma_field_manips_empty(db, m.fields);
    lemma_remove_manips_empty(db, m.fields, model_dropped_actions(m));
    assert(field_manips(db, m.fields) + remove_manips(db, m.fields, model_dropped_actions(m))
        =~= Seq::<ManipModel>::empty());
}

proof fn lemma_converged_no_alter(db: Seq<ColumnModel>, m: ModelContent)
    requires
        columns_converged(db, m),
    ensures
        !spec_any_alter(db, m.desired_columns()),
{
    assert forall|i: int|
        0 <= i < m.desired_columns().len() implies match find_column(
        db,
        (#[trigger] m.desired_columns()[i]).name,
    ) {
        Some(have) => !needs_alter(have, m.desired_columns()[i]),
        None => true,
    } by {
        assert(m.desired_columns()[i] == field_column(m.fields[i]));
        assert(find_column(db, m.fields[i].column_name) == Some(field_column(m.fields[i])));
    }
}

/// Safe-add gate: a model that would add a not-null column with no
/// default to a table that already holds records makes the whole run
/// abort with a fatal error — the plan is an error, so not one statement
/// is issued for that table — unless destructive recreation was
/// explicitly authorized.
pub proof fn lemma_safe_add_gate(
    dialect: SQLDialect,
    m: ModelContent,
    tables: Seq<LiveTableModel>,
)
    requires
        !m.is_virtual,
        has_live(tables, m.table_name),
        get_live(tables, m.table_name).has_records,
        any_add_non_null(spec_manipulations(get_live(tables, m.table_name).columns, m)),
    ensures
        spec_migrate(dialect, seq![m], tables, false) is Err,
{
    let models = seq![m];
    assert(models[0] == m);
    assert(models.drop_first() =~= Seq::<ModelContent>::empty());
    assert(spec_model_plan(dialect, m, tables, false) is Err);
}

/// Idempotence, per table: a model whose live table already has exactly
/// the declared columns plans no statement at all for it — the plan only
/// removes the table from the working set.
pub proof fn lemma_converged_model_plans_nothing(
    dialect: SQLDialect,
    m: ModelContent,
    tables: Seq<LiveTableModel>,
    reset: bool,
)
    requires
        !m.is_virtual,
        has_live(tables, m.table_name),
        columns_converged(get_live(tables, m.table_name).columns, m),
    ensures
        spec_model_plan(dialect, m, tables, reset) == Ok::<_, Seq<char>>(
            (Seq::<StepModel>::empty(), remove_live(tables, m.table_name)),
        ),
{
    let live = get_live(tables, m.table_name);
    lemma_converged_no_manipulations(live.columns, m);
    lemma_converged_no_alter(live.columns, m);
    assert(!any_add_non_null(Seq::<ManipModel>::empty()));
    assert(manip_steps(dialect, m.table_name, Seq::<ManipModel>::empty()) == Ok::<
        _,
        Seq<char>,
    >(Seq::<StepModel>::empty()));
    assert(Seq::<StepModel>::empty() + Seq::<StepModel>::empty() =~= Seq::<StepModel>::empty());
}

/// How many live tables carry `name`.
pub open spec fn count_name(tables: Seq<LiveTableModel>, name: Seq<char>) -> nat
    decreases tables.len(),
{
    if tables.len() == 0 {
        0
    } else {
        (if tables[0].name == name {
            1nat
        } else {
            0nat
        }) + count_name(tables.drop_first(), name)
    }
}

/// Whether no two live tables share a name.
pub open spec fn unique_live_names(tables: Seq<LiveTableModel>) -> bool {
    forall|j: int, k: int|
        0 <= j < k < tables.len() ==> (#[trigger] tables[j]).name != (#[trigger] tables[k]).name
}

proof fn lemma_has_live_count(tables: Seq<LiveTableModel>, name: Seq<char>)
    ensures
        has_live(tables, name) <==> count_name(tables, name) >= 1,
    decreases tables.len(),
{
    if tables.len() > 0 {
        lemma_has_live_count(tables.drop_first(), name);
    }
}

proof fn lemma_count_at_index(tables: Seq<LiveTableModel>, j: int)
    requires
        0 <= j < tables.len(),
    ensures
        count_name(tables, tables[j].name) >= 1,
    decreases j,
{
    if j > 0 {
        assert(tables.drop_first()[j - 1] == tables[j]);
        lemma_count_at_index(tables.drop_first(), j - 1);
    }
}

proof fn lemma_count_unique(tables: Seq<LiveTableModel>, name: Seq<char>)
    requires
        unique_live_names(tables),
    ensures
        count_name(tables, name) <= 1,
    decreases tables.len(),
{
    if tables.len() > 0 {
        let rest = tables.drop_first();
        assert(forall|j: int, k: int|
            0 <= j < k < rest.len() ==> (#[trigger] rest[j]).name != (#[trigger] rest[k]).name)
            by {
            assert forall|j: int, k: int|
                0 <= j < k < rest.len() implies (#[trigger] rest[j]).name != (
            #[trigger] rest[k]).name by {
                assert(rest[j] == tables[j + 1]);
                assert(rest[k] == tables[k + 1]);
            }
        }
        lemma_count_unique(rest, name);
        if tables[0].name == name {
            lemma_has_live_count(rest, name);
            if count_name(rest, name) >= 1 {
                lemma_has_live_gives_index(rest, name);
                let j = choose|j: int|
                    0 <= j < rest.len() && (#[trigger] rest[j]).name == name;
                assert(tables[j + 1].name == name);
                assert(tables[0].name != tables[j + 1].name);
            }
        }
    }
}

proof fn lemma_has_live_gives_index(tables: Seq<LiveTableModel>, name: Seq<char>)
    requires
        has_live(tables, name),
    ensures
        exists|j: int| 0 <= j < tables.len() && (#[trigger] tables[j]).name == name,
    decreases tables.len(),
{
    if tables[0].name == name {
        assert(tables[0].name == name);
    } else {
        lemma_has_live_gives_index(tables.drop_first(), name);
        let j = choose|j: int|
            0 <= j < tables.drop_first().len() && (#[trigger] tables.drop_first()[j]).name
                == name;
        assert(tables[j + 1].name == name);
    }
}

proof fn lemma_count_remove(tables: Seq<LiveTableModel>, name: Seq<char>, other: Seq<char>)
    ensures
        count_name(remove_live(tables, name), other) == if name == other && has_live(
            tables,
            name,
        ) {
            count_name(tables, other) - 1
        } else {
            count_name(tables, other) as int
        },
    decreases tables.len(),
{
    if tables.len() > 0 {
        if tables[0].name == name {
        } else {
            lemma_count_remove(tables.drop_first(), name, other);
            let r = remove_live(tables, name);
            assert(r == seq![tables[0]] + remove_live(tables.drop_first(), name));
            assert(r[0] == tables[0]);
            assert(r.drop_first() =~= remove_live(tables.drop_first(), name));
        }
    }
}

proof fn lemma_count_rename(
    tables: Seq<LiveTableModel>,
    from_name: Seq<char>,
    to_name: Seq<char>,
    other: Seq<char>,
)
    requires
        other != from_name,
        other != to_name,
    ensures
        count_name(rename_live(tables, from_name, to_name), other) == count_name(tables, other),
    decreases tables.len(),
{
    if tables.len() > 0 {
        let r = rename_live(tables, from_name, to_name);
        if tables[0].name == from_name {
            assert(r[0].name == to_name);
            assert(r.drop_first() =~= tables.drop_first());
        } else {
            lemma_count_rename(tables.drop_first(), from_name, to_name, other);
            assert(r[0] == tables[0]);
            assert(r.drop_first() =~= rename_live(tables.drop_first(), from_name, to_name));
        }
    }
}

proof fn lemma_count_rename_target(
    tables: Seq<LiveTableModel>,
    from_name: Seq<char>,
    to_name: Seq<char>,
)
    requires
        from_name != to_name,
        has_live(tables, from_name),
    ensures
        count_name(rename_live(tables, from_name, to_name), to_name) == count_name(
            tables,
            to_name,
        ) + 1,
        count_name(rename_live(tables, from_name, to_name), from_name) == count_name(
            tables,
            from_name,
        ) - 1,
    decreases tables.len(),
{
    let r = rename_live(tables, from_name, to_name);
    if tables[0].name == from_name {
        assert(r[0].name == to_name);
        assert(r.drop_first() =~= tables.drop_first());
    } else {
        lemma_count_rename_target(tables.drop_first(), from_name, to_name);
        assert(r[0] == tables[0]);
        assert(r.drop_first() =~= rename_live(tables.drop_first(), from_name, to_name));
    }
}

/// The shape of a successful rename pass: the renamed name comes from the
/// history and was live, and the updated working set is the in-place
/// rename.
proof fn lemma_rename_pass_shape(
    tables: Seq<LiveTableModel>,
    renamed: Seq<Seq<char>>,
    table_name: Seq<char>,
)
    requires
        spec_rename_pass(tables, renamed, table_name) is Some,
    ensures
        ({
            let done = spec_rename_pass(tables, renamed, table_name)->0;
            &&& exists|k: int| 0 <= k < renamed.len() && #[trigger] renamed[k] == done.0
            &&& has_live(tables, done.0)
            &&& done.1 == rename_live(tables, done.0, table_name)
        }),
    decreases renamed.len(),
{
    if renamed.len() > 0 {
        if has_live(tables, renamed[0]) {
            assert((spec_rename_pass(tables, renamed, table_name)->0).0 == renamed[0]);
        } else {
            lemma_rename_pass_shape(tables, renamed.drop_first(), table_name);
            let done = spec_rename_pass(tables, renamed, table_name)->0;
            let k = choose|k: int|
                0 <= k < renamed.drop_first().len() && #[trigger] renamed.drop_first()[k]
                    == done.0;
            assert(renamed[k + 1] == done.0);
        }
    }
}

/// What one model's successful plan does to the working set: nothing, a
/// removal of the model's table, or an in-place rename of a history name
/// followed by that removal.
proof fn lemma_plan_ws_shape(
    dialect: SQLDialect,
    m: ModelContent,
    tables: Seq<LiveTableModel>,
    reset: bool,
)
    requires
        spec_model_plan(dialect, m, tables, reset) is Ok,
    ensures
        ({
            let ws = spec_model_plan(dialect, m, tables, reset)->Ok_0.1;
            ||| ws == tables
            ||| (!m.is_virtual && has_live(tables, m.table_name) && ws == remove_live(
                tables,
                m.table_name,
            ))
            ||| (!m.is_virtual && !has_live(tables, m.table_name) && exists|old: Seq<char>|
                {
                    &&& #[trigger] has_live(tables, old)
                    &&& (m.migration matches Some(mig) && mig.renamed.contains(old))
                    &&& spec_model_plan(dialect, m, tables, reset)->Ok_0.1 == remove_live(
                        rename_live(tables, old, m.table_name),
                        m.table_name,
                    )
                })
        }),
{
    if !m.is_virtual {
        let renamed: Seq<Seq<char>> = match m.migration {
            Some(mig) => mig.renamed,
            None => Seq::empty(),
        };
        if !has_live(tables, m.table_name) {
            match spec_rename_pass(tables, renamed, m.table_name) {
                Some(done) => {
                    lemma_rename_pass_shape(tables, renamed, m.table_name);
                    let old = done.0;
                    assert(has_live(tables, old));
                    assert(old != m.table_name);
                    let k = choose|k: int|
                        0 <= k < renamed.len() && #[trigger] renamed[k] == old;
                    assert(renamed.contains(old));
                    assert(m.migration matches Some(mig) && mig.renamed.contains(old));
                    lemma_count_rename_target(tables, old, m.table_name);
                    lemma_has_live_count(done.1, m.table_name);
                    lemma_has_live_count(tables, m.table_name);
                    assert(has_live(done.1, m.table_name));
                    assert(spec_model_plan(dialect, m, tables, reset)->Ok_0.1 == remove_live(
                        rename_live(tables, old, m.table_name),
                        m.table_name,
                    ));
                },
                None => {},
            }
        }
    }
}

proof fn lemma_remove_live_other(tables: Seq<LiveTableModel>, name: Seq<char>, other: Seq<char>)
    requires
        other != name,
    ensures
        has_live(remove_live(tables, name), other) == has_live(tables, other),
        get_live(remove_live(tables, name), other) == get_live(tables, other),
    decreases tables.len(),
{
    if tables.len() > 0 {
        if tables[0].name == name {
        } else {
            lemma_remove_live_other(tables.drop_first(), name, other);
            let r = remove_live(tables, name);
            assert(r[0] == tables[0]);
            assert(r.drop_first() =~= remove_live(tables.drop_first(), name));
        }
    }
}

proof fn lemma_remove_live_entries(tables: Seq<LiveTableModel>, name: Seq<char>)
    ensures
        forall|j: int|
            0 <= j < remove_live(tables, name).len() ==> exists|k: int|
                0 <= k < tables.len() && #[trigger] remove_live(tables, name)[j] == tables[k],
    decreases tables.len(),
{
    if tables.len() > 0 {
        let r = remove_live(tables, name);
        if tables[0].name == name {
            assert forall|j: int| 0 <= j < r.len() implies exists|k: int|
                0 <= k < tables.len() && #[trigger] r[j] == tables[k] by {
                assert(r[j] == tables[j + 1]);
            }
        } else {
            lemma_remove_live_entries(tables.drop_first(), name);
            let rr = remove_live(tables.drop_first(), name);
            assert(r[0] == tables[0]);
            assert(r.drop_first() =~= rr);
            assert forall|j: int| 0 <= j < r.len() implies exists|k: int|
                0 <= k < tables.len() && #[trigger] r[j] == tables[k] by {
                if j == 0 {
                    assert(r[0] == tables[0]);
                } else {
                    assert(r[j] == rr[j - 1]);
                    let k = choose|k: int|
                        0 <= k < tables.drop_first().len() && #[trigger] rr[j - 1]
                            == tables.drop_first()[k];
                    assert(r[j] == tables[k + 1]);
                }
            }
        }
    }
}

proof fn lemma_drop_first_unique(tables: Seq<LiveTableModel>)
    requires
        tables.len() > 0,
        unique_live_names(tables),
    ensures
        unique_live_names(tables.drop_first()),
{
    let rest = tables.drop_first();
    assert forall|j: int, k: int|
        0 <= j < k < rest.len() implies (#[trigger] rest[j]).name != (#[trigger] rest[k]).name by {
        assert(rest[j] == tables[j + 1]);
        assert(rest[k] == tables[k + 1]);
    }
}

proof fn lemma_remove_live_unique(tables: Seq<LiveTableModel>, name: Seq<char>)
    requires
        unique_live_names(tables),
    ensures
        unique_live_names(remove_live(tables, name)),
    decreases tables.len(),
{
    if tables.len() > 0 {
        lemma_drop_first_unique(tables);
        let r = remove_live(tables, name);
        if tables[0].name == name {
        } else {
            lemma_remove_live_unique(tables.drop_first(), name);
            let rr = remove_live(tables.drop_first(), name);
            lemma_remove_live_entries(tables.drop_first(), name);
            assert(r[0] == tables[0]);
            assert(r.drop_first() =~= rr);
            assert forall|j: int, k: int|
                0 <= j < k < r.len() implies (#[trigger] r[j]).name != (#[trigger] r[k]).name by {
                if j == 0 {
                    assert(r[k] == rr[k - 1]);
                    let w = choose|w: int|
                        0 <= w < tables.drop_first().len() && #[trigger] rr[k - 1]
                            == tables.drop_first()[w];
                    assert(r[k] == tables[w + 1]);
                    assert(tables[0].name != tables[w + 1].name);
                } else {
                    assert(r[j] == rr[j - 1]);
                    assert(r[k] == rr[k - 1]);
                }
            }
        }
    }
}

/// Whether every live table's name is claimed by some non-virtual model.
pub open spec fn models_cover(models: Seq<ModelContent>, tables: Seq<LiveTableModel>) -> bool {
    forall|j: int|
        0 <= j < tables.len() ==> exists|i: int|
            0 <= i < models.len() && !(#[trigger] models[i]).is_virtual && models[i].table_name
                == (#[trigger] tables[j]).name
}

/// Whether no two non-virtual models declare the same table name.
pub open spec fn distinct_model_tables(models: Seq<ModelContent>) -> bool {
    forall|i: int, k: int|
        0 <= i < k < models.len() && !(#[trigger] models[i]).is_virtual && !(
        #[trigger] models[k]).is_virtual ==> models[i].table_name != models[k].table_name
}

/// Whether the live schema is exactly what the models declare: every
/// non-virtual model's table exists live with exactly the declared
/// columns, every live table belongs to a non-virtual model, and live
/// names are unique.
pub open spec fn schema_converged(
    models: Seq<ModelContent>,
    tables: Seq<LiveTableModel>,
) -> bool {
    &&& forall|i: int|
        0 <= i < models.len() && !(#[trigger] models[i]).is_virtual ==> has_live(
            tables,
            models[i].table_name,
        ) && columns_converged(get_live(tables, models[i].table_name).columns, models[i])
    &&& models_cover(models, tables)
    &&& unique_live_names(tables)
}

/// Idempotence: converging a schema that already matches the declared
/// model set plans nothing at all — no statement and no post-action — in
/// any dialect, with or without destructive authorization. Running
/// convergence twice in a row therefore leaves a second run with an empty
/// plan.
pub proof fn lemma_idempotence(
    dialect: SQLDialect,
    models: Seq<ModelContent>,
    tables: Seq<LiveTableModel>,
    reset: bool,
)
    requires
        schema_converged(models, tables),
        distinct_model_tables(models),
    ensures
        spec_migrate(dialect, models, tables, reset) == Ok::<_, Seq<char>>(
            Seq::<StepModel>::empty(),
        ),
    decreases models.len(),
{
    if models.len() == 0 {
        if tables.len() > 0 {
            assert(exists|i: int|
                0 <= i < models.len() && !(#[trigger] models[i]).is_virtual
                    && models[i].table_name == tables[0].name);
            assert(false);
        }
        assert(drop_steps(dialect, tables) =~= Seq::<StepModel>::empty());
        assert(Seq::<StepModel>::empty() + drop_steps(dialect, tables) =~= Seq::<
            StepModel,
        >::empty());
    } else {
        let m = models[0];
        let rest = models.drop_first();
        assert(forall|i: int, k: int|
            0 <= i < k < rest.len() && !(#[trigger] rest[i]).is_virtual && !(
            #[trigger] rest[k]).is_virtual ==> rest[i].table_name != rest[k].table_name) by {
            assert forall|i: int, k: int|
                0 <= i < k < rest.len() && !(#[trigger] rest[i]).is_virtual && !(
                #[trigger] rest[k]).is_virtual implies rest[i].table_name
                != rest[k].table_name by {
                assert(rest[i] == models[i + 1]);
                assert(rest[k] == models[k + 1]);
            }
        }
        let ws: Seq<LiveTableModel> = if m.is_virtual {
            tables
        } else {
            remove_live(tables, m.table_name)
        };
        if m.is_virtual {
            assert(spec_model_plan(dialect, m, tables, reset) == Ok::<_, Seq<char>>(
                (Seq::<StepModel>::empty(), tables),
            ));
        } else {
            assert(has_live(tables, m.table_name) && columns_converged(
                get_live(tables, m.table_name).columns,
                m,
            ));
            lemma_converged_model_plans_nothing(dialect, m, tables, reset);
        }
        // the remaining models stay converged against the reduced set
        assert forall|i: int|
            0 <= i < rest.len() && !(#[trigger] rest[i]).is_virtual implies has_live(
            ws,
            rest[i].table_name,
        ) && columns_converged(get_live(ws, rest[i].table_name).columns, rest[i]) by {
            assert(rest[i] == models[i + 1]);
            if !m.is_virtual {
                assert(rest[i].table_name != m.table_name);
                lemma_remove_live_other(tables, m.table_name, rest[i].table_name);
            }
        }
        assert forall|j: int| 0 <= j < ws.len() implies exists|i: int|
            0 <= i < rest.len() && !(#[trigger] rest[i]).is_virtual && rest[i].table_name == (
        #[trigger] ws[j]).name by {
            if m.is_virtual {
                let i = choose|i: int|
                    0 <= i < models.len() && !(#[trigger] models[i]).is_virtual
                        && models[i].table_name == ws[j].name;
                assert(i >= 1);
                assert(rest[i - 1] == models[i]);
            } else {
                lemma_remove_live_entries(tables, m.table_name);
                let k = choose|k: int|
                    0 <= k < tables.len() && #[trigger] ws[j] == tables[k];
                let i = choose|i: int|
                    0 <= i < models.len() && !(#[trigger] models[i]).is_virtual
                        && models[i].table_name == tables[k].name;
                if i == 0 {
                    // the model's own table was removed, and names are unique
                    lemma_count_unique(tables, m.table_name);
                    lemma_has_live_count(tables, m.table_name);
                    lemma_count_remove(tables, m.table_name, m.table_name);
                    lemma_count_at_index(ws, j);
                    assert(count_name(ws, m.table_name) == 0);
                    assert(false);
                } else {
                    assert(rest[i - 1] == models[i]);
                }
            }
        }
        if !m.is_virtual {
            lemma_remove_live_unique(tables, m.table_name);
        }
        lemma_idempotence(dialect, rest, ws, reset);
        // assemble: the head plans nothing and the tail plans nothing
        match spec_migrate_models(dialect, rest, ws, reset) {
            Err(_) => {
                assert(false);
            },
            Ok(done) => {
                assert(done.0 + drop_steps(dialect, done.1) == Seq::<StepModel>::empty());
                assert(done.0.len() == 0);
                assert(done.0 =~= Seq::<StepModel>::empty());
                assert(drop_steps(dialect, done.1).len() == 0);
                assert(spec_migrate_models(dialect, models, tables, reset) == Ok::<
                    _,
                    Seq<char>,
                >((Seq::<StepModel>::empty() + done.0, done.1)));
                assert(Seq::<StepModel>::empty() + done.0 =~= Seq::<StepModel>::empty());
                assert(Seq::<StepModel>::empty() + drop_steps(dialect, done.1) =~= Seq::<
                    StepModel,
                >::empty());
            },
        }
    }
}

/// Whether a model accounts for the live table name `name`: it declares
/// it as its table, or lists it in its rename history.
pub open spec fn spec_claims(m: ModelContent, name: Seq<char>) -> bool {
    !m.is_virtual && (m.table_name == name || (m.migration matches Some(mig)
        && mig.renamed.contains(name)))
}

proof fn lemma_untouched_count(
    dialect: SQLDialect,
    models: Seq<ModelContent>,
    tables: Seq<LiveTableModel>,
    reset: bool,
    name: Seq<char>,
)
    requires
        forall|i: int| 0 <= i < models.len() ==> !spec_claims(#[trigger] models[i], name),
        spec_migrate_models(dialect, models, tables, reset) is Ok,
    ensures
        count_name(spec_migrate_models(dialect, models, tables, reset)->Ok_0.1, name)
            == count_name(tables, name),
    decreases models.len(),
{
    if models.len() > 0 {
        let m = models[0];
        assert(!spec_claims(m, name));
        let ws = spec_model_plan(dialect, m, tables, reset)->Ok_0.1;
        lemma_plan_ws_shape(dialect, m, tables, reset);
        if ws == tables {
        } else if !m.is_virtual && has_live(tables, m.table_name) && ws == remove_live(
            tables,
            m.table_name,
        ) {
            assert(m.table_name != name);
            lemma_count_remove(tables, m.table_name, name);
        } else {
            let old = choose|old: Seq<char>|
                {
                    &&& #[trigger] has_live(tables, old)
                    &&& (m.migration matches Some(mig) && mig.renamed.contains(old))
                    &&& spec_model_plan(dialect, m, tables, reset)->Ok_0.1 == remove_live(
                        rename_live(tables, old, m.table_name),
                        m.table_name,
                    )
                };
            assert(old != name);
            assert(m.table_name != name);
            lemma_count_rename(tables, old, m.table_name, name);
            lemma_count_remove(rename_live(tables, old, m.table_name), m.table_name, name);
        }
        let rest = models.drop_first();
        assert(forall|i: int| 0 <= i < rest.len() ==> !spec_claims(#[trigger] rest[i], name))
            by {
            assert forall|i: int| 0 <= i < rest.len() implies !spec_claims(
                #[trigger] rest[i],
                name,
            ) by {
                assert(rest[i] == models[i + 1]);
            }
        }
        lemma_untouched_count(dialect, rest, ws, reset, name);
    }
}

/// Drop-cleanup, part one: a live table that no declared model accounts
/// for — neither as its table name nor in its rename history — is still
/// in the working set when every model has been processed, exactly once;
/// the plan therefore ends by dropping it exactly once, since its final
/// statements are one `DROP TABLE` per remaining working-set entry.
pub proof fn lemma_drop_cleanup(
    dialect: SQLDialect,
    models: Seq<ModelContent>,
    tables: Seq<LiveTableModel>,
    reset: bool,
    name: Seq<char>,
)
    requires
        unique_live_names(tables),
        has_live(tables, name),
        forall|i: int| 0 <= i < models.len() ==> !spec_claims(#[trigger] models[i], name),
        spec_migrate_models(dialect, models, tables, reset) is Ok,
    ensures
        count_name(spec_migrate_models(dialect, models, tables, reset)->Ok_0.1, name) == 1,
        has_live(spec_migrate_models(dialect, models, tables, reset)->Ok_0.1, name),
        spec_migrate(dialect, models, tables, reset) is Ok,
        exists|j: int|
            0 <= j < spec_migrate(dialect, models, tables, reset)->Ok_0.len() && #[trigger] spec_migrate(
                dialect,
                models,
                tables,
                reset,
            )->Ok_0[j] == StepModel::Execute(stmt::drop_table_chars(dialect, name)),
{
    lemma_untouched_count(dialect, models, tables, reset, name);
    lemma_has_live_count(tables, name);
    lemma_count_unique(tables, name);
    let remaining = spec_migrate_models(dialect, models, tables, reset)->Ok_0.1;
    lemma_has_live_count(remaining, name);
    lemma_has_live_gives_index(remaining, name);
    let k = choose|k: int| 0 <= k < remaining.len() && (#[trigger] remaining[k]).name == name;
    let main = spec_migrate_models(dialect, models, tables, reset)->Ok_0.0;
    let plan = spec_migrate(dialect, models, tables, reset)->Ok_0;
    assert(drop_steps(dialect, remaining)[k] == StepModel::Execute(
        stmt::drop_table_chars(dialect, remaining[k].name),
    ));
    assert(plan[main.len() + k] == StepModel::Execute(stmt::drop_table_chars(dialect, name)));
}

proof fn lemma_rename_unique(
    tables: Seq<LiveTableModel>,
    from_name: Seq<char>,
    to_name: Seq<char>,
)
    requires
        unique_live_names(tables),
        !has_live(tables, to_name),
    ensures
        unique_live_names(rename_live(tables, from_name, to_name)),
    decreases tables.len(),
{
    if tables.len() > 0 {
        lemma_drop_first_unique(tables);
        let r = rename_live(tables, from_name, to_name);
        if tables[0].name == from_name {
            assert(r[0].name == to_name);
            assert(r.drop_first() =~= tables.drop_first());
            assert forall|j: int, k: int|
                0 <= j < k < r.len() implies (#[trigger] r[j]).name != (#[trigger] r[k]).name by {
                if j == 0 {
                    assert(r[k] == tables[k]);
                    lemma_count_at_index(tables, k);
                    lemma_has_live_count(tables, tables[k].name);
                    assert(has_live(tables, tables[k].name));
                } else {
                    assert(r[j] == tables[j]);
                    assert(r[k] == tables[k]);
                }
            }
        } else {
            assert(!has_live(tables.drop_first(), to_name));
            lemma_rename_unique(tables.drop_first(), from_name, to_name);
            let rr = rename_live(tables.drop_first(), from_name, to_name);
            lemma_rename_len(tables, from_name, to_name);
            lemma_rename_len(tables.drop_first(), from_name, to_name);
            assert(r[0] == tables[0]);
            assert(r.drop_first() =~= rr);
            assert forall|j: int, k: int|
                0 <= j < k < r.len() implies (#[trigger] r[j]).name != (#[trigger] r[k]).name by {
                if j == 0 {
                    assert(r[k] == rr[k - 1]);
                    if k - 1 < tables.drop_first().len() {
                        // the renamed entry carries to_name, every other keeps its name
                        lemma_rename_entry_names(tables.drop_first(), from_name, to_name, k - 1);
                        if rr[k - 1].name == to_name {
                            lemma_count_at_index(tables, 0);
                            lemma_has_live_count(tables, to_name);
                            assert(tables[0].name != to_name);
                        } else {
                            assert(rr[k - 1].name == tables.drop_first()[k - 1].name);
                            assert(tables.drop_first()[k - 1] == tables[k]);
                        }
                    }
                } else {
                    assert(r[j] == rr[j - 1]);
                    assert(r[k] == rr[k - 1]);
                }
            }
        }
    }
}

proof fn lemma_rename_len(tables: Seq<LiveTableModel>, from_name: Seq<char>, to_name: Seq<char>)
    ensures
        rename_live(tables, from_name, to_name).len() == tables.len(),
    decreases tables.len(),
{
    if tables.len() > 0 {
        if tables[0].name == from_name {
        } else {
            lemma_rename_len(tables.drop_first(), from_name, to_name);
        }
    }
}

proof fn lemma_rename_entry_names(
    tables: Seq<LiveTableModel>,
    from_name: Seq<char>,
    to_name: Seq<char>,
    j: int,
)
    requires
        0 <= j < tables.len(),
    ensures
        rename_live(tables, from_name, to_name)[j].name == to_name || rename_live(
            tables,
            from_name,
            to_name,
        )[j].name == tables[j].name,
    decreases j,
{
    let r = rename_live(tables, from_name, to_name);
    lemma_rename_len(tables, from_name, to_name);
    if tables[0].name == from_name {
        if j > 0 {
            assert(r[j] == tables[j]);
        }
    } else {
        assert(r[0] == tables[0]);
        if j > 0 {
            lemma_rename_len(tables.drop_first(), from_name, to_name);
            assert(r.drop_first() =~= rename_live(tables.drop_first(), from_name, to_name));
            lemma_rename_entry_names(tables.drop_first(), from_name, to_name, j - 1);
            assert(r[j] == rename_live(tables.drop_first(), from_name, to_name)[j - 1]);
            assert(tables.drop_first()[j - 1] == tables[j]);
        }
    }
}

proof fn lemma_plan_preserves_unique(
    dialect: SQLDialect,
    m: ModelContent,
    tables: Seq<LiveTableModel>,
    reset: bool,
)
    requires
        unique_live_names(tables),
        spec_model_plan(dialect, m, tables, reset) is Ok,
    ensures
        unique_live_names(spec_model_plan(dialect, m, tables, reset)->Ok_0.1),
{
    let ws = spec_model_plan(dialect, m, tables, reset)->Ok_0.1;
    lemma_plan_ws_shape(dialect, m, tables, reset);
    if ws == tables {
    } else if !m.is_virtual && has_live(tables, m.table_name) && ws == remove_live(
        tables,
        m.table_name,
    ) {
        lemma_remove_live_unique(tables, m.table_name);
    } else {
        let old = choose|old: Seq<char>|
            {
                &&& #[trigger] has_live(tables, old)
                &&& (m.migration matches Some(mig) && mig.renamed.contains(old))
                &&& spec_model_plan(dialect, m, tables, reset)->Ok_0.1 == remove_live(
                    rename_live(tables, old, m.table_name),
                    m.table_name,
                )
            };
        lemma_rename_unique(tables, old, m.table_name);
        lemma_remove_live_unique(rename_live(tables, old, m.table_name), m.table_name);
    }
}

proof fn lemma_absent_count_stays(
    dialect: SQLDialect,
    models: Seq<ModelContent>,
    tables: Seq<LiveTableModel>,
    reset: bool,
    name: Seq<char>,
)
    requires
        count_name(tables, name) == 0,
        forall|k: int|
            0 <= k < models.len() && !(#[trigger] models[k]).is_virtual ==> models[k].table_name
                != name,
        spec_migrate_models(dialect, models, tables, reset) is Ok,
    ensures
        count_name(spec_migrate_models(dialect, models, tables, reset)->Ok_0.1, name) == 0,
    decreases models.len(),
{
    if models.len() > 0 {
        let m = models[0];
        let ws = spec_model_plan(dialect, m, tables, reset)->Ok_0.1;
        lemma_plan_ws_shape(dialect, m, tables, reset);
        if ws == tables {
        } else if !m.is_virtual && has_live(tables, m.table_name) && ws == remove_live(
            tables,
            m.table_name,
        ) {
            lemma_count_remove(tables, m.table_name, name);
        } else {
            let old = choose|old: Seq<char>|
                {
                    &&& #[trigger] has_live(tables, old)
                    &&& (m.migration matches Some(mig) && mig.renamed.contains(old))
                    &&& spec_model_plan(dialect, m, tables, reset)->Ok_0.1 == remove_live(
                        rename_live(tables, old, m.table_name),
                        m.table_name,
                    )
                };
            lemma_has_live_count(tables, old);
            assert(old != name);
            assert(m.table_name != name);
            lemma_count_rename(tables, old, m.table_name, name);
            lemma_count_remove(rename_live(tables, old, m.table_name), m.table_name, name);
        }
        let rest = models.drop_first();
        assert forall|k: int|
            0 <= k < rest.len() && !(#[trigger] rest[k]).is_virtual implies rest[k].table_name
            != name by {
            assert(rest[k] == models[k + 1]);
        }
        lemma_absent_count_stays(dialect, rest, ws, reset, name);
    }
}

/// Drop-cleanup, part two: a declared non-virtual model's table — unique
/// among the declared table names — is never left in the working set, so
/// the plan's final cleanup never drops it.
pub proof fn lemma_no_model_table_dropped(
    dialect: SQLDialect,
    models: Seq<ModelContent>,
    tables: Seq<LiveTableModel>,
    reset: bool,
    i: int,
)
    requires
        0 <= i < models.len(),
        !models[i].is_virtual,
        forall|k: int|
            0 <= k < models.len() && k != i && !(#[trigger] models[k]).is_virtual
                ==> models[k].table_name != models[i].table_name,
        unique_live_names(tables),
        spec_migrate_models(dialect, models, tables, reset) is Ok,
    ensures
        !has_live(spec_migrate_models(dialect, models, tables, reset)->Ok_0.1, models[i].table_name),
    decreases models.len(),
{
    let name = models[i].table_name;
    let m = models[0];
    let ws = spec_model_plan(dialect, m, tables, reset)->Ok_0.1;
    let rest = models.drop_first();
    if i == 0 {
        // after this model is processed, its table name is gone
        lemma_plan_ws_shape(dialect, m, tables, reset);
        if has_live(tables, name) {
            assert(ws == remove_live(tables, name));
            lemma_count_unique(tables, name);
            lemma_has_live_count(tables, name);
            lemma_count_remove(tables, name, name);
            assert(count_name(ws, name) == 0);
        } else {
            lemma_has_live_count(tables, name);
            if ws == tables {
                assert(count_name(ws, name) == 0);
            } else {
                let old = choose|old: Seq<char>|
                    {
                        &&& #[trigger] has_live(tables, old)
                        &&& (m.migration matches Some(mig) && mig.renamed.contains(old))
                        &&& spec_model_plan(dialect, m, tables, reset)->Ok_0.1 == remove_live(
                            rename_live(tables, old, name),
                            name,
                        )
                    };
                assert(old != name);
                lemma_count_rename_target(tables, old, name);
                let renamed = rename_live(tables, old, name);
                lemma_has_live_count(renamed, name);
                lemma_count_remove(renamed, name, name);
                assert(count_name(ws, name) == 0);
            }
        }
        assert forall|k: int|
            0 <= k < rest.len() && !(#[trigger] rest[k]).is_virtual implies rest[k].table_name
            != name by {
            assert(rest[k] == models[k + 1]);
        }
        lemma_absent_count_stays(dialect, rest, ws, reset, name);
        lemma_has_live_count(spec_migrate_models(dialect, models, tables, reset)->Ok_0.1, name);
    } else {
        lemma_plan_preserves_unique(dialect, m, tables, reset);
        assert(rest[i - 1] == models[i]);
        assert forall|k: int|
            0 <= k < rest.len() && k != i - 1 && !(#[trigger] rest[k]).is_virtual
            implies rest[k].table_name != rest[i - 1].table_name by {
            assert(rest[k] == models[k + 1]);
        }
        lemma_no_model_table_dropped(dialect, rest, ws, reset, i - 1);
    }
}

/// Whether a step is a column-level change: a post-action, or a statement
/// that begins with `A` — every statement the manipulation renderer emits
/// is an `ALTER TABLE ..` form, so none can be a `CREATE TABLE` or
/// `DROP TABLE` statement.
pub open spec fn step_alter_prefixed(s: StepModel) -> bool {
    match s {
        StepModel::PostAction(_) => true,
        StepModel::Execute(text) => text.len() > 0 && text[0] == 'A',
    }
}

proof fn lemma_one_manip_alter(dialect: SQLDialect, table: Seq<char>, m: ManipModel)
    requires
        one_manip_steps(dialect, table, m) is Ok,
    ensures
        forall|j: int|
            0 <= j < one_manip_steps(dialect, table, m)->Ok_0.len() ==> step_alter_prefixed(
                #[trigger] one_manip_steps(dialect, table, m)->Ok_0[j],
            ),
{
    reveal_strlit("ALTER TABLE ");
    let steps = one_manip_steps(dialect, table, m)->Ok_0;
    assert forall|j: int| 0 <= j < steps.len() implies step_alter_prefixed(
        #[trigger] steps[j],
    ) by {
        match m {
            ManipModel::Add { column, action, default } => {
                if j == 0 {
                    assert(steps[0] is Execute);
                    assert(steps[0]->Execute_0[0] == 'A');
                } else {
                    assert(steps[j] == action_steps(action)[j - 1]);
                    assert(steps[j] is PostAction);
                }
            },
            ManipModel::Alter { before, after, .. } => {
                if !(dialect is PostgreSQL) {
                    assert(steps[j]->Execute_0[0] == 'A');
                } else {
                    let clauses = spec_psql_alter_clauses(table, before, after);
                    assert(steps[j] == StepModel::Execute(clauses[j]));
                    lemma_psql_clause_alter(table, before, after, j);
                }
            },
            ManipModel::Remove { name, action } => {
                if j < action_steps(action).len() {
                    assert(steps[j] == action_steps(action)[j]);
                    assert(steps[j] is PostAction);
                } else {
                    assert(steps[j] == StepModel::Execute(
                        stmt::drop_column_chars(dialect, table, name),
                    ));
                    assert(steps[j]->Execute_0[0] == 'A');
                }
            },
            ManipModel::Rename { from_name, to_name } => {
                assert(steps[j]->Execute_0[0] == 'A');
            },
        }
    }
}

proof fn lemma_psql_clause_alter(table: Seq<char>, before: ColumnModel, after: ColumnModel, j: int)
    requires
        0 <= j < spec_psql_alter_clauses(table, before, after).len(),
    ensures
        spec_psql_alter_clauses(table, before, after)[j].len() > 0,
        spec_psql_alter_clauses(table, before, after)[j][0] == 'A',
{
    reveal_strlit("ALTER TABLE ");
    let d = SQLDialect::PostgreSQL;
    let prefix = "ALTER TABLE "@ + stmt::ident_chars(d, table) + " ALTER COLUMN "@
        + stmt::ident_chars(d, after.name);
    assert(prefix[0] == 'A');
    let clauses = spec_psql_alter_clauses(table, before, after);
    assert forall|x: int| 0 <= x < clauses.len() implies clauses[x].len() > 0 && clauses[x][0]
        == 'A' by {
        let first: Seq<Seq<char>> = if before.column_type != after.column_type {
            seq![prefix + " TYPE "@ + after.column_type.type_name_seq(d)]
        } else {
            Seq::empty()
        };
        if x < first.len() {
            assert(clauses[x] == prefix + " TYPE "@ + after.column_type.type_name_seq(d));
        } else {
            match (before.default, after.default) {
                (Option::None, Option::Some(text)) => {
                    assert(clauses[x] == prefix + " SET DEFAULT "@ + text);
                },
                (Option::Some(_), Option::None) => {
                    assert(clauses[x] == prefix + " DROP DEFAULT"@);
                },
                (Option::Some(old_text), Option::Some(new_text)) => {
                    assert(clauses[x] == prefix + " SET DEFAULT "@ + new_text);
                },
                (Option::None, Option::None) => {
                    assert(false);
                },
            }
        }
    }
}

proof fn lemma_manip_steps_alter(dialect: SQLDialect, table: Seq<char>, manips: Seq<ManipModel>)
    requires
        manip_steps(dialect, table, manips) is Ok,
    ensures
        forall|j: int|
            0 <= j < manip_steps(dialect, table, manips)->Ok_0.len() ==> step_alter_prefixed(
                #[trigger] manip_steps(dialect, table, manips)->Ok_0[j],
            ),
    decreases manips.len(),
{
    if manips.len() > 0 {
        lemma_one_manip_alter(dialect, table, manips[0]);
        lemma_manip_steps_alter(dialect, table, manips.drop_first());
        let head = one_manip_steps(dialect, table, manips[0])->Ok_0;
        let rest = manip_steps(dialect, table, manips.drop_first())->Ok_0;
        let steps = manip_steps(dialect, table, manips)->Ok_0;
        assert(steps == head + rest);
        assert forall|j: int| 0 <= j < steps.len() implies step_alter_prefixed(
            #[trigger] steps[j],
        ) by {
            if j < head.len() {
                assert(steps[j] == head[j]);
            } else {
                assert(steps[j] == rest[j - head.len()]);
            }
        }
    }
}

/// Rename detection: when a model's table is missing live but a name of
/// its rename history exists live — the first such name, in declared
/// order — and the plan goes through, the model's plan opens with exactly
/// the one table-rename statement; every further step is a column-level
/// change, so no `CREATE TABLE` and no `DROP TABLE` statement for that
/// table is planned, and the renamed table leaves the working set, out of
/// the cleanup phase's reach.
pub proof fn lemma_rename_detection(
    dialect: SQLDialect,
    m: ModelContent,
    tables: Seq<LiveTableModel>,
    k: int,
)
    requires
        !m.is_virtual,
        m.migration is Some,
        !has_live(tables, m.table_name),
        0 <= k < m.migration->0.renamed.len(),
        has_live(tables, m.migration->0.renamed[k]),
        forall|j: int| 0 <= j < k ==> !has_live(tables, #[trigger] m.migration->0.renamed[j]),
        spec_model_plan(dialect, m, tables, false) is Ok,
    ensures
        ({
            let plan = spec_model_plan(dialect, m, tables, false)->Ok_0;
            let old = m.migration->0.renamed[k];
            &&& plan.0.len() >= 1
            &&& plan.0[0] == StepModel::Execute(
                stmt::rename_table_chars(dialect, old, m.table_name),
            )
            &&& forall|j: int| 1 <= j < plan.0.len() ==> step_alter_prefixed(#[trigger] plan.0[j])
            &&& forall|j: int|
                0 <= j < plan.0.len() ==> #[trigger] plan.0[j] != StepModel::Execute(
                    stmt::create_table_chars(dialect, m),
                ) && plan.0[j] != StepModel::Execute(
                    stmt::drop_table_chars(dialect, m.table_name),
                )
            &&& !has_live(plan.1, m.table_name)
        }),
{
    let renamed = m.migration->0.renamed;
    let old = renamed[k];
    lemma_rename_pass_skip(tables, renamed, m.table_name, k);
    let tail = renamed.subrange(k, renamed.len() as int);
    assert(tail[0] == old);
    assert(spec_rename_pass(tables, renamed, m.table_name) == Some(
        (old, rename_live(tables, old, m.table_name)),
    ));
    let tables1 = rename_live(tables, old, m.table_name);
    lemma_has_live_count(tables, old);
    lemma_has_live_count(tables, m.table_name);
    assert(old != m.table_name);
    lemma_count_rename_target(tables, old, m.table_name);
    lemma_has_live_count(tables1, m.table_name);
    assert(has_live(tables1, m.table_name));
    let plan = spec_model_plan(dialect, m, tables, false)->Ok_0;
    let live = get_live(tables1, m.table_name);
    let manips = spec_manipulations(live.columns, m);
    let pre = seq![StepModel::Execute(stmt::rename_table_chars(dialect, old, m.table_name))];
    assert(manip_steps(dialect, m.table_name, manips) is Ok);
    let rendered = manip_steps(dialect, m.table_name, manips)->Ok_0;
    assert(plan.0 == pre + rendered);
    assert(plan.0[0] == pre[0]);
    lemma_manip_steps_alter(dialect, m.table_name, manips);
    assert forall|j: int| 1 <= j < plan.0.len() implies step_alter_prefixed(
        #[trigger] plan.0[j],
    ) by {
        assert(plan.0[j] == rendered[j - 1]);
    }
    reveal_strlit("ALTER TABLE ");
    reveal_strlit("CREATE TABLE ");
    reveal_strlit("DROP TABLE ");
    assert(stmt::create_table_chars(dialect, m)[0] == 'C');
    assert(stmt::drop_table_chars(dialect, m.table_name)[0] == 'D');
    assert(stmt::rename_table_chars(dialect, old, m.table_name)[0] == 'A');
    assert forall|j: int| 0 <= j < plan.0.len() implies #[trigger] plan.0[j]
        != StepModel::Execute(stmt::create_table_chars(dialect, m)) && plan.0[j]
        != StepModel::Execute(stmt::drop_table_chars(dialect, m.table_name)) by {
        if j == 0 {
        } else {
            assert(step_alter_prefixed(plan.0[j]));
        }
    }
    lemma_count_remove(tables1, m.table_name, m.table_name);
    lemma_has_live_count(plan.1, m.table_name);
}

} // verus!
