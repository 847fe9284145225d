//! The declared side of a convergence run: the narrow contract a model
//! collaborator exposes to this engine — a table name, an ordered list of
//! typed fields, an optional rename history, and a virtual flag.
use crate::column::ColumnModel;
use crate::column::SQLColumn;
use crate::column::SQLType;
use crate::value::Value;
use crate::value::ValueModel;
use vstd::prelude::*;

verus! {

/// The mathematical content of a declared field.
pub ghost struct FieldModel {
    pub column_name: Seq<char>,
    pub database_type: SQLType,
    pub required: bool,
    pub auto_increment: bool,
    pub primary: bool,
    pub unique: bool,
    pub default: Option<ValueModel>,
    pub add_action: Option<u64>,
}

/// A declared field: the desired shape of one column, an optional default
/// value to attach when the column is added, and an optional post-action to
/// run after adding it.
#[derive(Debug)]
pub struct Field {
    pub column_name: String,
    pub database_type: SQLType,
    pub required: bool,
    pub auto_increment: bool,
    pub primary: bool,
    pub unique: bool,
    pub default: Option<Value>,
    pub add_action: Option<u64>,
}

impl View for Field {
    type V = FieldModel;

    open spec fn view(&self) -> FieldModel {
        FieldModel {
            column_name: self.column_name@,
            database_type: self.database_type,
            required: self.required,
            auto_increment: self.auto_increment,
            primary: self.primary,
            unique: self.unique,
            default: match self.default {
                Some(v) => Some(v@),
                None => None,
            },
            add_action: self.add_action,
        }
    }
}

/// The column a declared field calls for; a field never declares a rendered
/// default literal directly, so the column's default is empty.
pub open spec fn field_column(f: FieldModel) -> ColumnModel {
    ColumnModel {
        name: f.column_name,
        column_type: f.database_type,
        not_null: f.required,
        auto_increment: f.auto_increment,
        default: None,
        primary_key: f.primary,
        unique_key: f.unique,
    }
}

/// Builds the column a declared field calls for.
pub fn column_of_field(field: &Field) -> (r: SQLColumn)
    ensures
        r@ == field_column(field@),
{
    SQLColumn::new(
        field.column_name.clone(),
        field.database_type,
        field.required,
        field.auto_increment,
        None,
        field.primary,
        field.unique,
    )
}

/// The mathematical content of a model's migration metadata.
pub ghost struct MigrationModel {
    pub renamed: Seq<Seq<char>>,
    pub dropped_actions: Seq<(Seq<char>, u64)>,
}

/// Migration metadata a model may declare: the ordered list of names its
/// table was previously known by, and a post-action to run before a named
/// column is dropped.
#[derive(Debug)]
pub struct ModelMigration {
    pub renamed: Vec<String>,
    pub dropped_actions: Vec<(String, u64)>,
}

impl View for ModelMigration {
    type V = MigrationModel;

    open spec fn view(&self) -> MigrationModel {
        MigrationModel {
            renamed: self.renamed@.map_values(|s: String| s@),
            dropped_actions: self.dropped_actions@.map_values(|p: (String, u64)| (p.0@, p.1)),
        }
    }
}

/// The mathematical content of a declared model.
pub ghost struct ModelContent {
    pub name: Seq<char>,
    pub table_name: Seq<char>,
    pub is_virtual: bool,
    pub migration: Option<MigrationModel>,
    pub fields: Seq<FieldModel>,
}

/// A declared model: the desired shape of one table.
#[derive(Debug)]
pub struct Model {
    pub name: String,
    pub table_name: String,
    pub is_virtual: bool,
    pub migration: Option<ModelMigration>,
    pub fields: Vec<Field>,
}

impl View for Model {
    type V = ModelContent;

    open spec fn view(&self) -> ModelContent {
        ModelContent {
            name: self.name@,
            table_name: self.table_name@,
            is_virtual: self.is_virtual,
            migration: match self.migration {
                Some(m) => Some(m@),
                None => None,
            },
            fields: self.fields@.map_values(|f: Field| f@),
        }
    }
}

impl ModelContent {
    /// The columns the model's fields call for, in declaration order.
    pub open spec fn desired_columns(self) -> Seq<ColumnModel> {
        self.fields.map_values(|f: FieldModel| field_column(f))
    }
}

impl Model {
    /// The model's name.
    pub fn name(&self) -> (r: &str)
        ensures
            r@ == self@.name,
    {
        self.name.as_str()
    }

    /// The name of the table the model converges.
    pub fn table_name(&self) -> (r: &str)
        ensures
            r@ == self@.table_name,
    {
        self.table_name.as_str()
    }

    /// Whether the model is virtual: a virtual model persists nothing and
    /// is skipped by convergence entirely.
    pub fn is_virtual(&self) -> (r: bool)
        ensures
            r == self@.is_virtual,
    {
        self.is_virtual
    }

    /// The model's migration metadata, if any.
    pub fn migration(&self) -> (r: &Option<ModelMigration>)
        ensures
            match r {
                Some(m) => self@.migration == Some(m@),
                None => self@.migration is None,
            },
    {
        &self.migration
    }
}

} // verus!
