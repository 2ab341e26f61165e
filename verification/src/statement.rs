//! The sea-query statements that this crate builds, and what the crate
//! relies on about them.
//!
//! sea-query is not verified. Each function of this module makes one call
//! into it, and its contract is what the rest of the crate takes for granted
//! about that call.

use sea_query::{ColumnDef, TableCreateStatement};
use vstd::prelude::*;

verus! {

/// `sea_query::TableCreateStatement`: a `CREATE TABLE` statement under
/// construction. Nothing of its inside is known to the proofs but what
/// `table_model` names.
#[verifier::external_type_specification]
#[verifier::external_body]
pub struct ExTableCreateStatement(sea_query::TableCreateStatement);

/// `sea_query::ColumnDef`: the definition of one column. Nothing of its
/// inside is known to the proofs but what `column_model` names.
#[verifier::external_type_specification]
#[verifier::external_body]
pub struct ExColumnDef(sea_query::ColumnDef);

/// The type of a column, as far as this crate sets it.
#[derive(Clone, Copy, Debug, PartialEq, Eq, Structural)]
pub enum ColumnKind {
    /// `ColumnType::Integer`.
    Integer,
    /// `ColumnType::Char` without a length.
    Char,
    /// `ColumnType::Timestamp`.
    Timestamp,
    /// `ColumnType::String` without a length.
    String,
    /// Any other column type.
    Other,
}

/// A keyword of a column's specification, as far as this crate sets it.
#[derive(Clone, Copy, Debug, PartialEq, Eq, Structural)]
pub enum ColumnConstraint {
    /// `ColumnSpec::NotNull`.
    NotNull,
    /// `ColumnSpec::AutoIncrement`.
    AutoIncrement,
    /// `ColumnSpec::PrimaryKey`.
    PrimaryKey,
    /// Any other keyword.
    Other,
}

/// What a column definition holds: its unquoted name, its type if one was
/// set, and its keywords in the order in which they were added.
pub struct ColumnModel {
    pub name: Seq<char>,
    pub kind: Option<ColumnKind>,
    pub constraints: Seq<ColumnConstraint>,
}

/// What a `CREATE TABLE` statement holds: the unquoted name of its table if
/// one was set, whether it says `IF NOT EXISTS`, and its columns in order.
pub struct TableModel {
    pub name: Option<Seq<char>>,
    pub if_not_exists: bool,
    pub columns: Seq<ColumnModel>,
}

/// The contents of a sea-query column definition: the text of its name, its
/// `ColumnType` and its `ColumnSpec` keywords, as `ColumnModel` puts them.
/// The table that a statement records in each of its columns is no part of
/// it.
pub uninterp spec fn column_model(column: ColumnDef) -> ColumnModel;

/// The contents of a sea-query `CREATE TABLE` statement: the text of its
/// table name, its `IF NOT EXISTS` flag and the contents of its columns, as
/// `TableModel` puts them. Its indexes, foreign keys, checks and options are
/// no part of it.
pub uninterp spec fn table_model(statement: TableCreateStatement) -> TableModel;

/// Calls `sea_query::Table::create`, which gives a statement without a
/// table name, without `IF NOT EXISTS` and without columns.
#[verifier::external_body]
pub(crate) fn new_table_statement() -> (statement: TableCreateStatement)
    ensures
        table_model(statement) == (TableModel {
            name: None,
            if_not_exists: false,
            columns: Seq::empty(),
        }),
{
    sea_query::Table::create()
}

/// Calls `TableCreateStatement::table` with a `sea_query::Alias` of the
/// given name, which sets the table of the statement and leaves the rest.
#[verifier::external_body]
pub(crate) fn set_table_name(statement: &mut TableCreateStatement, name: &str)
    ensures
        table_model(*final(statement)) == (TableModel {
            name: Some(name@),
            ..table_model(*old(statement))
        }),
{
    statement.table(sea_query::Alias::new(name));
}

/// Calls `TableCreateStatement::if_not_exists`, which sets that flag of the
/// statement and leaves the rest.
#[verifier::external_body]
pub(crate) fn set_if_not_exists(statement: &mut TableCreateStatement)
    ensures
        table_model(*final(statement)) == (TableModel {
            if_not_exists: true,
            ..table_model(*old(statement))
        }),
{
    statement.if_not_exists();
}

/// Calls `TableCreateStatement::col`, which adds the column after the
/// columns that the statement has and leaves the rest.
#[verifier::external_body]
pub(crate) fn push_column(statement: &mut TableCreateStatement, column: ColumnDef)
    ensures
        table_model(*final(statement)) == (TableModel {
            columns: table_model(*old(statement)).columns.push(column_model(column)),
            ..table_model(*old(statement))
        }),
{
    statement.col(column);
}

/// Calls `ColumnDef::new` with a `sea_query::Alias` of the given name, which
/// gives a column of that name without a type and without keywords.
#[verifier::external_body]
pub(crate) fn new_column(name: &str) -> (column: ColumnDef)
    ensures
        column_model(column) == (ColumnModel {
            name: name@,
            kind: None,
            constraints: Seq::empty(),
        }),
{
    ColumnDef::new(sea_query::Alias::new(name))
}

/// Calls `ColumnDef::integer`, which sets the type of the column and leaves
/// the rest.
#[verifier::external_body]
pub(crate) fn set_integer(column: &mut ColumnDef)
    ensures
        column_model(*final(column)) == (ColumnModel {
            kind: Some(ColumnKind::Integer),
            ..column_model(*old(column))
        }),
{
    column.integer();
}

/// Calls `ColumnDef::char`, which sets the type of the column and leaves
/// the rest.
#[verifier::external_body]
pub(crate) fn set_char(column: &mut ColumnDef)
    ensures
        column_model(*final(column)) == (ColumnModel {
            kind: Some(ColumnKind::Char),
            ..column_model(*old(column))
        }),
{
    column.char();
}

/// Calls `ColumnDef::timestamp`, which sets the type of the column and
/// leaves the rest.
#[verifier::external_body]
pub(crate) fn set_timestamp(column: &mut ColumnDef)
    ensures
        column_model(*final(column)) == (ColumnModel {
            kind: Some(ColumnKind::Timestamp),
            ..column_model(*old(column))
        }),
{
    column.timestamp();
}

/// Calls `ColumnDef::string`, which sets the type of the column and leaves
/// the rest.
#[verifier::external_body]
pub(crate) fn set_string(column: &mut ColumnDef)
    ensures
        column_model(*final(column)) == (ColumnModel {
            kind: Some(ColumnKind::String),
            ..column_model(*old(column))
        }),
{
    column.string();
}

/// Calls `ColumnDef::not_null`, which adds that keyword after the keywords
/// that the column has and leaves the rest.
#[verifier::external_body]
pub(crate) fn set_not_null(column: &mut ColumnDef)
    ensures
        column_model(*final(column)) == (ColumnModel {
            constraints: column_model(*old(column)).constraints.push(ColumnConstraint::NotNull),
            ..column_model(*old(column))
        }),
{
    column.not_null();
}

/// Calls `ColumnDef::auto_increment`, which adds that keyword after the
/// keywords that the column has and leaves the rest.
#[verifier::external_body]
pub(crate) fn set_auto_increment(column: &mut ColumnDef)
    ensures
        column_model(*final(column)) == (ColumnModel {
            constraints: column_model(*old(column)).constraints.push(
                ColumnConstraint::AutoIncrement,
            ),
            ..column_model(*old(column))
        }),
{
    column.auto_increment();
}

/// Calls `ColumnDef::primary_key`, which adds that keyword after the
/// keywords that the column has and leaves the rest.
#[verifier::external_body]
pub(crate) fn set_primary_key(column: &mut ColumnDef)
    ensures
        column_model(*final(column)) == (ColumnModel {
            constraints: column_model(*old(column)).constraints.push(
                ColumnConstraint::PrimaryKey,
            ),
            ..column_model(*old(column))
        }),
{
    column.primary_key();
}

} // verus!
