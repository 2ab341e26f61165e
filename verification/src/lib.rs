//! The rules of the Portobello backend, verified with Verus.
//!
//! # Audited tables
//!
//! A table is described by an ordered list of identifiers: one entry that
//! names the table itself and one entry per column ([`iden`]). From the
//! descriptor of a source table and the descriptor of its audit table this
//! crate derives the two `CREATE TABLE` statements and the SQL text of the
//! trigger that copies every insert, update and delete on the source table
//! into the audit table ([`table`], [`create_audited_table`]). Before that
//! it checks that the audit descriptor holds exactly the source columns and
//! the standard audit columns.
//!
//! # Configuration
//!
//! The configuration of the application lives in three tables: types, keys,
//! and the entries of each key. [`configuration`] holds the records and the
//! rules of their fields, [`queries`] turns the rows of the tables into
//! records, [`user`] holds the users. [`environment`] and [`database`] hold
//! the settings of the connection and the address it is made to.
//!
//! # What is proved
//!
//! Every function has its contract in its signature, and Verus proves each
//! body against it. The statements are built with sea-query, which is not
//! verified: [`statement`] holds the calls into it, and each of them states
//! what the proofs take for granted about that call. This crate does no
//! input or output and does not compute with floating-point numbers.

pub mod configuration;
pub mod database;
pub mod environment;
pub mod iden;
pub mod number;
pub mod queries;
pub mod statement;
pub mod table;
pub mod text;
pub mod user;
pub mod validation;

use crate::iden::{
    assert_audit_table_iden_valid, audit_table_iden_valid, column_names, table_name,
    validation_error_holds, AuditTableError, TableDescriptor,
};
use crate::statement::{table_model, TableModel};
use crate::table::{
    add_audit_columns, audit_columns, audit_trigger_sql, builder_accepts,
    create_audit_trigger_unprepared, create_table_from_builder,
    lemma_valid_audit_has_audit_columns, new_table, TableKind,
};
use sea_query::TableCreateStatement;
use vstd::prelude::*;

verus! {

/// One request to the schema executor.
#[derive(Debug)]
pub enum SchemaOperation {
    /// Create the table that the statement describes.
    CreateTable(TableCreateStatement),
    /// Execute the SQL text as it stands, unprepared.
    ExecuteUnprepared(String),
}

/// Plans the creation of an audited table: the source table, its audit
/// table, and the trigger that stores every change of the first in the
/// second.
///
/// The audit descriptor is checked against the source descriptor first, and
/// nothing is planned where the check fails. Otherwise the result holds the
/// three requests to send to the schema executor, in this order, each after
/// the one before it has succeeded:
///
/// 1. create the source table, with the columns that the table builder
///    gives a source table;
/// 2. create the audit table, with the columns that the table builder gives
///    an audit table, followed by the standard audit columns;
/// 3. execute the SQL text that creates the trigger function and the
///    trigger.
pub fn create_audited_table<F: Fn(TableKind, &mut TableCreateStatement)>(
    table_iden_source: &TableDescriptor,
    table_iden_audit: &TableDescriptor,
    table_builder: &F,
) -> (planned: Result<Vec<SchemaOperation>, AuditTableError>)
    requires
        builder_accepts(table_builder, TableKind::Source, table_name(table_iden_source@)),
        builder_accepts(table_builder, TableKind::Audit, table_name(table_iden_audit@)),
    ensures
        planned is Ok <==> audit_table_iden_valid(table_iden_source@, table_iden_audit@),
        planned matches Err(error) ==> validation_error_holds(
            table_iden_source@,
            table_iden_audit@,
            error,
        ),
        planned matches Ok(operations) ==> {
            &&& operations@.len() == 3
            &&& operations@[0] matches SchemaOperation::CreateTable(source_table)
            &&& exists|given: &mut TableCreateStatement|
                new_table(*given, table_name(table_iden_source@)) && *final(given) == source_table
                    && #[trigger] call_ensures(table_builder, (TableKind::Source, given), ())
            &&& operations@[1] matches SchemaOperation::CreateTable(audit_table)
            &&& exists|given: &mut TableCreateStatement|
                new_table(*given, table_name(table_iden_audit@)) && #[trigger] call_ensures(
                    table_builder,
                    (TableKind::Audit, given),
                    (),
                ) && table_model(audit_table) == (TableModel {
                    columns: table_model(*final(given)).columns + audit_columns(),
                    ..table_model(*final(given))
                })
            &&& operations@[2] matches SchemaOperation::ExecuteUnprepared(sql)
            &&& sql@ == audit_trigger_sql(
                table_name(table_iden_source@),
                table_name(table_iden_audit@),
                column_names(table_iden_source@),
            )
        },
{
    match assert_audit_table_iden_valid(table_iden_source, table_iden_audit) {
        Err(error) => {
            return Err(error);
        },
        Ok(()) => {},
    }
    proof {
        lemma_valid_audit_has_audit_columns(table_iden_source@, table_iden_audit@);
    }

    let source_table = create_table_from_builder(
        table_iden_source.table_identifier(),
        table_builder,
        TableKind::Source,
    );

    let mut audit_table = create_table_from_builder(
        table_iden_audit.table_identifier(),
        table_builder,
        TableKind::Audit,
    );
    add_audit_columns(table_iden_audit, &mut audit_table);

    let sql = create_audit_trigger_unprepared(table_iden_source, table_iden_audit);

    let mut operations: Vec<SchemaOperation> = Vec::new();
    operations.push(SchemaOperation::CreateTable(source_table));
    operations.push(SchemaOperation::CreateTable(audit_table));
    operations.push(SchemaOperation::ExecuteUnprepared(sql));
    Ok(operations)
}

} // verus!
