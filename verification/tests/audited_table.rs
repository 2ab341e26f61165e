use portobello::iden::{AuditTableError, ColumnIdentifier, IdentifierRole, TableDescriptor};
use portobello::table::{create_audit_trigger_unprepared, TableKind};
use portobello::{create_audited_table, SchemaOperation};
use sea_query::{Alias, ColumnDef, PostgresQueryBuilder, TableCreateStatement};

fn described(table: &str, columns: &[&str]) -> TableDescriptor {
    let mut entries = vec![ColumnIdentifier::new(table, IdentifierRole::Table).unwrap()];
    for column in columns {
        entries.push(ColumnIdentifier::new(column, IdentifierRole::Column).unwrap());
    }
    TableDescriptor::new(entries).unwrap()
}

fn configuration_type_reference() -> TableDescriptor {
    described("configuration_type_reference", &["id", "name"])
}

fn configuration_type_reference_audit() -> TableDescriptor {
    described(
        "configuration_type_reference_audit",
        &[
            "audit_id",
            "id",
            "name",
            "audit_action",
            "audit_timestamp_transaction_start",
            "audit_timestamp_statement_start",
            "audit_timestamp_trigger",
            "audit_client_host",
            "audit_client_port",
            "audit_client_query",
        ],
    )
}

fn builder(table_kind: TableKind, table_create_statement: &mut TableCreateStatement) {
    table_create_statement
        .col(
            match (
                &table_kind,
                ColumnDef::new(Alias::new("id")).integer(),
            ) {
                (TableKind::Source, x) => x.not_null().auto_increment().primary_key(),
                (TableKind::Audit, x) => x,
            },
        )
        .col(
            match (
                &table_kind,
                ColumnDef::new(Alias::new("name")).string(),
            ) {
                (TableKind::Source, x) => x.not_null().unique_key(),
                (TableKind::Audit, x) => x,
            },
        );
}

fn sql_of(operation: &SchemaOperation) -> String {
    match operation {
        SchemaOperation::CreateTable(statement) => statement.to_string(PostgresQueryBuilder),
        SchemaOperation::ExecuteUnprepared(sql) => sql.clone(),
    }
}

#[test]
fn audited_table_is_planned_in_three_requests() {
    let source = configuration_type_reference();
    let audit = configuration_type_reference_audit();

    let operations = create_audited_table(&source, &audit, &builder).unwrap();

    assert_eq!(operations.len(), 3);
    assert!(matches!(operations[0], SchemaOperation::CreateTable(_)));
    assert!(matches!(operations[1], SchemaOperation::CreateTable(_)));
    assert!(matches!(operations[2], SchemaOperation::ExecuteUnprepared(_)));
}

#[test]
fn source_table_comes_first_with_its_constraints() {
    let source = configuration_type_reference();
    let audit = configuration_type_reference_audit();

    let operations = create_audited_table(&source, &audit, &builder).unwrap();

    assert_eq!(
        sql_of(&operations[0]),
        [
            r#"CREATE TABLE IF NOT EXISTS "configuration_type_reference" ("#,
            r#""id" serial NOT NULL PRIMARY KEY,"#,
            r#""name" varchar NOT NULL UNIQUE"#,
            r#")"#,
        ]
        .join(" ")
    );
}

#[test]
fn audit_table_comes_second_with_the_audit_columns_last() {
    let source = configuration_type_reference();
    let audit = configuration_type_reference_audit();

    let operations = create_audited_table(&source, &audit, &builder).unwrap();

    assert_eq!(
        sql_of(&operations[1]),
        [
            r#"CREATE TABLE IF NOT EXISTS "configuration_type_reference_audit" ("#,
            r#""id" integer,"#,
            r#""name" varchar,"#,
            r#""audit_id" serial NOT NULL PRIMARY KEY,"#,
            r#""audit_action" char NOT NULL,"#,
            r#""audit_timestamp_transaction_start" timestamp NOT NULL,"#,
            r#""audit_timestamp_statement_start" timestamp NOT NULL,"#,
            r#""audit_timestamp_trigger" timestamp NOT NULL,"#,
            r#""audit_client_host" varchar NOT NULL,"#,
            r#""audit_client_port" integer NOT NULL,"#,
            r#""audit_client_query" varchar NOT NULL"#,
            r#")"#,
        ]
        .join(" ")
    );
}

#[test]
fn trigger_comes_last() {
    let source = configuration_type_reference();
    let audit = configuration_type_reference_audit();

    let operations = create_audited_table(&source, &audit, &builder).unwrap();

    assert_eq!(
        sql_of(&operations[2]),
        create_audit_trigger_unprepared(&source, &audit)
    );
    assert!(sql_of(&operations[2]).contains("                        id, name,\n"));
}

#[test]
fn planning_twice_gives_the_same_requests() {
    let source = configuration_type_reference();
    let audit = configuration_type_reference_audit();

    let first: Vec<String> = create_audited_table(&source, &audit, &builder)
        .unwrap()
        .iter()
        .map(sql_of)
        .collect();
    let second: Vec<String> = create_audited_table(&source, &audit, &builder)
        .unwrap()
        .iter()
        .map(sql_of)
        .collect();

    assert_eq!(first, second);
}

#[test]
fn tables_and_function_can_be_created_again_but_not_the_trigger() {
    let source = configuration_type_reference();
    let audit = configuration_type_reference_audit();

    let requests: Vec<String> = create_audited_table(&source, &audit, &builder)
        .unwrap()
        .iter()
        .map(sql_of)
        .collect();

    assert!(requests[0].starts_with("CREATE TABLE IF NOT EXISTS "));
    assert!(requests[1].starts_with("CREATE TABLE IF NOT EXISTS "));
    assert!(requests[2].contains("CREATE OR REPLACE FUNCTION function_audit_trigger_"));
    assert!(requests[2].contains("CREATE TRIGGER trigger_audit_"));
    assert!(!requests[2].contains("CREATE OR REPLACE TRIGGER"));
}

#[test]
fn nothing_is_planned_for_an_audit_table_that_lacks_a_source_column() {
    let source = configuration_type_reference();
    let audit = described(
        "configuration_type_reference_audit",
        &[
            "audit_id",
            "id",
            "audit_action",
            "audit_timestamp_transaction_start",
            "audit_timestamp_statement_start",
            "audit_timestamp_trigger",
            "audit_client_host",
            "audit_client_port",
            "audit_client_query",
        ],
    );
    let never = |_kind: TableKind, _statement: &mut TableCreateStatement| {
        panic!("the table builder is not called");
    };

    let planned = create_audited_table(&source, &audit, &never);

    assert_eq!(
        planned.err(),
        Some(AuditTableError::MissingSourceColumn("name".to_string()))
    );
}

#[test]
fn nothing_is_planned_for_an_audit_table_that_lacks_an_audit_column() {
    let source = configuration_type_reference();
    let audit = described(
        "configuration_type_reference_audit",
        &[
            "audit_id",
            "id",
            "name",
            "audit_action",
            "audit_timestamp_transaction_start",
            "audit_timestamp_statement_start",
            "audit_timestamp_trigger",
            "audit_client_host",
            "audit_client_query",
        ],
    );

    let planned = create_audited_table(&source, &audit, &builder);

    assert_eq!(
        planned.err(),
        Some(AuditTableError::MissingAuditColumn(
            "audit_client_port".to_string()
        ))
    );
}

#[test]
fn nothing_is_planned_for_an_audit_table_with_a_column_of_its_own() {
    let source = configuration_type_reference();
    let audit = described(
        "configuration_type_reference_audit",
        &[
            "audit_id",
            "id",
            "name",
            "comment",
            "audit_action",
            "audit_timestamp_transaction_start",
            "audit_timestamp_statement_start",
            "audit_timestamp_trigger",
            "audit_client_host",
            "audit_client_port",
            "audit_client_query",
        ],
    );

    let planned = create_audited_table(&source, &audit, &builder);

    assert_eq!(planned.err(), Some(AuditTableError::ColumnCountMismatch));
}
