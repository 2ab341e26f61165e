use portobello::iden::{
    assert_audit_table_iden_valid, count_table_columns, find_column_with_name, get_iden_name,
    iterate_table_columns, AuditTableError, ColumnIdentifier, DescriptorError, IdentifierRole,
    TableDescriptor, AUDIT_TABLE_COLUMNS,
};

fn table(name: &str) -> ColumnIdentifier {
    ColumnIdentifier::new(name, IdentifierRole::Table).unwrap()
}

fn column(name: &str) -> ColumnIdentifier {
    ColumnIdentifier::new(name, IdentifierRole::Column).unwrap()
}

fn descriptor(table_name: &str, columns: &[&str]) -> TableDescriptor {
    let mut entries = vec![table(table_name)];
    for name in columns {
        entries.push(column(name));
    }
    TableDescriptor::new(entries).unwrap()
}

fn table_zero_columns() -> TableDescriptor {
    descriptor("table_zero_columns", &[])
}

fn source_one_column() -> TableDescriptor {
    descriptor("source_one_column", &["col0"])
}

fn audit_one_column() -> TableDescriptor {
    descriptor(
        "audit_one_column",
        &[
            "col0",
            "audit_id",
            "audit_action",
            "audit_timestamp_transaction_start",
            "audit_timestamp_statement_start",
            "audit_timestamp_trigger",
            "audit_client_host",
            "audit_client_port",
            "audit_client_query",
        ],
    )
}

fn audit_one_column_missing_audit_column() -> TableDescriptor {
    descriptor(
        "audit_one_column_missing_audit_column",
        &[
            "col0",
            "audit_action",
            "audit_timestamp_transaction_start",
            "audit_timestamp_statement_start",
            "audit_timestamp_trigger",
            "audit_client_host",
            "audit_client_port",
            "audit_client_query",
        ],
    )
}

fn audit_one_column_missing_source_column() -> TableDescriptor {
    descriptor(
        "audit_one_column_missing_source_column",
        &[
            "audit_id",
            "audit_action",
            "audit_timestamp_transaction_start",
            "audit_timestamp_statement_start",
            "audit_timestamp_trigger",
            "audit_client_host",
            "audit_client_port",
            "audit_client_query",
        ],
    )
}

fn source_two_columns() -> TableDescriptor {
    descriptor("source_two_columns", &["col0", "col1"])
}

fn audit_two_columns() -> TableDescriptor {
    descriptor(
        "audit_two_columns",
        &[
            "col0",
            "col1",
            "audit_id",
            "audit_action",
            "audit_timestamp_transaction_start",
            "audit_timestamp_statement_start",
            "audit_timestamp_trigger",
            "audit_client_host",
            "audit_client_port",
            "audit_client_query",
        ],
    )
}

fn configuration_type_reference() -> TableDescriptor {
    descriptor(
        "configuration_type_reference",
        &["id", "name", "description", "deactivate_timestamp"],
    )
}

fn configuration_type_reference_audit() -> TableDescriptor {
    descriptor(
        "configuration_type_reference_audit",
        &[
            "audit_id",
            "id",
            "name",
            "description",
            "deactivate_timestamp",
            "audit_action",
            "audit_timestamp_transaction_start",
            "audit_timestamp_statement_start",
            "audit_timestamp_trigger",
            "audit_client_host",
            "audit_client_port",
            "audit_client_query",
        ],
    )
}

#[test]
fn test_iterate_table_columns_zero_columns() {
    let columns = iterate_table_columns(&table_zero_columns());

    assert_eq!(columns, vec![])
}

#[test]
fn test_iterate_table_columns_one_column() {
    let columns = iterate_table_columns(&source_one_column());

    assert_eq!(columns, vec![column("col0")])
}

#[test]
fn test_iterate_table_columns_two_columns() {
    let columns = iterate_table_columns(&source_two_columns());

    assert_eq!(columns, vec![column("col0"), column("col1")])
}

#[test]
fn test_get_iden_name() {
    assert_eq!(get_iden_name(&table("source_one_column")), "source_one_column");
    assert_eq!(get_iden_name(&column("col0")), "col0");
    assert_eq!(get_iden_name(&table("table_zero_columns")), "table_zero_columns");
}

#[test]
fn test_count_table_columns() {
    assert_eq!(count_table_columns(&table_zero_columns()), 0);
    assert_eq!(count_table_columns(&source_one_column()), 1);
    assert_eq!(count_table_columns(&source_two_columns()), 2);
}

#[test]
fn test_assert_audit_table_iden_valid_one_column_good() {
    assert_eq!(
        assert_audit_table_iden_valid(&source_one_column(), &audit_one_column()),
        Ok(())
    );
}

#[test]
#[should_panic]
fn test_assert_audit_table_iden_valid_one_column_bad_missing_audit_column() {
    assert_audit_table_iden_valid(
        &source_one_column(),
        &audit_one_column_missing_audit_column(),
    )
    .unwrap();
}

#[test]
#[should_panic]
fn test_assert_audit_table_iden_valid_one_column_bad_missing_source_column() {
    assert_audit_table_iden_valid(
        &source_one_column(),
        &audit_one_column_missing_source_column(),
    )
    .unwrap();
}

#[test]
fn test_assert_audit_table_iden_valid_two_columns_good() {
    assert_eq!(
        assert_audit_table_iden_valid(&source_two_columns(), &audit_two_columns()),
        Ok(())
    );
}

#[test]
fn test_find_column_with_name() {
    assert_eq!(
        find_column_with_name(&source_one_column(), "col0"),
        Some(column("col0"))
    );

    assert_eq!(
        find_column_with_name(&source_one_column(), "source_one_column"),
        Some(table("source_one_column"))
    );

    assert_eq!(
        find_column_with_name(&source_two_columns(), "col0"),
        Some(column("col0"))
    );

    assert_eq!(
        find_column_with_name(&source_two_columns(), "col1"),
        Some(column("col1"))
    );

    assert_eq!(
        find_column_with_name(&source_two_columns(), "source_two_columns"),
        Some(table("source_two_columns"))
    );
}

#[test]
fn test_audit_table_columns() {
    assert_eq!(
        assert_audit_table_iden_valid(
            &configuration_type_reference(),
            &configuration_type_reference_audit()
        ),
        Ok(())
    );
}

#[test]
fn identifier_needs_a_name() {
    assert_eq!(ColumnIdentifier::new("", IdentifierRole::Column), None);
    assert_eq!(ColumnIdentifier::new("", IdentifierRole::Table), None);

    let made = ColumnIdentifier::new("id", IdentifierRole::Column).unwrap();
    assert_eq!(made.name(), "id");
    assert_eq!(made.role(), IdentifierRole::Column);
    assert_eq!(made.clone(), made);
}

#[test]
fn descriptor_needs_exactly_one_table_entry() {
    assert_eq!(
        TableDescriptor::new(vec![]),
        Err(DescriptorError::MissingTableEntry)
    );
    assert_eq!(
        TableDescriptor::new(vec![column("id"), column("name")]),
        Err(DescriptorError::MissingTableEntry)
    );
    assert_eq!(
        TableDescriptor::new(vec![table("a"), column("id"), table("b")]),
        Err(DescriptorError::SeveralTableEntries)
    );
    assert!(TableDescriptor::new(vec![table("a")]).is_ok());
}

#[test]
fn descriptor_gives_its_entries_in_order() {
    let described = source_two_columns();

    assert_eq!(described.len(), 3);
    assert_eq!(described.entry(0), &table("source_two_columns"));
    assert_eq!(described.entry(1), &column("col0"));
    assert_eq!(described.entry(2), &column("col1"));
    assert_eq!(described.table_identifier(), &table("source_two_columns"));
}

#[test]
fn table_entry_is_found_wherever_it_stands() {
    let described =
        TableDescriptor::new(vec![column("id"), table("late_table"), column("name")]).unwrap();

    assert_eq!(described.table_identifier(), &table("late_table"));
    assert_eq!(count_table_columns(&described), 2);
    assert_eq!(
        iterate_table_columns(&described),
        vec![column("id"), column("name")]
    );
}

#[test]
fn count_is_the_number_of_columns_iterated() {
    for described in [
        table_zero_columns(),
        source_one_column(),
        source_two_columns(),
        audit_two_columns(),
        configuration_type_reference_audit(),
    ] {
        assert_eq!(
            count_table_columns(&described),
            iterate_table_columns(&described).len()
        );
        assert_eq!(count_table_columns(&described), described.len() - 1);
    }
}

#[test]
fn find_gives_back_every_entry_by_its_name() {
    let described = audit_two_columns();

    for index in 0..described.len() {
        let entry = described.entry(index);
        assert_eq!(
            find_column_with_name(&described, &get_iden_name(entry)),
            Some(entry.clone())
        );
    }
}

#[test]
fn find_gives_the_first_of_two_entries_with_one_name() {
    let described =
        TableDescriptor::new(vec![column("twice"), table("twice"), column("once")]).unwrap();

    assert_eq!(
        find_column_with_name(&described, "twice"),
        Some(column("twice"))
    );
}

#[test]
fn find_gives_nothing_for_an_unknown_name() {
    assert_eq!(find_column_with_name(&source_two_columns(), "col2"), None);
    assert_eq!(find_column_with_name(&source_two_columns(), ""), None);
    assert_eq!(find_column_with_name(&source_two_columns(), "col"), None);
    assert_eq!(find_column_with_name(&source_two_columns(), "Col0"), None);
}

#[test]
fn standard_audit_columns_are_eight_names() {
    assert_eq!(
        AUDIT_TABLE_COLUMNS,
        [
            "audit_id",
            "audit_action",
            "audit_timestamp_transaction_start",
            "audit_timestamp_statement_start",
            "audit_timestamp_trigger",
            "audit_client_host",
            "audit_client_port",
            "audit_client_query",
        ]
    );
}

#[test]
fn validation_names_the_missing_audit_column() {
    assert_eq!(
        assert_audit_table_iden_valid(
            &source_one_column(),
            &audit_one_column_missing_audit_column()
        ),
        Err(AuditTableError::MissingAuditColumn("audit_id".to_string()))
    );
}

#[test]
fn validation_names_the_missing_source_column() {
    assert_eq!(
        assert_audit_table_iden_valid(
            &source_one_column(),
            &audit_one_column_missing_source_column()
        ),
        Err(AuditTableError::MissingSourceColumn("col0".to_string()))
    );
}

#[test]
fn validation_names_the_first_missing_source_column() {
    assert_eq!(
        assert_audit_table_iden_valid(&source_two_columns(), &audit_one_column()),
        Err(AuditTableError::MissingSourceColumn("col1".to_string()))
    );
    assert_eq!(
        assert_audit_table_iden_valid(
            &source_two_columns(),
            &audit_one_column_missing_source_column()
        ),
        Err(AuditTableError::MissingSourceColumn("col0".to_string()))
    );
}

#[test]
fn validation_refuses_an_extra_column() {
    assert_eq!(
        assert_audit_table_iden_valid(&source_one_column(), &audit_two_columns()),
        Err(AuditTableError::ColumnCountMismatch)
    );
    assert_eq!(
        assert_audit_table_iden_valid(&table_zero_columns(), &audit_one_column()),
        Err(AuditTableError::ColumnCountMismatch)
    );
}

#[test]
fn validation_checks_source_columns_before_audit_columns() {
    let audit = descriptor("audit", &["audit_action"]);

    assert_eq!(
        assert_audit_table_iden_valid(&source_one_column(), &audit),
        Err(AuditTableError::MissingSourceColumn("col0".to_string()))
    );
}

#[test]
fn validation_does_not_take_the_table_entry_for_a_column() {
    // The audit table is named like the source column, but has no such column.
    let audit = descriptor(
        "col0",
        &[
            "audit_id",
            "audit_action",
            "audit_timestamp_transaction_start",
            "audit_timestamp_statement_start",
            "audit_timestamp_trigger",
            "audit_client_host",
            "audit_client_port",
            "audit_client_query",
        ],
    );

    assert_eq!(
        assert_audit_table_iden_valid(&source_one_column(), &audit),
        Err(AuditTableError::MissingSourceColumn("col0".to_string()))
    );
}

#[test]
fn validation_counts_a_repeated_audit_name_once() {
    // Ten audit columns, nine distinct names: as many as one source column asks for.
    let audit = descriptor(
        "audit",
        &[
            "col0",
            "col0",
            "audit_id",
            "audit_action",
            "audit_timestamp_transaction_start",
            "audit_timestamp_statement_start",
            "audit_timestamp_trigger",
            "audit_client_host",
            "audit_client_port",
            "audit_client_query",
        ],
    );

    assert_eq!(
        assert_audit_table_iden_valid(&source_one_column(), &audit),
        Ok(())
    );
}

#[test]
fn validation_counts_every_source_column() {
    // Two source columns of one name ask for ten distinct audit names.
    let source = descriptor("source", &["col0", "col0"]);

    assert_eq!(
        assert_audit_table_iden_valid(&source, &audit_one_column()),
        Err(AuditTableError::ColumnCountMismatch)
    );
    assert_eq!(
        assert_audit_table_iden_valid(&source, &audit_two_columns()),
        Ok(())
    );
}

#[test]
fn validation_accepts_the_audit_columns_in_any_order() {
    let audit = descriptor(
        "audit",
        &[
            "audit_client_query",
            "audit_client_port",
            "col1",
            "audit_client_host",
            "audit_timestamp_trigger",
            "audit_timestamp_statement_start",
            "col0",
            "audit_timestamp_transaction_start",
            "audit_action",
            "audit_id",
        ],
    );

    assert_eq!(
        assert_audit_table_iden_valid(&source_two_columns(), &audit),
        Ok(())
    );
}
