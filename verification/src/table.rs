//! The statements that create a source table, its audit table and the
//! trigger between them.

use crate::iden;
use crate::iden::{
    audit_table_column_names, audit_table_iden_valid, column_names, find_column_with_name,
    get_iden_name, has_name, identifier_models, iterate_table_columns,
    lemma_column_name_is_entry_name, table_name, ColumnIdentifier, IdentifierModel,
    TableDescriptor,
};
use crate::statement::{
    column_model, new_column, new_table_statement, push_column, set_auto_increment, set_char,
    set_if_not_exists, set_integer, set_not_null, set_primary_key, set_string, set_table_name,
    set_timestamp, table_model, ColumnConstraint, ColumnKind, ColumnModel, TableModel,
};
use crate::text::{join, join_with, texts};
use sea_query::{ColumnDef, TableCreateStatement};
use vstd::prelude::*;

verus! {

/// Whether a table holds the business data or the history of another table.
#[derive(Clone, Copy, Debug, PartialEq, Eq, Structural)]
pub enum TableKind {
    /// A source table: its columns carry their constraints.
    Source,
    /// An audit table: its business columns carry no constraint.
    Audit,
}

/// A statement as a table builder receives it: it names the table, says
/// `IF NOT EXISTS`, and has no column yet.
pub open spec fn new_table(statement: TableCreateStatement, name: Seq<char>) -> bool {
    table_model(statement) == (TableModel {
        name: Some(name),
        if_not_exists: true,
        columns: Seq::empty(),
    })
}

/// The table builder accepts a new statement for the table `name` and the
/// given kind.
pub open spec fn builder_accepts<F: Fn(TableKind, &mut TableCreateStatement)>(
    table_builder: &F,
    table_kind: TableKind,
    name: Seq<char>,
) -> bool {
    forall|given: &mut TableCreateStatement|
        new_table(*given, name) ==> #[trigger] call_requires(
            table_builder,
            (table_kind, given),
        )
}

/// Builds the statement that creates a table if it does not exist: the
/// table builder is called once, for the given kind, on a new statement
/// that names the table.
///
/// A table builder adds the columns of a table to the statement it is
/// given. It is called for the source table and for the audit table: for a
/// source table it gives each column its constraints; for an audit table it
/// gives them none, so that any row of the source table can be stored.
pub fn create_table_from_builder<F: Fn(TableKind, &mut TableCreateStatement)>(
    table_iden: &ColumnIdentifier,
    table_builder: &F,
    table_kind: TableKind,
) -> (statement: TableCreateStatement)
    requires
        builder_accepts(table_builder, table_kind, table_iden@.name),
    ensures
        exists|given: &mut TableCreateStatement|
            new_table(*given, table_iden@.name) && *final(given) == statement
                && #[trigger] call_ensures(table_builder, (table_kind, given), ()),
{
    let mut statement = new_table_statement();
    set_table_name(&mut statement, table_iden.name());
    set_if_not_exists(&mut statement);
    table_builder(table_kind, &mut statement);
    statement
}

/// A column definition with the given name, type and keywords.
pub open spec fn column_of(
    name: Seq<char>,
    kind: ColumnKind,
    constraints: Seq<ColumnConstraint>,
) -> ColumnModel {
    ColumnModel { name, kind: Some(kind), constraints }
}

/// The standard audit columns, in the order in which they are added to an
/// audit table: an auto-incremented integer primary key, the action as one
/// character, three timestamps, and the client's host, port and query. None
/// of them accepts null.
pub open spec fn audit_columns() -> Seq<ColumnModel> {
    seq![
        column_of(
            "audit_id"@,
            ColumnKind::Integer,
            seq![
                ColumnConstraint::NotNull,
                ColumnConstraint::AutoIncrement,
                ColumnConstraint::PrimaryKey,
            ],
        ),
        column_of("audit_action"@, ColumnKind::Char, seq![ColumnConstraint::NotNull]),
        column_of(
            "audit_timestamp_transaction_start"@,
            ColumnKind::Timestamp,
            seq![ColumnConstraint::NotNull],
        ),
        column_of(
            "audit_timestamp_statement_start"@,
            ColumnKind::Timestamp,
            seq![ColumnConstraint::NotNull],
        ),
        column_of(
            "audit_timestamp_trigger"@,
            ColumnKind::Timestamp,
            seq![ColumnConstraint::NotNull],
        ),
        column_of("audit_client_host"@, ColumnKind::String, seq![ColumnConstraint::NotNull]),
        column_of("audit_client_port"@, ColumnKind::Integer, seq![ColumnConstraint::NotNull]),
        column_of("audit_client_query"@, ColumnKind::String, seq![ColumnConstraint::NotNull]),
    ]
}

/// The standard audit columns have the standard audit column names, in the
/// same order.
pub proof fn lemma_audit_columns_are_named()
    ensures
        audit_columns().len() == audit_table_column_names().len(),
        forall|k: int|
            0 <= k < audit_columns().len() ==> (#[trigger] audit_columns()[k]).name
                == audit_table_column_names()[k],
{
}

/// The descriptor has an entry for each standard audit column.
pub open spec fn has_audit_columns(table: Seq<IdentifierModel>) -> bool {
    forall|k: int|
        0 <= k < audit_table_column_names().len() ==> has_name(
            table,
            #[trigger] audit_table_column_names()[k],
        )
}

/// An audit descriptor that the validation accepts has an entry for each
/// standard audit column.
pub proof fn lemma_valid_audit_has_audit_columns(
    source: Seq<IdentifierModel>,
    audit: Seq<IdentifierModel>,
)
    requires
        audit_table_iden_valid(source, audit),
    ensures
        has_audit_columns(audit),
{
    let names = audit_table_column_names();
    assert forall|k: int| 0 <= k < names.len() implies has_name(audit, #[trigger] names[k]) by {
        assert(names.contains(names[k]));
        lemma_column_name_is_entry_name(audit, names[k]);
    }
}

/// A column definition without a type, named by the entry of the descriptor
/// that has the given name.
fn audit_column(table: &TableDescriptor, name: &str) -> (column: ColumnDef)
    requires
        has_name(table@, name@),
    ensures
        column_model(column) == (ColumnModel {
            name: name@,
            kind: None,
            constraints: Seq::empty(),
        }),
{
    let found = find_column_with_name(table, name);
    new_column(found.unwrap().name())
}

/// Adds the standard audit columns to a statement, after the columns that
/// it has. The descriptor of the audit table must have an entry for each of
/// them.
pub fn add_audit_columns(table: &TableDescriptor, table_create_statement: &mut TableCreateStatement)
    requires
        has_audit_columns(table@),
    ensures
        table_model(*final(table_create_statement)) == (TableModel {
            columns: table_model(*old(table_create_statement)).columns + audit_columns(),
            ..table_model(*old(table_create_statement))
        }),
{
    let ghost names = audit_table_column_names();
    assert(has_name(table@, names[0]) && has_name(table@, names[1]) && has_name(table@, names[2])
        && has_name(table@, names[3]) && has_name(table@, names[4]) && has_name(table@, names[5])
        && has_name(table@, names[6]) && has_name(table@, names[7]));

    let mut audit_id = audit_column(table, "audit_id");
    set_integer(&mut audit_id);
    set_not_null(&mut audit_id);
    set_auto_increment(&mut audit_id);
    set_primary_key(&mut audit_id);
    assert(column_model(audit_id).constraints =~= audit_columns()[0].constraints);
    push_column(table_create_statement, audit_id);

    let mut audit_action = audit_column(table, "audit_action");
    set_char(&mut audit_action);
    set_not_null(&mut audit_action);
    assert(column_model(audit_action).constraints =~= audit_columns()[1].constraints);
    push_column(table_create_statement, audit_action);

    let mut transaction_start = audit_column(table, "audit_timestamp_transaction_start");
    set_timestamp(&mut transaction_start);
    set_not_null(&mut transaction_start);
    assert(column_model(transaction_start).constraints =~= audit_columns()[2].constraints);
    push_column(table_create_statement, transaction_start);

    let mut statement_start = audit_column(table, "audit_timestamp_statement_start");
    set_timestamp(&mut statement_start);
    set_not_null(&mut statement_start);
    assert(column_model(statement_start).constraints =~= audit_columns()[3].constraints);
    push_column(table_create_statement, statement_start);

    let mut trigger = audit_column(table, "audit_timestamp_trigger");
    set_timestamp(&mut trigger);
    set_not_null(&mut trigger);
    assert(column_model(trigger).constraints =~= audit_columns()[4].constraints);
    push_column(table_create_statement, trigger);

    let mut client_host = audit_column(table, "audit_client_host");
    set_string(&mut client_host);
    set_not_null(&mut client_host);
    assert(column_model(client_host).constraints =~= audit_columns()[5].constraints);
    push_column(table_create_statement, client_host);

    let mut client_port = audit_column(table, "audit_client_port");
    set_integer(&mut client_port);
    set_not_null(&mut client_port);
    assert(column_model(client_port).constraints =~= audit_columns()[6].constraints);
    push_column(table_create_statement, client_port);

    let mut client_query = audit_column(table, "audit_client_query");
    set_string(&mut client_query);
    set_not_null(&mut client_query);
    assert(column_model(client_query).constraints =~= audit_columns()[7].constraints);
    push_column(table_create_statement, client_query);

    assert(table_model(*table_create_statement).columns =~= table_model(
        *old(table_create_statement),
    ).columns + audit_columns());
}

/// Up to the name of the source table in the name of the trigger function.
pub const FUNCTION_NAME_PREFIX: &'static str = r#"
            CREATE OR REPLACE FUNCTION function_audit_trigger_"#;

/// From the name of the trigger function to the name of the audit table.
pub const FUNCTION_HEAD: &'static str = r#"()
            RETURNS TRIGGER AS $body$
                BEGIN
                    INSERT INTO "#;

/// From the name of the audit table to the list of business columns.
pub const COLUMN_LIST_OPEN: &'static str = r#" (
                        "#;

/// The audit columns that every row gets, up to the list of business values.
pub const COLUMN_LIST_TAIL: &'static str = r#",
                        audit_action,
                        audit_timestamp_transaction_start,
                        audit_timestamp_statement_start,
                        audit_timestamp_trigger,
                        audit_client_host,
                        audit_client_port,
                        audit_client_query
                    )
                    VALUES (
                        "#;

/// The audit values, the end of the function, and the start of the trigger.
pub const VALUE_LIST_TAIL: &'static str = r#",
                        CASE TG_OP
                            WHEN 'INSERT' THEN 'I'
                            WHEN 'UPDATE' THEN 'U'
                            WHEN 'DELETE' THEN 'D'
                            ELSE '?'
                        END,
                        current_timestamp,
                        statement_timestamp(),
                        clock_timestamp(),
                        inet_client_addr(),
                        inet_client_port(),
                        current_query()
                    );

                    IF TG_OP = 'DELETE' THEN
                        RETURN OLD;
                    ELSE
                        RETURN NEW;
                    END IF;
                END
            $body$ LANGUAGE 'plpgsql';

            CREATE TRIGGER trigger_audit_"#;

/// From the name of the trigger to the name of the table it is bound to.
pub const TRIGGER_EVENTS: &'static str = r#"
            BEFORE INSERT OR UPDATE OR DELETE ON "#;

/// From the name of the table to the name of the function that the trigger calls.
pub const TRIGGER_PROCEDURE: &'static str = r#"
            FOR EACH ROW EXECUTE PROCEDURE function_audit_trigger_"#;

/// After the name of the function that the trigger calls.
pub const TRIGGER_CLOSE: &'static str = r#"();
        "#;

/// How values of several columns are separated in a list.
pub const LIST_SEPARATOR: &'static str = ", ";

/// Up to the first occurrence of the column name in a value expression.
pub const VALUE_ON_INSERT: &'static str = "CASE TG_OP WHEN 'INSERT' THEN NEW.";

/// Between the two occurrences of the column name in a value expression.
pub const VALUE_OTHERWISE: &'static str = " ELSE OLD.";

/// After the second occurrence of the column name in a value expression.
pub const VALUE_CLOSE: &'static str = " END";

/// The value that the trigger stores for a business column: that of the new
/// row on insert, that of the old row on update and delete.
pub open spec fn column_value_expression(column: Seq<char>) -> Seq<char> {
    VALUE_ON_INSERT@ + column + VALUE_OTHERWISE@ + column + VALUE_CLOSE@
}

/// The value expressions of the given columns, in the same order.
pub open spec fn column_value_expressions(columns: Seq<Seq<char>>) -> Seq<Seq<char>> {
    columns.map_values(|column: Seq<char>| column_value_expression(column))
}

/// The SQL text that creates the audit trigger function of a source table
/// and binds it to that table: every insert, update and delete on
/// `source_table` stores a row in `audit_table`, made of the given business
/// columns, in the given order, and of the audit values.
pub open spec fn audit_trigger_sql(
    source_table: Seq<char>,
    audit_table: Seq<char>,
    columns: Seq<Seq<char>>,
) -> Seq<char> {
    FUNCTION_NAME_PREFIX@ + source_table + FUNCTION_HEAD@ + audit_table + COLUMN_LIST_OPEN@
        + join_with(columns, LIST_SEPARATOR@) + COLUMN_LIST_TAIL@ + join_with(
        column_value_expressions(columns),
        LIST_SEPARATOR@,
    ) + VALUE_LIST_TAIL@ + source_table + TRIGGER_EVENTS@ + source_table + TRIGGER_PROCEDURE@
        + source_table + TRIGGER_CLOSE@
}

/// The SQL text of the audit trigger of a source table, to be executed
/// unprepared, as one string of two statements.
///
/// The names of the tables and of the columns are put into the text as they
/// are, unquoted: they must come from the descriptors of the schema, never
/// from a user. The function is created with `OR REPLACE`, the trigger is
/// not: the text can be executed once against a database, and fails on the
/// trigger when it is executed again.
pub fn create_audit_trigger_unprepared(
    table_iden_source: &TableDescriptor,
    table_iden_audit: &TableDescriptor,
) -> (sql: String)
    ensures
        sql@ == audit_trigger_sql(
            table_name(table_iden_source@),
            table_name(table_iden_audit@),
            column_names(table_iden_source@),
        ),
{
    let table_name_source = get_iden_name(table_iden_source.table_identifier());
    let table_name_audit = get_iden_name(table_iden_audit.table_identifier());
    let columns = iterate_table_columns(table_iden_source);

    let mut names: Vec<String> = Vec::new();
    let mut values: Vec<String> = Vec::new();
    let mut i: usize = 0;
    while i < columns.len()
        invariant
            i <= columns.len(),
            identifier_models(columns@) == iden::table_columns(table_iden_source@),
            texts(names@) == column_names(table_iden_source@).take(i as int),
            texts(values@) == column_value_expressions(
                column_names(table_iden_source@).take(i as int),
            ),
        decreases columns.len() - i,
    {
        let name = get_iden_name(&columns[i]);
        let mut value = String::new();
        value.append(VALUE_ON_INSERT);
        value.append(name.as_str());
        value.append(VALUE_OTHERWISE);
        value.append(name.as_str());
        value.append(VALUE_CLOSE);
        proof {
            let all = column_names(table_iden_source@);
            assert(identifier_models(columns@)[i as int] == columns@[i as int]@);
            assert(name@ == all[i as int]);
            assert(all.take(i + 1) == all.take(i as int).push(all[i as int]));
            assert(value@ == column_value_expression(name@));
            assert(texts(names@.push(name)) == texts(names@).push(name@));
            assert(texts(values@.push(value)) == texts(values@).push(value@));
            assert(column_value_expressions(all.take(i + 1)) == column_value_expressions(
                all.take(i as int),
            ).push(column_value_expression(all[i as int])));
        }
        names.push(name);
        values.push(value);
        i = i + 1;
    }
    proof {
        let all = column_names(table_iden_source@);
        assert(all.take(i as int) == all);
    }
    let column_names = join(&names, LIST_SEPARATOR);
    let column_values = join(&values, LIST_SEPARATOR);

    let mut sql = String::new();
    sql.append(FUNCTION_NAME_PREFIX);
    sql.append(table_name_source.as_str());
    sql.append(FUNCTION_HEAD);
    sql.append(table_name_audit.as_str());
    sql.append(COLUMN_LIST_OPEN);
    sql.append(column_names.as_str());
    sql.append(COLUMN_LIST_TAIL);
    sql.append(column_values.as_str());
    sql.append(VALUE_LIST_TAIL);
    sql.append(table_name_source.as_str());
    sql.append(TRIGGER_EVENTS);
    sql.append(table_name_source.as_str());
    sql.append(TRIGGER_PROCEDURE);
    sql.append(table_name_source.as_str());
    sql.append(TRIGGER_CLOSE);
    sql
}

} // verus!
