//! Table descriptors and the operations on their identifiers.

use crate::text::{contains_text, same_text, texts};
use vstd::prelude::*;
use vstd::seq_lib::seq_to_set_is_finite;
use vstd::set_lib::{lemma_set_disjoint_lens, lemma_subset_equality};

verus! {

/// Whether an identifier names the table itself or one of its columns.
#[derive(Clone, Copy, Debug, PartialEq, Eq, Structural)]
pub enum IdentifierRole {
    /// The entry that carries the SQL name of the table.
    Table,
    /// An entry that carries the SQL name of a column.
    Column,
}

/// What an identifier is, mathematically: its unquoted SQL name and its role.
pub struct IdentifierModel {
    pub name: Seq<char>,
    pub role: IdentifierRole,
}

/// One entry of a table descriptor. Its name is never empty.
#[derive(Debug, PartialEq, Eq)]
pub struct ColumnIdentifier {
    name: String,
    role: IdentifierRole,
}

impl View for ColumnIdentifier {
    type V = IdentifierModel;

    closed spec fn view(&self) -> IdentifierModel {
        IdentifierModel { name: self.name@, role: self.role }
    }
}

impl Clone for ColumnIdentifier {
    fn clone(&self) -> (copy: Self)
        ensures
            copy@ == self@,
    {
        proof {
            use_type_invariant(self);
        }
        ColumnIdentifier { name: self.name.clone(), role: self.role }
    }
}

impl ColumnIdentifier {
    #[verifier::type_invariant]
    spec fn named(&self) -> bool {
        self.name@.len() > 0
    }

    /// Makes an identifier, unless the name is empty.
    pub fn new(name: &str, role: IdentifierRole) -> (identifier: Option<ColumnIdentifier>)
        ensures
            name@.len() == 0 <==> identifier is None,
            identifier matches Some(made) ==> made@ == (IdentifierModel { name: name@, role }),
    {
        if name.is_empty() {
            None
        } else {
            Some(ColumnIdentifier { name: name.to_owned(), role })
        }
    }

    /// The unquoted SQL name.
    pub fn name(&self) -> (name: &str)
        ensures
            name@ == self@.name,
            name@.len() > 0,
    {
        proof {
            use_type_invariant(self);
        }
        self.name.as_str()
    }

    /// The role of this entry in its descriptor.
    pub fn role(&self) -> (role: IdentifierRole)
        ensures
            role == self@.role,
    {
        self.role
    }
}

/// The models of a sequence of identifiers, in the same order.
pub open spec fn identifier_models(entries: Seq<ColumnIdentifier>) -> Seq<IdentifierModel> {
    entries.map_values(|entry: ColumnIdentifier| entry@)
}

/// The entries of a descriptor that name the table itself, in order.
pub open spec fn table_entries(descriptor: Seq<IdentifierModel>) -> Seq<IdentifierModel> {
    descriptor.filter(|entry: IdentifierModel| entry.role is Table)
}

/// The entries of a descriptor that name a column, in order.
pub open spec fn table_columns(descriptor: Seq<IdentifierModel>) -> Seq<IdentifierModel> {
    descriptor.filter(|entry: IdentifierModel| entry.role is Column)
}

/// A descriptor holds exactly one entry for the table itself, and no entry
/// has an empty name.
pub open spec fn descriptor_well_formed(descriptor: Seq<IdentifierModel>) -> bool {
    &&& table_entries(descriptor).len() == 1
    &&& forall|i: int| 0 <= i < descriptor.len() ==> (#[trigger] descriptor[i]).name.len() > 0
}

/// The SQL name of the table that a descriptor describes.
pub open spec fn table_name(descriptor: Seq<IdentifierModel>) -> Seq<char> {
    table_entries(descriptor)[0].name
}

/// The names of the columns of a descriptor, in order.
pub open spec fn column_names(descriptor: Seq<IdentifierModel>) -> Seq<Seq<char>> {
    table_columns(descriptor).map_values(|entry: IdentifierModel| entry.name)
}

/// Entry `index` is the first entry of the descriptor with the given name.
pub open spec fn first_with_name(
    descriptor: Seq<IdentifierModel>,
    name: Seq<char>,
    index: int,
) -> bool {
    &&& 0 <= index < descriptor.len()
    &&& descriptor[index].name == name
    &&& forall|j: int| 0 <= j < index ==> (#[trigger] descriptor[j]).name != name
}

/// Some entry of the descriptor, the table entry included, has the given name.
pub open spec fn has_name(descriptor: Seq<IdentifierModel>, name: Seq<char>) -> bool {
    exists|i: int| 0 <= i < descriptor.len() && (#[trigger] descriptor[i]).name == name
}

/// The first entry of the descriptor with the given name, the table entry
/// included, if there is one.
pub open spec fn entry_with_name(descriptor: Seq<IdentifierModel>, name: Seq<char>) -> Option<
    IdentifierModel,
> {
    if has_name(descriptor, name) {
        Some(descriptor[choose|i: int| first_with_name(descriptor, name, i)])
    } else {
        None
    }
}

/// Why a list of identifiers is not a table descriptor.
#[derive(Clone, Copy, Debug, PartialEq, Eq, Structural)]
pub enum DescriptorError {
    /// No entry has the role `Table`; an empty list is such a list.
    MissingTableEntry,
    /// More than one entry has the role `Table`.
    SeveralTableEntries,
}

/// The ordered identifiers of one table: the entry that names the table and
/// the entries that name its columns.
#[derive(Debug, PartialEq, Eq)]
pub struct TableDescriptor {
    entries: Vec<ColumnIdentifier>,
}

impl View for TableDescriptor {
    type V = Seq<IdentifierModel>;

    closed spec fn view(&self) -> Seq<IdentifierModel> {
        identifier_models(self.entries@)
    }
}

impl TableDescriptor {
    #[verifier::type_invariant]
    spec fn well_formed(&self) -> bool {
        descriptor_well_formed(self@)
    }

    /// Makes a descriptor from its entries, in declaration order. The list
    /// must hold exactly one entry with the role `Table`.
    pub fn new(entries: Vec<ColumnIdentifier>) -> (made: Result<TableDescriptor, DescriptorError>)
        ensures
            match made {
                Ok(descriptor) => {
                    &&& descriptor@ == identifier_models(entries@)
                    &&& descriptor_well_formed(descriptor@)
                },
                Err(DescriptorError::MissingTableEntry) => table_entries(
                    identifier_models(entries@),
                ).len() == 0,
                Err(DescriptorError::SeveralTableEntries) => table_entries(
                    identifier_models(entries@),
                ).len() > 1,
            },
    {
        let ghost models = identifier_models(entries@);
        let mut tables: usize = 0;
        let mut i: usize = 0;
        while i < entries.len()
            invariant
                i <= entries.len(),
                models == identifier_models(entries@),
                tables == table_entries(models.take(i as int)).len(),
                tables <= i,
                forall|j: int| 0 <= j < i ==> (#[trigger] models[j]).name.len() > 0,
            decreases entries.len() - i,
        {
            let entry = &entries[i];
            proof {
                use_type_invariant(entry);
                assert(models.take(i + 1) == models.take(i as int).push(models[i as int]));
                models.take(i as int).lemma_filter_push(
                    models[i as int],
                    |entry: IdentifierModel| entry.role is Table,
                );
            }
            match entry.role {
                IdentifierRole::Table => {
                    tables = tables + 1;
                },
                IdentifierRole::Column => {},
            }
            i = i + 1;
        }
        proof {
            assert(models.take(i as int) == models);
        }
        if tables == 0 {
            Err(DescriptorError::MissingTableEntry)
        } else if tables > 1 {
            Err(DescriptorError::SeveralTableEntries)
        } else {
            Ok(TableDescriptor { entries })
        }
    }

    /// The number of entries, the table entry included.
    pub fn len(&self) -> (len: usize)
        ensures
            len == self@.len(),
            len >= 1,
    {
        proof {
            use_type_invariant(self);
            lemma_roles_partition(self@);
        }
        self.entries.len()
    }

    /// The entry that names the table itself.
    pub fn table_identifier(&self) -> (table_iden: &ColumnIdentifier)
        ensures
            table_iden@.role is Table,
            table_iden@.name == table_name(self@),
            table_entries(self@) == seq![table_iden@],
    {
        proof {
            use_type_invariant(self);
        }
        let ghost table_index = lemma_table_entry_exists(self@);
        let mut i: usize = 0;
        while i < self.entries.len()
            invariant
                i <= self.entries.len(),
                descriptor_well_formed(self@),
                0 <= table_index < self@.len(),
                self@[table_index].role is Table,
                forall|j: int| 0 <= j < i ==> (#[trigger] self@[j]).role is Column,
            decreases self.entries.len() - i,
        {
            let entry = &self.entries[i];
            match entry.role {
                IdentifierRole::Table => {
                    proof {
                        lemma_columns_are_entries_without_table(self@, i as int);
                    }
                    return entry;
                },
                IdentifierRole::Column => {},
            }
            i = i + 1;
        }
        proof {
            assert(self@[table_index].role is Column);
        }
        unreached()
    }

    /// The entry at `index`, in declaration order.
    pub fn entry(&self, index: usize) -> (entry: &ColumnIdentifier)
        requires
            index < self@.len(),
        ensures
            entry@ == self@[index as int],
    {
        &self.entries[index]
    }
}

/// The column identifiers of a table, in declaration order: every entry of
/// the descriptor but the one that names the table itself.
pub fn iterate_table_columns(table: &TableDescriptor) -> (columns: Vec<ColumnIdentifier>)
    ensures
        identifier_models(columns@) == table_columns(table@),
        columns@.len() == table@.len() - 1,
{
    let mut columns: Vec<ColumnIdentifier> = Vec::new();
    let count = table.len();
    let mut i: usize = 0;
    while i < count
        invariant
            i <= count,
            count == table@.len(),
            identifier_models(columns@) == table_columns(table@.take(i as int)),
        decreases count - i,
    {
        let entry = table.entry(i);
        proof {
            assert(table@.take(i + 1) == table@.take(i as int).push(table@[i as int]));
            table@.take(i as int).lemma_filter_push(
                table@[i as int],
                |entry: IdentifierModel| entry.role is Column,
            );
        }
        match entry.role() {
            IdentifierRole::Table => {},
            IdentifierRole::Column => {
                let ghost before = columns@;
                columns.push(entry.clone());
                proof {
                    assert(identifier_models(columns@) == identifier_models(before).push(
                        table@[i as int],
                    ));
                }
            },
        }
        i = i + 1;
    }
    proof {
        assert(table@.take(i as int) == table@);
        use_type_invariant(table);
        lemma_roles_partition(table@);
    }
    columns
}

/// The unquoted SQL name of an identifier. It is never empty.
pub fn get_iden_name(table_iden: &ColumnIdentifier) -> (name: String)
    ensures
        name@ == table_iden@.name,
        name@.len() > 0,
{
    table_iden.name().to_owned()
}

/// The number of columns of a table: its entries without the one that names
/// the table itself.
pub fn count_table_columns(table: &TableDescriptor) -> (count: usize)
    ensures
        count == table@.len() - 1,
        count == table_columns(table@).len(),
{
    proof {
        use_type_invariant(table);
        lemma_roles_partition(table@);
    }
    table.len() - 1
}

/// The first entry of the descriptor with the given name, the table entry
/// included; `None` when no entry has that name.
pub fn find_column_with_name(table: &TableDescriptor, name: &str) -> (found: Option<
    ColumnIdentifier,
>)
    ensures
        match found {
            Some(identifier) => {
                &&& entry_with_name(table@, name@) == Some(identifier@)
                &&& identifier@.name == name@
            },
            None => entry_with_name(table@, name@) is None,
        },
{
    let count = table.len();
    let mut i: usize = 0;
    while i < count
        invariant
            i <= count,
            count == table@.len(),
            forall|j: int| 0 <= j < i ==> (#[trigger] table@[j]).name != name@,
        decreases count - i,
    {
        let entry = table.entry(i);
        if same_text(entry.name(), name) {
            proof {
                lemma_entry_with_name_is_first(table@, name@, i as int);
            }
            return Some(entry.clone());
        }
        i = i + 1;
    }
    None
}

/// The names of the standard audit columns, in the order in which they are
/// added to an audit table.
pub const AUDIT_TABLE_COLUMNS: [&'static str; 8] = [
    "audit_id",
    "audit_action",
    "audit_timestamp_transaction_start",
    "audit_timestamp_statement_start",
    "audit_timestamp_trigger",
    "audit_client_host",
    "audit_client_port",
    "audit_client_query",
];

/// The names of the standard audit columns as sequences of characters.
pub open spec fn audit_table_column_names() -> Seq<Seq<char>> {
    AUDIT_TABLE_COLUMNS@.map_values(|name: &'static str| name@)
}

/// The set of the column names of a descriptor.
pub open spec fn column_name_set(descriptor: Seq<IdentifierModel>) -> Set<Seq<char>> {
    column_names(descriptor).to_set()
}

/// Every column name of the source table is a column name of the audit table.
pub open spec fn audit_holds_source_columns(
    source: Seq<IdentifierModel>,
    audit: Seq<IdentifierModel>,
) -> bool {
    column_name_set(source).subset_of(column_name_set(audit))
}

/// Every standard audit column name is a column name of the audit table.
pub open spec fn audit_holds_standard_columns(audit: Seq<IdentifierModel>) -> bool {
    audit_table_column_names().to_set().subset_of(column_name_set(audit))
}

/// The audit table has as many distinct column names as the source table has
/// columns, plus the standard audit columns.
pub open spec fn audit_column_count_matches(
    source: Seq<IdentifierModel>,
    audit: Seq<IdentifierModel>,
) -> bool {
    column_name_set(audit).len() == table_columns(source).len() + AUDIT_TABLE_COLUMNS@.len()
}

/// What the validation of an audit descriptor against its source descriptor
/// checks.
pub open spec fn audit_table_iden_valid(
    source: Seq<IdentifierModel>,
    audit: Seq<IdentifierModel>,
) -> bool {
    &&& audit_holds_source_columns(source, audit)
    &&& audit_holds_standard_columns(audit)
    &&& audit_column_count_matches(source, audit)
}

/// `names[index]` is the first of `names` that is not in `present`.
pub open spec fn first_missing(
    names: Seq<Seq<char>>,
    present: Set<Seq<char>>,
    index: int,
) -> bool {
    &&& 0 <= index < names.len()
    &&& !present.contains(names[index])
    &&& forall|j: int| 0 <= j < index ==> present.contains(#[trigger] names[j])
}

/// Why an audit descriptor does not match its source descriptor.
#[derive(Debug, PartialEq, Eq)]
pub enum AuditTableError {
    /// The audit table has no column with this name, which is the name of a
    /// column of the source table.
    MissingSourceColumn(String),
    /// The audit table has no column with this name, which is the name of a
    /// standard audit column.
    MissingAuditColumn(String),
    /// The audit table has the source columns and the standard audit
    /// columns, but the number of its distinct column names is not the
    /// number of source columns plus the number of standard audit columns.
    ColumnCountMismatch,
}

/// What an error of the validation says of the two descriptors. The checks
/// are made in the order of the variants, and an error says that the checks
/// before its own passed.
pub open spec fn validation_error_holds(
    source: Seq<IdentifierModel>,
    audit: Seq<IdentifierModel>,
    error: AuditTableError,
) -> bool {
    match error {
        AuditTableError::MissingSourceColumn(name) => exists|i: int| #[trigger]
            first_missing(column_names(source), column_name_set(audit), i) && name@
                == column_names(source)[i],
        AuditTableError::MissingAuditColumn(name) => {
            &&& audit_holds_source_columns(source, audit)
            &&& exists|i: int| #[trigger]
                first_missing(audit_table_column_names(), column_name_set(audit), i) && name@
                    == audit_table_column_names()[i]
        },
        AuditTableError::ColumnCountMismatch => {
            &&& audit_holds_source_columns(source, audit)
            &&& audit_holds_standard_columns(audit)
            &&& !audit_column_count_matches(source, audit)
        },
    }
}

/// The distinct column names of a descriptor, each at the place of its first
/// occurrence.
fn distinct_column_names(table: &TableDescriptor) -> (names: Vec<String>)
    ensures
        texts(names@).no_duplicates(),
        texts(names@).to_set() == column_name_set(table@),
        names@.len() == column_name_set(table@).len(),
{
    let columns = iterate_table_columns(table);
    let ghost all = column_names(table@);
    let mut names: Vec<String> = Vec::new();
    let mut i: usize = 0;
    assert(texts(names@).to_set() =~= all.take(0).to_set());
    while i < columns.len()
        invariant
            i <= columns.len(),
            identifier_models(columns@) == table_columns(table@),
            all == column_names(table@),
            texts(names@).no_duplicates(),
            texts(names@).to_set() == all.take(i as int).to_set(),
        decreases columns.len() - i,
    {
        let name = get_iden_name(&columns[i]);
        let ghost before = texts(names@);
        assert(name@ == all[i as int]) by {
            assert(identifier_models(columns@)[i as int] == columns@[i as int]@);
        }
        assert(all.take(i + 1) == all.take(i as int).push(all[i as int]));
        if !contains_text(&names, &name) {
            names.push(name);
            assert(texts(names@) == before.push(all[i as int]));
        }
        proof {
            broadcast use Seq::lemma_push_to_set_commute;

            assert(texts(names@).to_set() =~= all.take(i + 1).to_set());
        }
        i = i + 1;
    }
    proof {
        assert(all.take(i as int) == all);
        texts(names@).unique_seq_to_set();
    }
    names
}

/// Checks that the audit table has the columns of the source table and the
/// standard audit columns, and no others.
///
/// The checks are made in this order, and the first that fails gives the
/// error: each column of the source table, in declaration order; each
/// standard audit column, in the order of `AUDIT_TABLE_COLUMNS`; the number
/// of distinct column names of the audit table.
pub fn assert_audit_table_iden_valid(
    table_iden_source: &TableDescriptor,
    table_iden_audit: &TableDescriptor,
) -> (checked: Result<(), AuditTableError>)
    ensures
        checked is Ok <==> audit_table_iden_valid(table_iden_source@, table_iden_audit@),
        checked matches Err(error) ==> validation_error_holds(
            table_iden_source@,
            table_iden_audit@,
            error,
        ),
{
    let ghost source = table_iden_source@;
    let ghost present = column_name_set(table_iden_audit@);
    let audit_names = distinct_column_names(table_iden_audit);

    let source_columns = iterate_table_columns(table_iden_source);
    let ghost source_names = column_names(source);
    let mut i: usize = 0;
    while i < source_columns.len()
        invariant
            i <= source_columns.len(),
            source == table_iden_source@,
            source_names == column_names(source),
            present == column_name_set(table_iden_audit@),
            identifier_models(source_columns@) == table_columns(source),
            texts(audit_names@).to_set() == present,
            forall|j: int| 0 <= j < i ==> present.contains(#[trigger] source_names[j]),
        decreases source_columns.len() - i,
    {
        let name = get_iden_name(&source_columns[i]);
        assert(name@ == source_names[i as int]) by {
            assert(identifier_models(source_columns@)[i as int] == source_columns@[i as int]@);
        }
        if !contains_text(&audit_names, &name) {
            assert(first_missing(source_names, present, i as int));
            assert(!column_name_set(source).subset_of(present)) by {
                assert(source_names.contains(source_names[i as int]));
            }
            return Err(AuditTableError::MissingSourceColumn(name));
        }
        i = i + 1;
    }
    assert(column_name_set(source).subset_of(present));

    let ghost standard = audit_table_column_names();
    let mut k: usize = 0;
    while k < AUDIT_TABLE_COLUMNS.len()
        invariant
            k <= AUDIT_TABLE_COLUMNS@.len(),
            standard == audit_table_column_names(),
            texts(audit_names@).to_set() == present,
            present == column_name_set(table_iden_audit@),
            audit_holds_source_columns(table_iden_source@, table_iden_audit@),
            forall|j: int| 0 <= j < k ==> present.contains(#[trigger] standard[j]),
        decreases AUDIT_TABLE_COLUMNS@.len() - k,
    {
        let name = AUDIT_TABLE_COLUMNS[k].to_owned();
        assert(name@ == standard[k as int]);
        if !contains_text(&audit_names, &name) {
            assert(first_missing(standard, present, k as int));
            assert(!standard.to_set().subset_of(present)) by {
                assert(standard.contains(standard[k as int]));
            }
            return Err(AuditTableError::MissingAuditColumn(name));
        }
        k = k + 1;
    }
    assert(standard.to_set().subset_of(present));

    let expected = count_table_columns(table_iden_source);
    if audit_names.len() >= AUDIT_TABLE_COLUMNS.len() && audit_names.len()
        - AUDIT_TABLE_COLUMNS.len() == expected {
        Ok(())
    } else {
        Err(AuditTableError::ColumnCountMismatch)
    }
}

/// The columns of a table are its entries without the one that names the
/// table, in declaration order: where entry `table_index` is the table
/// entry of a well-formed descriptor, the columns are the descriptor with
/// that entry removed, and the table's name is the name of that entry.
pub proof fn lemma_columns_are_entries_without_table(
    descriptor: Seq<IdentifierModel>,
    table_index: int,
)
    requires
        descriptor_well_formed(descriptor),
        0 <= table_index < descriptor.len(),
        descriptor[table_index].role is Table,
    ensures
        table_columns(descriptor) == descriptor.remove(table_index),
        table_columns(descriptor).len() == descriptor.len() - 1,
        table_entries(descriptor) == seq![descriptor[table_index]],
        table_name(descriptor) == descriptor[table_index].name,
{
    let is_table = |entry: IdentifierModel| entry.role is Table;
    let is_column = |entry: IdentifierModel| entry.role is Column;
    let front = descriptor.subrange(0, table_index);
    let middle = seq![descriptor[table_index]];
    let back = descriptor.subrange(table_index + 1, descriptor.len() as int);
    assert(descriptor == front + middle + back);
    assert(descriptor.remove(table_index) == front + back);

    lemma_filter_three_parts(front, middle, back, is_table);
    lemma_filter_one(descriptor[table_index], is_table);
    assert(front.filter(is_table).len() == 0 && back.filter(is_table).len() == 0) by {
        assert(table_entries(descriptor).len() == front.filter(is_table).len() + 1
            + back.filter(is_table).len());
    }
    assert(table_entries(descriptor) == middle) by {
        assert(front.filter(is_table) == Seq::<IdentifierModel>::empty());
        assert(back.filter(is_table) == Seq::<IdentifierModel>::empty());
    }

    lemma_filter_three_parts(front, middle, back, is_column);
    lemma_filter_one(descriptor[table_index], is_column);
    assert(front.filter(is_column) == front) by {
        lemma_filter_empty(front, is_table);
        lemma_filter_keeps_all(front, is_column);
    }
    assert(back.filter(is_column) == back) by {
        lemma_filter_empty(back, is_table);
        lemma_filter_keeps_all(back, is_column);
    }
    assert(table_columns(descriptor) == front + back);
}

/// A well-formed descriptor has an entry that names the table.
pub proof fn lemma_table_entry_exists(descriptor: Seq<IdentifierModel>) -> (table_index: int)
    requires
        descriptor_well_formed(descriptor),
    ensures
        0 <= table_index < descriptor.len(),
        descriptor[table_index].role is Table,
{
    let is_table = |entry: IdentifierModel| entry.role is Table;
    if forall|i: int| 0 <= i < descriptor.len() ==> !is_table(#[trigger] descriptor[i]) {
        let is_column = |entry: IdentifierModel| entry.role is Column;
        lemma_filter_keeps_all(descriptor, is_column);
        lemma_roles_partition(descriptor);
        assert(false);
    }
    choose|i: int| 0 <= i < descriptor.len() && is_table(#[trigger] descriptor[i])
}

/// Every entry is either the table entry or a column.
pub proof fn lemma_roles_partition(descriptor: Seq<IdentifierModel>)
    ensures
        table_entries(descriptor).len() + table_columns(descriptor).len() == descriptor.len(),
    decreases descriptor.len(),
{
    reveal(Seq::filter);
    if descriptor.len() > 0 {
        lemma_roles_partition(descriptor.drop_last());
    }
}

/// Looking up the name of an entry gives that entry back, where no earlier
/// entry of the descriptor has the same name. In a descriptor whose names
/// are all different this holds of every entry.
pub proof fn lemma_find_gives_entry_back(descriptor: Seq<IdentifierModel>, index: int)
    requires
        0 <= index < descriptor.len(),
        forall|j: int|
            0 <= j < index ==> (#[trigger] descriptor[j]).name != descriptor[index].name,
    ensures
        entry_with_name(descriptor, descriptor[index].name) == Some(descriptor[index]),
{
    lemma_entry_with_name_is_first(descriptor, descriptor[index].name, index);
}

/// An entry that is the first with its name is the entry that a search for
/// that name gives.
pub proof fn lemma_entry_with_name_is_first(
    descriptor: Seq<IdentifierModel>,
    name: Seq<char>,
    i: int,
)
    requires
        first_with_name(descriptor, name, i),
    ensures
        has_name(descriptor, name),
        entry_with_name(descriptor, name) == Some(descriptor[i]),
{
    assert(descriptor[i].name == name);
    let chosen = choose|k: int| first_with_name(descriptor, name, k);
    lemma_first_with_name_unique(descriptor, name, i, chosen);
}

/// At most one entry is the first with a given name.
pub proof fn lemma_first_with_name_unique(
    descriptor: Seq<IdentifierModel>,
    name: Seq<char>,
    i: int,
    j: int,
)
    requires
        first_with_name(descriptor, name, i),
        first_with_name(descriptor, name, j),
    ensures
        i == j,
{
    if i < j {
        assert(descriptor[i].name != name);
    }
    if j < i {
        assert(descriptor[j].name != name);
    }
}

/// The validation accepts an audit descriptor exactly when the set of its
/// column names is the set of the source table's column names together with
/// the standard audit column names. This holds for a source table whose
/// column names are all different and none of which is the name of a
/// standard audit column.
pub proof fn lemma_valid_iff_exact_column_names(
    source: Seq<IdentifierModel>,
    audit: Seq<IdentifierModel>,
)
    requires
        column_names(source).no_duplicates(),
        column_name_set(source).disjoint(audit_table_column_names().to_set()),
    ensures
        audit_table_iden_valid(source, audit) <==> column_name_set(audit) == column_name_set(
            source,
        ).union(audit_table_column_names().to_set()),
{
    let source_set = column_name_set(source);
    let standard_set = audit_table_column_names().to_set();
    let audit_set = column_name_set(audit);
    let wanted = source_set.union(standard_set);
    lemma_audit_table_column_names_distinct();
    column_names(source).unique_seq_to_set();
    seq_to_set_is_finite(column_names(source));
    seq_to_set_is_finite(audit_table_column_names());
    seq_to_set_is_finite(column_names(audit));
    lemma_set_disjoint_lens(source_set, standard_set);
    assert(wanted.len() == table_columns(source).len() + 8);
    assert(wanted.finite());
    if audit_table_iden_valid(source, audit) {
        assert(wanted.subset_of(audit_set));
        lemma_subset_equality(wanted, audit_set);
    }
    if audit_set == wanted {
        assert(source_set.subset_of(audit_set));
        assert(standard_set.subset_of(audit_set));
    }
}

/// The standard audit column names are eight different names.
pub proof fn lemma_audit_table_column_names_distinct()
    ensures
        audit_table_column_names().len() == 8,
        audit_table_column_names().no_duplicates(),
        audit_table_column_names().to_set().len() == 8,
{
    let names = audit_table_column_names();
    reveal_strlit("audit_id");
    reveal_strlit("audit_action");
    reveal_strlit("audit_timestamp_transaction_start");
    reveal_strlit("audit_timestamp_statement_start");
    reveal_strlit("audit_timestamp_trigger");
    reveal_strlit("audit_client_host");
    reveal_strlit("audit_client_port");
    reveal_strlit("audit_client_query");
    assert(names[0].len() == 8);
    assert(names[1].len() == 12);
    assert(names[2].len() == 33);
    assert(names[3].len() == 31);
    assert(names[4].len() == 23);
    assert(names[5].len() == 17);
    assert(names[6].len() == 17);
    assert(names[7].len() == 18);
    assert(names[5][13] != names[6][13]);
    assert(names.no_duplicates());
    names.unique_seq_to_set();
}

/// The name of a column is the name of an entry.
pub proof fn lemma_column_name_is_entry_name(descriptor: Seq<IdentifierModel>, name: Seq<char>)
    requires
        column_name_set(descriptor).contains(name),
    ensures
        has_name(descriptor, name),
{
    let columns = table_columns(descriptor);
    let names = column_names(descriptor);
    let j = choose|j: int| 0 <= j < names.len() && names[j] == name;
    assert(columns[j].name == name);
    assert(columns.contains(columns[j]));
    descriptor.lemma_filter_contains_rev(
        |entry: IdentifierModel| entry.role is Column,
        columns[j],
    );
    let i = choose|i: int| 0 <= i < descriptor.len() && descriptor[i] == columns[j];
    assert(descriptor[i].name == name);
}

/// A filter that keeps nothing met no entry that it accepts.
proof fn lemma_filter_empty(entries: Seq<IdentifierModel>, keep: spec_fn(IdentifierModel) -> bool)
    requires
        entries.filter(keep).len() == 0,
    ensures
        forall|i: int| 0 <= i < entries.len() ==> !keep(#[trigger] entries[i]),
{
    assert forall|i: int| 0 <= i < entries.len() implies !keep(#[trigger] entries[i]) by {
        if keep(entries[i]) {
            entries.lemma_filter_contains(keep, i);
        }
    }
}

/// A filter that accepts every entry keeps the sequence as it is.
proof fn lemma_filter_keeps_all(
    entries: Seq<IdentifierModel>,
    keep: spec_fn(IdentifierModel) -> bool,
)
    requires
        forall|i: int| 0 <= i < entries.len() ==> keep(#[trigger] entries[i]),
    ensures
        entries.filter(keep) == entries,
    decreases entries.len(),
{
    reveal(Seq::filter);
    if entries.len() > 0 {
        let front = entries.drop_last();
        assert forall|i: int| 0 <= i < front.len() implies keep(#[trigger] front[i]) by {
            assert(front[i] == entries[i]);
        }
        lemma_filter_keeps_all(front, keep);
        assert(front.push(entries.last()) == entries);
    }
}

/// A filter over a sequence cut in three is the three filtered parts.
proof fn lemma_filter_three_parts(
    front: Seq<IdentifierModel>,
    middle: Seq<IdentifierModel>,
    back: Seq<IdentifierModel>,
    keep: spec_fn(IdentifierModel) -> bool,
)
    ensures
        (front + middle + back).filter(keep) == front.filter(keep) + middle.filter(keep)
            + back.filter(keep),
{
    Seq::filter_distributes_over_add(front + middle, back, keep);
    Seq::filter_distributes_over_add(front, middle, keep);
}

/// A filter keeps the one entry of a sequence or drops it.
proof fn lemma_filter_one(entry: IdentifierModel, keep: spec_fn(IdentifierModel) -> bool)
    ensures
        seq![entry].filter(keep) == if keep(entry) {
            seq![entry]
        } else {
            Seq::<IdentifierModel>::empty()
        },
{
    reveal_with_fuel(Seq::filter, 2);
    assert(seq![entry].drop_last() == Seq::<IdentifierModel>::empty());
    assert(Seq::<IdentifierModel>::empty().push(entry) == seq![entry]);
}

} // verus!
