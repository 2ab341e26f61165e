//! What the rows of the configuration tables mean: the types, the keys, and
//! the entries of each key.

use crate::configuration::{
    lemma_type_names_differ, ConfigurationEntryItemResponse, ConfigurationEntryResponse,
    ConfigurationEntryUserResponse, ConfigurationKeyResponse, ConfigurationTypeResponse,
    ConfigurationValueResponse, CONFIGURATION_TYPE_BOOLEAN, CONFIGURATION_TYPE_FLOAT,
    CONFIGURATION_TYPE_INTEGER, CONFIGURATION_TYPE_STRING,
};
use crate::number::{i64_of_text, parse_i64};
use crate::text::same_text;
use crate::validation::InvalidField;
use vstd::prelude::*;

verus! {

/// Why the rows of the configuration tables cannot be given out.
#[derive(Debug, PartialEq, Eq)]
pub enum Error {
    /// No configuration type has this identifier.
    ConfigurationTypeNotFound(i32),
    /// No configuration key has this identifier.
    ConfigurationKeyNotFound(i32),
    /// This text is neither `true` nor `false`.
    ConfigurationValueParseErrorBoolean(String),
    /// The text of an integer value is not a decimal number that an `i64`
    /// can hold.
    NumParseIntError,
    /// The float parser did not accept the text of a float value.
    NumParseFloatError,
    /// A record breaks the rules of its type in this field.
    ValidatorValidationErrors(InvalidField),
}

/// A row of the table of configuration keys.
#[derive(Debug, PartialEq, Eq)]
pub struct ConfigurationKeyRow {
    pub id: i32,
    pub name: String,
    pub description: String,
    pub type_id: i32,
    pub optional: bool,
    pub allows_multiple: bool,
    pub allows_user_override: bool,
}

/// Record `index` is the first that breaks the rules of its type, and it
/// breaks them in the given field.
pub open spec fn first_invalid_type(
    types: Seq<ConfigurationTypeResponse>,
    index: int,
    field: InvalidField,
) -> bool {
    &&& 0 <= index < types.len()
    &&& types[index].check() == Err::<(), InvalidField>(field)
    &&& forall|j: int| 0 <= j < index ==> (#[trigger] types[j]).check() is Ok
}

/// Gives out the configuration types that were read from the database, in
/// the same order, if each obeys the rules of its type.
pub fn get_all_configuration_types(rows: Vec<ConfigurationTypeResponse>) -> (types: Result<
    Vec<ConfigurationTypeResponse>,
    Error,
>)
    ensures
        match types {
            Ok(checked) => {
                &&& checked == rows
                &&& forall|i: int| 0 <= i < rows@.len() ==> (#[trigger] rows@[i]).check() is Ok
            },
            Err(Error::ValidatorValidationErrors(field)) => exists|i: int| #[trigger]
                first_invalid_type(rows@, i, field),
            Err(_) => false,
        },
{
    let mut i: usize = 0;
    while i < rows.len()
        invariant
            i <= rows@.len(),
            forall|j: int| 0 <= j < i ==> (#[trigger] rows@[j]).check() is Ok,
        decreases rows@.len() - i,
    {
        match rows[i].validate() {
            Ok(()) => {},
            Err(field) => {
                assert(first_invalid_type(rows@, i as int, field));
                return Err(Error::ValidatorValidationErrors(field));
            },
        }
        i = i + 1;
    }
    Ok(rows)
}

/// Type `index` is the first of the set with the given identifier.
pub open spec fn first_type_with_id(
    type_set: Seq<ConfigurationTypeResponse>,
    id: i32,
    index: int,
) -> bool {
    &&& 0 <= index < type_set.len()
    &&& type_set[index].id == id
    &&& forall|j: int| 0 <= j < index ==> (#[trigger] type_set[j]).id != id
}

/// Some type of the set has the given identifier.
pub open spec fn has_type_with_id(type_set: Seq<ConfigurationTypeResponse>, id: i32) -> bool {
    exists|i: int| 0 <= i < type_set.len() && (#[trigger] type_set[i]).id == id
}

/// The place of the first type of the set with the given identifier.
pub fn find_configuration_type(type_set: &Vec<ConfigurationTypeResponse>, id: i32) -> (found:
    Option<usize>)
    ensures
        match found {
            Some(index) => first_type_with_id(type_set@, id, index as int),
            None => !has_type_with_id(type_set@, id),
        },
{
    let mut i: usize = 0;
    while i < type_set.len()
        invariant
            i <= type_set@.len(),
            forall|j: int| 0 <= j < i ==> (#[trigger] type_set@[j]).id != id,
        decreases type_set@.len() - i,
    {
        if type_set[i].id == id {
            return Some(i);
        }
        i = i + 1;
    }
    None
}

/// The configuration key that a row denotes, with the given type.
pub open spec fn key_of_row(
    row: ConfigurationKeyRow,
    configuration_type: ConfigurationTypeResponse,
) -> ConfigurationKeyResponse {
    ConfigurationKeyResponse {
        id: row.id,
        name: row.name,
        description: row.description,
        configuration_type,
        optional: row.optional,
        allows_multiple: row.allows_multiple,
        allows_user_override: row.allows_user_override,
    }
}

/// The place of the first type of the set with the given identifier, where
/// there is one.
pub open spec fn first_type_index(type_set: Seq<ConfigurationTypeResponse>, id: i32) -> int {
    choose|t: int| first_type_with_id(type_set, id, t)
}

/// The first type with a given identifier has one place.
pub proof fn lemma_first_type_index(type_set: Seq<ConfigurationTypeResponse>, id: i32, index: int)
    requires
        first_type_with_id(type_set, id, index),
    ensures
        has_type_with_id(type_set, id),
        first_type_index(type_set, id) == index,
{
    assert(type_set[index].id == id);
    let chosen = first_type_index(type_set, id);
    if chosen < index {
        assert(type_set[chosen].id != id);
    }
    if index < chosen {
        assert(type_set[index].id != id);
    }
}

/// What a row of the table of configuration keys denotes: the key with the
/// first type of the set that has the identifier of the row's type, if
/// there is such a type and the key obeys the rules of its type.
pub open spec fn key_response(
    row: ConfigurationKeyRow,
    type_set: Seq<ConfigurationTypeResponse>,
) -> Result<ConfigurationKeyResponse, Error> {
    if !has_type_with_id(type_set, row.type_id) {
        Err(Error::ConfigurationTypeNotFound(row.type_id))
    } else {
        let key = key_of_row(row, type_set[first_type_index(type_set, row.type_id)]);
        match key.check() {
            Ok(()) => Ok(key),
            Err(field) => Err(Error::ValidatorValidationErrors(field)),
        }
    }
}

/// Gives out the configuration key of one row.
pub fn configuration_key_response(
    row: ConfigurationKeyRow,
    type_set: &Vec<ConfigurationTypeResponse>,
) -> (response: Result<ConfigurationKeyResponse, Error>)
    ensures
        response == key_response(row, type_set@),
{
    match find_configuration_type(type_set, row.type_id) {
        None => Err(Error::ConfigurationTypeNotFound(row.type_id)),
        Some(index) => {
            proof {
                lemma_first_type_index(type_set@, row.type_id, index as int);
            }
            let response = ConfigurationKeyResponse {
                id: row.id,
                name: row.name,
                description: row.description,
                configuration_type: type_set[index].clone(),
                optional: row.optional,
                allows_multiple: row.allows_multiple,
                allows_user_override: row.allows_user_override,
            };
            assert(response == key_of_row(row, type_set@[index as int]));
            match response.validate() {
                Ok(()) => Ok(response),
                Err(field) => Err(Error::ValidatorValidationErrors(field)),
            }
        },
    }
}

/// Gives out the configuration keys that were read from the database, in
/// the same order, each with its type from the set of types. The first row
/// that denotes no key gives the error.
pub fn get_all_configuration_keys(
    rows: Vec<ConfigurationKeyRow>,
    type_set: &Vec<ConfigurationTypeResponse>,
) -> (keys: Result<Vec<ConfigurationKeyResponse>, Error>)
    ensures
        match keys {
            Ok(responses) => {
                &&& responses@.len() == rows@.len()
                &&& forall|i: int|
                    0 <= i < rows@.len() ==> key_response(#[trigger] rows@[i], type_set@) == Ok::<
                        ConfigurationKeyResponse,
                        Error,
                    >(responses@[i])
            },
            Err(error) => exists|i: int|
                {
                    &&& 0 <= i < rows@.len()
                    &&& key_response(#[trigger] rows@[i], type_set@) == Err::<
                        ConfigurationKeyResponse,
                        Error,
                    >(error)
                    &&& forall|j: int|
                        0 <= j < i ==> key_response(#[trigger] rows@[j], type_set@) is Ok
                },
        },
{
    let mut responses: Vec<ConfigurationKeyResponse> = Vec::new();
    for row in it: rows
        invariant
            it.seq() == rows@,
            responses@.len() == it.index(),
            forall|i: int|
                0 <= i < it.index() ==> key_response(#[trigger] rows@[i], type_set@) == Ok::<
                    ConfigurationKeyResponse,
                    Error,
                >(responses@[i]),
    {
        match configuration_key_response(row, type_set) {
            Ok(response) => {
                responses.push(response);
            },
            Err(error) => {
                return Err(error);
            },
        }
    }
    Ok(responses)
}

/// Whether a result is the reading of a stored text as a value of the given
/// configuration type.
///
/// - `boolean`: the text is `true` or `false`, exactly; the error holds any
///   other text.
/// - `integer`: the text is an optional sign and decimal digits, within the
///   range of an `i64`.
/// - `float`: the text was handed to `parse_float`, and is a float where
///   that gave a value.
/// - `string`: every text is a value, itself.
///
/// A configuration type of any other name is not found.
pub open spec fn parsed_value_holds<Float, P: Fn(&str) -> Option<Float>>(
    text: Seq<char>,
    configuration_type: ConfigurationTypeResponse,
    parse_float: &P,
    parsed: Result<ConfigurationValueResponse<Float>, Error>,
) -> bool {
    let name = configuration_type.name@;
    if name == CONFIGURATION_TYPE_BOOLEAN@ {
        if text == "true"@ {
            parsed == Ok::<ConfigurationValueResponse<Float>, Error>(
                ConfigurationValueResponse {
                    as_boolean: Some(true),
                    as_integer: None,
                    as_float: None,
                    as_string: None,
                },
            )
        } else if text == "false"@ {
            parsed == Ok::<ConfigurationValueResponse<Float>, Error>(
                ConfigurationValueResponse {
                    as_boolean: Some(false),
                    as_integer: None,
                    as_float: None,
                    as_string: None,
                },
            )
        } else {
            parsed matches Err(Error::ConfigurationValueParseErrorBoolean(given)) && given@
                == text
        }
    } else if name == CONFIGURATION_TYPE_INTEGER@ {
        parsed == (match i64_of_text(text) {
            Some(number) => Ok::<ConfigurationValueResponse<Float>, Error>(
                ConfigurationValueResponse {
                    as_boolean: None,
                    as_integer: Some(number),
                    as_float: None,
                    as_string: None,
                },
            ),
            None => Err(Error::NumParseIntError),
        })
    } else if name == CONFIGURATION_TYPE_FLOAT@ {
        exists|given: &str, read: Option<Float>|
            given@ == text && #[trigger] call_ensures(parse_float, (given,), read) && parsed == (
            match read {
                Some(number) => Ok::<ConfigurationValueResponse<Float>, Error>(
                    ConfigurationValueResponse {
                        as_boolean: None,
                        as_integer: None,
                        as_float: Some(number),
                        as_string: None,
                    },
                ),
                None => Err(Error::NumParseFloatError),
            })
    } else if name == CONFIGURATION_TYPE_STRING@ {
        &&& parsed matches Ok(value)
        &&& value.as_boolean is None
        &&& value.as_integer is None
        &&& value.as_float is None
        &&& value.as_string matches Some(kept)
        &&& kept@ == text
    } else {
        parsed == Err::<ConfigurationValueResponse<Float>, Error>(
            Error::ConfigurationTypeNotFound(configuration_type.id),
        )
    }
}

/// Reads the stored text of a configuration entry as a value of the given
/// configuration type.
pub fn parse_configuration_value<Float, P: Fn(&str) -> Option<Float>>(
    text: &str,
    configuration_type: &ConfigurationTypeResponse,
    parse_float: &P,
) -> (parsed: Result<ConfigurationValueResponse<Float>, Error>)
    requires
        configuration_type.name@ == CONFIGURATION_TYPE_FLOAT@ ==> call_requires(
            parse_float,
            (text,),
        ),
    ensures
        parsed_value_holds(text@, *configuration_type, parse_float, parsed),
{
    proof {
        lemma_type_names_differ();
    }
    let name = configuration_type.name.as_str();
    let mut value = ConfigurationValueResponse::empty();
    if same_text(name, CONFIGURATION_TYPE_BOOLEAN) {
        if same_text(text, "true") {
            value.as_boolean = Some(true);
            Ok(value)
        } else if same_text(text, "false") {
            value.as_boolean = Some(false);
            Ok(value)
        } else {
            Err(Error::ConfigurationValueParseErrorBoolean(text.to_owned()))
        }
    } else if same_text(name, CONFIGURATION_TYPE_INTEGER) {
        match parse_i64(text) {
            Some(number) => {
                value.as_integer = Some(number);
                Ok(value)
            },
            None => Err(Error::NumParseIntError),
        }
    } else if same_text(name, CONFIGURATION_TYPE_FLOAT) {
        match parse_float(text) {
            Some(number) => {
                value.as_float = Some(number);
                Ok(value)
            },
            None => Err(Error::NumParseFloatError),
        }
    } else if same_text(name, CONFIGURATION_TYPE_STRING) {
        value.as_string = Some(text.to_owned());
        Ok(value)
    } else {
        Err(Error::ConfigurationTypeNotFound(configuration_type.id))
    }
}

/// A row of the table of configuration entries.
#[derive(Debug, PartialEq, Eq)]
pub struct ConfigurationEntryRow {
    pub id: i32,
    pub key_id: i32,
    pub user_id: Option<String>,
    pub value: String,
}

/// A row of the table of configuration entries with the place of its key in
/// the set of keys and with its value read.
#[derive(Debug, PartialEq)]
pub struct ResolvedEntryRow<Float> {
    pub key_index: usize,
    pub user_id: Option<String>,
    pub item: ConfigurationEntryItemResponse<Float>,
}

/// Key `index` is the first of the set with the given identifier.
pub open spec fn first_key_with_id(
    key_set: Seq<ConfigurationKeyResponse>,
    id: i32,
    index: int,
) -> bool {
    &&& 0 <= index < key_set.len()
    &&& key_set[index].id == id
    &&& forall|j: int| 0 <= j < index ==> (#[trigger] key_set[j]).id != id
}

/// Some key of the set has the given identifier.
pub open spec fn has_key_with_id(key_set: Seq<ConfigurationKeyResponse>, id: i32) -> bool {
    exists|i: int| 0 <= i < key_set.len() && (#[trigger] key_set[i]).id == id
}

/// The place of the first key of the set with the given identifier, where
/// there is one.
pub open spec fn first_key_index(key_set: Seq<ConfigurationKeyResponse>, id: i32) -> int {
    choose|k: int| first_key_with_id(key_set, id, k)
}

/// The first key with a given identifier has one place.
pub proof fn lemma_first_key_index(key_set: Seq<ConfigurationKeyResponse>, id: i32, index: int)
    requires
        first_key_with_id(key_set, id, index),
    ensures
        has_key_with_id(key_set, id),
        first_key_index(key_set, id) == index,
{
    assert(key_set[index].id == id);
    let chosen = first_key_index(key_set, id);
    if chosen < index {
        assert(key_set[chosen].id != id);
    }
    if index < chosen {
        assert(key_set[index].id != id);
    }
}

/// The place of the first key of the set with the given identifier.
pub fn find_configuration_key(key_set: &Vec<ConfigurationKeyResponse>, id: i32) -> (found: Option<
    usize,
>)
    ensures
        match found {
            Some(index) => first_key_with_id(key_set@, id, index as int),
            None => !has_key_with_id(key_set@, id),
        },
{
    let mut i: usize = 0;
    while i < key_set.len()
        invariant
            i <= key_set@.len(),
            forall|j: int| 0 <= j < i ==> (#[trigger] key_set@[j]).id != id,
        decreases key_set@.len() - i,
    {
        if key_set[i].id == id {
            return Some(i);
        }
        i = i + 1;
    }
    None
}

/// Whether a result is the resolution of a row: the first key of the set
/// with the row's key identifier, and the row's text read as a value of the
/// type of that key.
pub open spec fn row_resolves<Float, P: Fn(&str) -> Option<Float>>(
    row: ConfigurationEntryRow,
    key_set: Seq<ConfigurationKeyResponse>,
    parse_float: &P,
    resolved: Result<ResolvedEntryRow<Float>, Error>,
) -> bool {
    if !has_key_with_id(key_set, row.key_id) {
        resolved == Err::<ResolvedEntryRow<Float>, Error>(
            Error::ConfigurationKeyNotFound(row.key_id),
        )
    } else {
        let key_index = first_key_index(key_set, row.key_id);
        exists|parsed: Result<ConfigurationValueResponse<Float>, Error>| #[trigger]
            parsed_value_holds(
                row.value@,
                key_set[key_index].configuration_type,
                parse_float,
                parsed,
            ) && resolved == (match parsed {
                Ok(value) => Ok::<ResolvedEntryRow<Float>, Error>(
                    ResolvedEntryRow {
                        key_index: key_index as usize,
                        user_id: row.user_id,
                        item: ConfigurationEntryItemResponse { id: row.id, value },
                    },
                ),
                Err(error) => Err(error),
            })
    }
}

/// The float parser accepts every text.
pub open spec fn float_parser_is_total<Float, P: Fn(&str) -> Option<Float>>(
    parse_float: &P,
) -> bool {
    forall|text: &str| #[trigger] call_requires(parse_float, (text,))
}

/// Finds the key of a row and reads its value.
pub fn resolve_configuration_entry<Float, P: Fn(&str) -> Option<Float>>(
    row: ConfigurationEntryRow,
    key_set: &Vec<ConfigurationKeyResponse>,
    parse_float: &P,
) -> (resolved: Result<ResolvedEntryRow<Float>, Error>)
    requires
        float_parser_is_total(parse_float),
    ensures
        row_resolves(row, key_set@, parse_float, resolved),
        resolved matches Ok(found) ==> found.key_index < key_set@.len(),
{
    match find_configuration_key(key_set, row.key_id) {
        None => Err(Error::ConfigurationKeyNotFound(row.key_id)),
        Some(key_index) => {
            proof {
                lemma_first_key_index(key_set@, row.key_id, key_index as int);
            }
            let parsed = parse_configuration_value(
                row.value.as_str(),
                &key_set[key_index].configuration_type,
                parse_float,
            );
            match parsed {
                Ok(value) => Ok(
                    ResolvedEntryRow {
                        key_index,
                        user_id: row.user_id,
                        item: ConfigurationEntryItemResponse { id: row.id, value },
                    },
                ),
                Err(error) => Err(error),
            }
        },
    }
}

/// Whether a result is the resolution of the rows, in order: every row
/// resolved, or the error of the first row that does not resolve.
pub open spec fn rows_resolve<Float, P: Fn(&str) -> Option<Float>>(
    rows: Seq<ConfigurationEntryRow>,
    key_set: Seq<ConfigurationKeyResponse>,
    parse_float: &P,
    resolved: Result<Seq<ResolvedEntryRow<Float>>, Error>,
) -> bool {
    match resolved {
        Ok(all) => {
            &&& all.len() == rows.len()
            &&& forall|i: int|
                0 <= i < rows.len() ==> row_resolves(
                    #[trigger] rows[i],
                    key_set,
                    parse_float,
                    Ok(all[i]),
                )
        },
        Err(error) => exists|i: int, before: Seq<ResolvedEntryRow<Float>>|
            {
                &&& 0 <= i < rows.len()
                &&& #[trigger] row_resolves(
                    rows[i],
                    key_set,
                    parse_float,
                    Err::<ResolvedEntryRow<Float>, Error>(error),
                )
                &&& #[trigger] before.len() == i
                &&& forall|j: int|
                    0 <= j < i ==> row_resolves(
                        #[trigger] rows[j],
                        key_set,
                        parse_float,
                        Ok(before[j]),
                    )
            },
    }
}

/// Finds the key of each row and reads its value, in the order of the rows,
/// up to the first row that has no key or no value.
pub fn resolve_configuration_entries<Float, P: Fn(&str) -> Option<Float>>(
    rows: Vec<ConfigurationEntryRow>,
    key_set: &Vec<ConfigurationKeyResponse>,
    parse_float: &P,
) -> (resolved: Result<Vec<ResolvedEntryRow<Float>>, Error>)
    requires
        float_parser_is_total(parse_float),
    ensures
        rows_resolve(
            rows@,
            key_set@,
            parse_float,
            match resolved {
                Ok(all) => Ok(all@),
                Err(error) => Err(error),
            },
        ),
        resolved matches Ok(all) ==> forall|i: int|
            0 <= i < all@.len() ==> (#[trigger] all@[i]).key_index < key_set@.len(),
{
    let mut all: Vec<ResolvedEntryRow<Float>> = Vec::new();
    for row in it: rows
        invariant
            it.seq() == rows@,
            all@.len() == it.index(),
            float_parser_is_total(parse_float),
            forall|i: int|
                0 <= i < all@.len() ==> (#[trigger] all@[i]).key_index < key_set@.len(),
            forall|i: int|
                0 <= i < it.index() ==> row_resolves(
                    #[trigger] rows@[i],
                    key_set@,
                    parse_float,
                    Ok(all@[i]),
                ),
    {
        let ghost index = it.index() as int;
        match resolve_configuration_entry(row, key_set, parse_float) {
            Ok(one) => {
                all.push(one);
            },
            Err(error) => {
                proof {
                    assert(row_resolves(
                        rows@[index],
                        key_set@,
                        parse_float,
                        Err::<ResolvedEntryRow<Float>, Error>(error),
                    ));
                    assert(all@.len() == index);
                }
                return Err(error);
            },
        }
    }
    Ok(all)
}

/// Whether a resolved row belongs to the key at the given place, and to
/// one user rather than to everyone.
pub open spec fn row_is_of<Float>(
    row: ResolvedEntryRow<Float>,
    key_index: usize,
    of_user: bool,
) -> bool {
    row.key_index == key_index && (row.user_id is Some) == of_user
}

/// The rows of one key, in order: those of a user, or those of everyone.
pub open spec fn rows_of<Float>(
    rows: Seq<ResolvedEntryRow<Float>>,
    key_index: usize,
    of_user: bool,
) -> Seq<ResolvedEntryRow<Float>> {
    rows.filter(|row: ResolvedEntryRow<Float>| row_is_of(row, key_index, of_user))
}

/// The values of one key, in the order of the rows: those of a user, or
/// those of everyone.
pub open spec fn items_of<Float>(
    rows: Seq<ResolvedEntryRow<Float>>,
    key_index: usize,
    of_user: bool,
) -> Seq<ConfigurationEntryItemResponse<Float>> {
    rows_of(rows, key_index, of_user).map_values(|row: ResolvedEntryRow<Float>| row.item)
}

/// The places of the keys of the rows, each once, in the order in which the
/// rows first name them.
pub open spec fn key_order<Float>(rows: Seq<ResolvedEntryRow<Float>>) -> Seq<usize>
    decreases rows.len(),
{
    if rows.len() == 0 {
        Seq::empty()
    } else {
        let before = key_order(rows.drop_last());
        if before.contains(rows.last().key_index) {
            before
        } else {
            before.push(rows.last().key_index)
        }
    }
}

/// Whether an entry holds what the rows say of the key at the given place:
/// the key, the values for everyone in the order of their rows, and, where
/// a row names a user, the user of the first such row with the values of
/// all such rows in their order.
pub open spec fn entry_groups<Float>(
    entry: ConfigurationEntryResponse<Float>,
    rows: Seq<ResolvedEntryRow<Float>>,
    key_set: Seq<ConfigurationKeyResponse>,
    key_index: usize,
) -> bool {
    &&& key_index < key_set.len()
    &&& entry.key == key_set[key_index as int]
    &&& entry.items_global@ == items_of(rows, key_index, false)
    &&& user_items_hold(entry, rows, key_index)
}

/// Whether the user of an entry is what the rows say of the key at the
/// given place: none where no row of the key names a user; else the user of
/// the first such row, with the values of all such rows in their order.
pub open spec fn user_items_hold<Float>(
    entry: ConfigurationEntryResponse<Float>,
    rows: Seq<ResolvedEntryRow<Float>>,
    key_index: usize,
) -> bool {
    match entry.user {
        None => rows_of(rows, key_index, true).len() == 0,
        Some(user) => {
            &&& rows_of(rows, key_index, true).len() > 0
            &&& Some(user.user_id) == rows_of(rows, key_index, true)[0].user_id
            &&& user.items@ == items_of(rows, key_index, true)
        },
    }
}

/// Whether the entries are the rows grouped by key: one entry for each key
/// that a row names, in the order in which the rows first name them.
pub open spec fn entries_group<Float>(
    entries: Seq<ConfigurationEntryResponse<Float>>,
    rows: Seq<ResolvedEntryRow<Float>>,
    key_set: Seq<ConfigurationKeyResponse>,
) -> bool {
    &&& entries.len() == key_order(rows).len()
    &&& forall|j: int|
        0 <= j < entries.len() ==> entry_groups(
            #[trigger] entries[j],
            rows,
            key_set,
            key_order(rows)[j],
        )
}

/// A row more is one row more for its key and its kind, and none for the
/// others.
proof fn lemma_rows_of_push<Float>(
    rows: Seq<ResolvedEntryRow<Float>>,
    row: ResolvedEntryRow<Float>,
    key_index: usize,
    of_user: bool,
)
    ensures
        rows_of(rows.push(row), key_index, of_user) == if row_is_of(row, key_index, of_user) {
            rows_of(rows, key_index, of_user).push(row)
        } else {
            rows_of(rows, key_index, of_user)
        },
        items_of(rows.push(row), key_index, of_user) == if row_is_of(row, key_index, of_user) {
            items_of(rows, key_index, of_user).push(row.item)
        } else {
            items_of(rows, key_index, of_user)
        },
{
    rows.lemma_filter_push(
        row,
        |row: ResolvedEntryRow<Float>| row_is_of(row, key_index, of_user),
    );
    if row_is_of(row, key_index, of_user) {
        assert(items_of(rows.push(row), key_index, of_user) =~= items_of(
            rows,
            key_index,
            of_user,
        ).push(row.item));
    }
}

/// The order of the keys names a key exactly when a row does.
proof fn lemma_key_order_contains<Float>(rows: Seq<ResolvedEntryRow<Float>>, key_index: usize)
    ensures
        key_order(rows).contains(key_index) <==> exists|i: int|
            0 <= i < rows.len() && (#[trigger] rows[i]).key_index == key_index,
    decreases rows.len(),
{
    if rows.len() > 0 {
        let front = rows.drop_last();
        lemma_key_order_contains(front, key_index);
        let before = key_order(front);
        if key_order(rows).contains(key_index) {
            if before.contains(key_index) {
                let i = choose|i: int| 0 <= i < front.len() && (#[trigger] front[i]).key_index
                    == key_index;
                assert(rows[i].key_index == key_index);
            } else {
                assert(before.push(rows.last().key_index).contains(key_index));
                let at = choose|at: int| 0 <= at < before.len() + 1 && before.push(
                    rows.last().key_index,
                )[at] == key_index;
                if at < before.len() {
                    assert(before[at] == key_index);
                }
                assert(rows[rows.len() - 1].key_index == key_index);
            }
        }
        if exists|i: int| 0 <= i < rows.len() && (#[trigger] rows[i]).key_index == key_index {
            let i = choose|i: int| 0 <= i < rows.len() && (#[trigger] rows[i]).key_index
                == key_index;
            if i < front.len() {
                assert(front[i].key_index == key_index);
                let at = choose|at: int| 0 <= at < before.len() && before[at] == key_index;
                if !before.contains(rows.last().key_index) {
                    assert(before.push(rows.last().key_index)[at] == key_index);
                }
            } else {
                if before.contains(rows.last().key_index) {
                } else {
                    assert(before.push(rows.last().key_index)[before.len() as int]
                        == key_index);
                }
            }
        }
    }
}

/// The order of the keys names each key once.
proof fn lemma_key_order_distinct<Float>(rows: Seq<ResolvedEntryRow<Float>>)
    ensures
        key_order(rows).no_duplicates(),
    decreases rows.len(),
{
    if rows.len() > 0 {
        lemma_key_order_distinct(rows.drop_last());
    }
}

/// A key that no row names has no rows.
proof fn lemma_no_rows_of_new_key<Float>(
    rows: Seq<ResolvedEntryRow<Float>>,
    key_index: usize,
    of_user: bool,
)
    requires
        !key_order(rows).contains(key_index),
    ensures
        rows_of(rows, key_index, of_user).len() == 0,
        items_of(rows, key_index, of_user).len() == 0,
{
    let keep = |row: ResolvedEntryRow<Float>| row_is_of(row, key_index, of_user);
    let kept = rows.filter(keep);
    if kept.len() > 0 {
        rows.lemma_filter_pred(keep, 0);
        assert(kept.contains(kept[0]));
        rows.lemma_filter_contains_rev(keep, kept[0]);
        let i = choose|i: int| 0 <= i < rows.len() && rows[i] == kept[0];
        assert(rows[i].key_index == key_index);
        lemma_key_order_contains(rows, key_index);
    }
}

/// An entry that holds what the rows say of its key still does after a row
/// of another key.
proof fn lemma_entry_groups_other_key<Float>(
    entry: ConfigurationEntryResponse<Float>,
    rows: Seq<ResolvedEntryRow<Float>>,
    row: ResolvedEntryRow<Float>,
    key_set: Seq<ConfigurationKeyResponse>,
    key_index: usize,
)
    requires
        entry_groups(entry, rows, key_set, key_index),
        row.key_index != key_index,
    ensures
        entry_groups(entry, rows.push(row), key_set, key_index),
{
    lemma_rows_of_push(rows, row, key_index, false);
    lemma_rows_of_push(rows, row, key_index, true);
}

/// The place of a number in a list of different numbers.
fn find_place(order: &Vec<usize>, wanted: usize) -> (found: Option<usize>)
    ensures
        match found {
            Some(place) => place < order@.len() && order@[place as int] == wanted,
            None => !order@.contains(wanted),
        },
{
    let mut i: usize = 0;
    while i < order.len()
        invariant
            i <= order@.len(),
            forall|j: int| 0 <= j < i ==> order@[j] != wanted,
        decreases order@.len() - i,
    {
        if order[i] == wanted {
            return Some(i);
        }
        i = i + 1;
    }
    None
}

/// Groups the resolved rows by key: one entry for each key that a row
/// names, in the order in which the rows first name them. An entry holds
/// the values of its rows in their order, those for everyone apart from
/// those that name a user; the user of an entry is that of its first row
/// that names one.
pub fn group_configuration_entries<Float>(
    rows: Vec<ResolvedEntryRow<Float>>,
    key_set: &Vec<ConfigurationKeyResponse>,
) -> (entries: Vec<ConfigurationEntryResponse<Float>>)
    requires
        forall|i: int| 0 <= i < rows@.len() ==> (#[trigger] rows@[i]).key_index < key_set@.len(),
    ensures
        entries_group(entries@, rows@, key_set@),
{
    let mut order: Vec<usize> = Vec::new();
    let mut entries: Vec<ConfigurationEntryResponse<Float>> = Vec::new();
    for row in it: rows
        invariant
            it.seq() == rows@,
            forall|i: int|
                0 <= i < rows@.len() ==> (#[trigger] rows@[i]).key_index < key_set@.len(),
            order@ == key_order(rows@.take(it.index() as int)),
            entries_group(entries@, rows@.take(it.index() as int), key_set@),
    {
        let ghost before = rows@.take(it.index() as int);
        let ghost after = rows@.take(it.index() + 1);
        let ghost given = row;
        let key_index = row.key_index;
        proof {
            assert(after == before.push(row));
            assert(after.drop_last() == before);
            assert(rows@[it.index() as int].key_index < key_set@.len());
            lemma_key_order_distinct(before);
            lemma_key_order_distinct(after);
        }
        let place = match find_place(&order, key_index) {
            Some(place) => {
                assert(entry_groups(entries@[place as int], before, key_set@, key_index));
                place
            },
            None => {
                proof {
                    lemma_no_rows_of_new_key(before, key_index, false);
                    lemma_no_rows_of_new_key(before, key_index, true);
                }
                let ghost known = entries@;
                order.push(key_index);
                let entry = ConfigurationEntryResponse {
                    key: key_set[key_index].clone(),
                    items_global: Vec::new(),
                    user: None,
                };
                assert(entry_groups(entry, before, key_set@, key_index)) by {
                    assert(entry.items_global@ =~= items_of(before, key_index, false));
                }
                entries.push(entry);
                proof {
                    assert forall|j: int| 0 <= j < known.len() implies entries@[j]
                        == known[j] by {}
                }
                entries.len() - 1
            },
        };
        assert(order@ == key_order(after));
        assert(order@[place as int] == key_index);
        assert(entry_groups(entries@[place as int], before, key_set@, key_index));
        assert(forall|j: int|
            0 <= j < key_order(before).len() ==> entry_groups(
                #[trigger] entries@[j],
                before,
                key_set@,
                key_order(before)[j],
            ));
        let ghost others = entries@;
        proof {
            lemma_rows_of_push(before, given, key_index, false);
            lemma_rows_of_push(before, given, key_index, true);
        }
        let ghost held = entries@[place as int];
        match row.user_id {
            None => {
                entries[place].items_global.push(row.item);
                proof {
                    let entry = entries@[place as int];
                    assert(entry.key == held.key);
                    assert(entry.user == held.user);
                    assert(entry.items_global@ == held.items_global@.push(given.item));
                    assert(row_is_of(given, key_index, false));
                    assert(!row_is_of(given, key_index, true));
                }
            },
            Some(user_id) => {
                proof {
                    assert(row_is_of(given, key_index, true));
                    assert(!row_is_of(given, key_index, false));
                }
                if entries[place].user.is_none() {
                    entries[place].user = Some(
                        ConfigurationEntryUserResponse { user_id, items: Vec::new() },
                    );
                    proof {
                        let entry = entries@[place as int];
                        assert(entry.key == held.key);
                        assert(entry.items_global == held.items_global);
                        assert(entry.user matches Some(user) && user.user_id == user_id
                            && user.items@.len() == 0);
                        assert(rows_of(after, key_index, true)[0] == given);
                    }
                }
                let ghost ready = entries@[place as int];
                match &mut entries[place].user {
                    Some(user) => {
                        user.items.push(row.item);
                    },
                    None => {},
                }
                proof {
                    let entry = entries@[place as int];
                    assert(entry.key == ready.key);
                    assert(entry.items_global == ready.items_global);
                    assert(entry.user matches Some(user) && ready.user matches Some(was)
                        && user.user_id == was.user_id && user.items@ == was.items@.push(
                        given.item,
                    ));
                    assert(user_items_hold(entry, after, key_index)) by {
                        let user = entry.user->0;
                        assert(user.items@ =~= items_of(after, key_index, true));
                    }
                }
            },
        }
        proof {
            assert(entry_groups(entries@[place as int], after, key_set@, key_index));
            assert forall|j: int| 0 <= j < entries@.len() implies entry_groups(
                #[trigger] entries@[j],
                after,
                key_set@,
                key_order(after)[j],
            ) by {
                if j != place {
                    assert(entries@[j] == others[j]);
                    assert(order@[j] != key_index);
                    if j < key_order(before).len() {
                        lemma_entry_groups_other_key(
                            others[j],
                            before,
                            given,
                            key_set@,
                            key_order(before)[j],
                        );
                    }
                }
            }
        }
    }
    proof {
        assert(rows@.take(rows@.len() as int) == rows@);
    }
    entries
}

/// Gives out the configuration entries that were read from the database:
/// the rows are resolved in order, and grouped by key. The first row that
/// has no key, or whose text is no value of the type of its key, gives the
/// error.
pub fn get_all_configuration_entries<Float, P: Fn(&str) -> Option<Float>>(
    rows: Vec<ConfigurationEntryRow>,
    key_set: &Vec<ConfigurationKeyResponse>,
    parse_float: &P,
) -> (entries: Result<Vec<ConfigurationEntryResponse<Float>>, Error>)
    requires
        float_parser_is_total(parse_float),
    ensures
        match entries {
            Ok(grouped) => exists|resolved: Seq<ResolvedEntryRow<Float>>|
                #[trigger] rows_resolve(rows@, key_set@, parse_float, Ok(resolved))
                    && entries_group(grouped@, resolved, key_set@),
            Err(error) => rows_resolve(
                rows@,
                key_set@,
                parse_float,
                Err::<Seq<ResolvedEntryRow<Float>>, Error>(error),
            ),
        },
{
    match resolve_configuration_entries(rows, key_set, parse_float) {
        Ok(resolved) => {
            let ghost all = resolved@;
            let grouped = group_configuration_entries(resolved, key_set);
            assert(rows_resolve(rows@, key_set@, parse_float, Ok(all)));
            Ok(grouped)
        },
        Err(error) => Err(error),
    }
}

} // verus!
