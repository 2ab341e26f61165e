//! Configuration types, keys, entries and values: the records as the
//! database holds them and as the API gives them out, and the rules that
//! their fields obey.

use crate::number::{i32_of_text, parse_i32};
use crate::text::same_text;
use crate::validation::InvalidField;
use vstd::prelude::*;

verus! {

/// The name of the configuration type whose values are `true` and `false`.
pub const CONFIGURATION_TYPE_BOOLEAN: &'static str = "boolean";

/// The name of the configuration type whose values are signed integers.
pub const CONFIGURATION_TYPE_INTEGER: &'static str = "integer";

/// The name of the configuration type whose values are floating-point
/// numbers.
pub const CONFIGURATION_TYPE_FLOAT: &'static str = "float";

/// The name of the configuration type whose values are strings.
pub const CONFIGURATION_TYPE_STRING: &'static str = "string";

/// A character that the name of a configuration type may hold: an ASCII
/// letter, an ASCII digit, or an underscore.
pub open spec fn is_type_name_character(c: char) -> bool {
    ||| 'a' <= c <= 'z'
    ||| 'A' <= c <= 'Z'
    ||| '0' <= c <= '9'
    ||| c == '_'
}

/// A character that the name of a configuration key may hold: what the name
/// of a configuration type may hold, or a dot.
pub open spec fn is_key_name_character(c: char) -> bool {
    is_type_name_character(c) || c == '.'
}

/// The name of a configuration type: one or more of its characters.
pub open spec fn is_type_name(name: Seq<char>) -> bool {
    &&& name.len() >= 1
    &&& forall|i: int| 0 <= i < name.len() ==> is_type_name_character(#[trigger] name[i])
}

/// The name of a configuration key: one or more of its characters.
pub open spec fn is_key_name(name: Seq<char>) -> bool {
    &&& name.len() >= 1
    &&& forall|i: int| 0 <= i < name.len() ==> is_key_name_character(#[trigger] name[i])
}

/// Whether the text is the name of a configuration type.
pub fn check_type_name(name: &str) -> (valid: bool)
    ensures
        valid == is_type_name(name@),
{
    let mut valid = true;
    let mut any = false;
    for c in it: name.chars()
        invariant
            it.seq() == name@,
            any == (it.index() > 0),
            valid == forall|i: int|
                0 <= i < it.index() ==> is_type_name_character(#[trigger] name@[i]),
    {
        any = true;
        let accepted = (c >= 'a' && c <= 'z') || (c >= 'A' && c <= 'Z') || (c >= '0' && c <= '9')
            || c == '_';
        if !accepted {
            valid = false;
        }
    }
    valid && any
}

/// Whether the text is the name of a configuration key.
pub fn check_key_name(name: &str) -> (valid: bool)
    ensures
        valid == is_key_name(name@),
{
    let mut valid = true;
    let mut any = false;
    for c in it: name.chars()
        invariant
            it.seq() == name@,
            any == (it.index() > 0),
            valid == forall|i: int|
                0 <= i < it.index() ==> is_key_name_character(#[trigger] name@[i]),
    {
        any = true;
        let accepted = (c >= 'a' && c <= 'z') || (c >= 'A' && c <= 'Z') || (c >= '0' && c <= '9')
            || c == '_' || c == '.';
        if !accepted {
            valid = false;
        }
    }
    valid && any
}

/// What the fields of a named and described record must obey, and the first
/// field, in the order identifier, name, description, that does not.
pub open spec fn described_record_check(
    id: i32,
    name_is_valid: bool,
    description: Seq<char>,
) -> Result<(), InvalidField> {
    if id < 1 {
        Err(InvalidField::Id)
    } else if !name_is_valid {
        Err(InvalidField::Name)
    } else if description.len() < 1 {
        Err(InvalidField::Description)
    } else {
        Ok(())
    }
}

/// The kind of the values of a configuration key, as the database holds it.
#[derive(Debug, PartialEq, Eq)]
pub struct ConfigurationType {
    pub id: i32,
    pub name: String,
    pub description: String,
}

impl ConfigurationType {
    /// The rules of this type: an identifier of at least one, a name made of
    /// ASCII letters, digits and underscores, and a description; neither
    /// text is empty.
    pub open spec fn check(&self) -> Result<(), InvalidField> {
        described_record_check(self.id, is_type_name(self.name@), self.description@)
    }

    /// Checks the fields against the rules of this type, in the order in
    /// which they are declared.
    pub fn validate(&self) -> (checked: Result<(), InvalidField>)
        ensures
            checked == self.check(),
    {
        if self.id < 1 {
            Err(InvalidField::Id)
        } else if !check_type_name(self.name.as_str()) {
            Err(InvalidField::Name)
        } else if self.description.as_str().is_empty() {
            Err(InvalidField::Description)
        } else {
            Ok(())
        }
    }
}

/// What the fields of a configuration key must obey, and the first field,
/// in the order identifier, name, description, type identifier, that does
/// not.
pub open spec fn key_record_check(
    id: i32,
    name: Seq<char>,
    description: Seq<char>,
    type_id: i32,
) -> Result<(), InvalidField> {
    match described_record_check(id, is_key_name(name), description) {
        Err(field) => Err(field),
        Ok(()) => if type_id < 1 {
            Err(InvalidField::TypeId)
        } else {
            Ok(())
        },
    }
}

/// A configuration key, as the database holds it, with its type where it
/// was looked up.
#[derive(Debug, PartialEq, Eq)]
pub struct ConfigurationKey<'configuration_type> {
    pub id: i32,
    pub name: String,
    pub description: String,
    pub type_id: i32,
    pub type_value: Option<&'configuration_type ConfigurationType>,
    pub optional: bool,
    pub allows_multiple: bool,
    pub allows_user_override: bool,
}

impl<'configuration_type> ConfigurationKey<'configuration_type> {
    /// The rules of this type: identifiers of at least one, a name made of
    /// ASCII letters, digits, underscores and dots, and a description;
    /// neither text is empty.
    pub open spec fn check(&self) -> Result<(), InvalidField> {
        key_record_check(self.id, self.name@, self.description@, self.type_id)
    }

    /// Checks the fields against the rules of this type, in the order in
    /// which they are declared.
    pub fn validate(&self) -> (checked: Result<(), InvalidField>)
        ensures
            checked == self.check(),
    {
        if self.id < 1 {
            Err(InvalidField::Id)
        } else if !check_key_name(self.name.as_str()) {
            Err(InvalidField::Name)
        } else if self.description.as_str().is_empty() {
            Err(InvalidField::Description)
        } else if self.type_id < 1 {
            Err(InvalidField::TypeId)
        } else {
            Ok(())
        }
    }
}

/// A configuration type, as the API gives it out.
#[derive(Debug, PartialEq, Eq)]
pub struct ConfigurationTypeResponse {
    pub id: i32,
    pub name: String,
    pub description: String,
}

impl Clone for ConfigurationTypeResponse {
    fn clone(&self) -> (copy: Self)
        ensures
            copy == *self,
    {
        ConfigurationTypeResponse {
            id: self.id,
            name: self.name.clone(),
            description: self.description.clone(),
        }
    }
}

impl ConfigurationTypeResponse {
    /// The rules of this type: those of a configuration type.
    pub open spec fn check(&self) -> Result<(), InvalidField> {
        described_record_check(self.id, is_type_name(self.name@), self.description@)
    }

    /// Checks the fields against the rules of this type, in the order in
    /// which they are declared.
    pub fn validate(&self) -> (checked: Result<(), InvalidField>)
        ensures
            checked == self.check(),
    {
        if self.id < 1 {
            Err(InvalidField::Id)
        } else if !check_type_name(self.name.as_str()) {
            Err(InvalidField::Name)
        } else if self.description.as_str().is_empty() {
            Err(InvalidField::Description)
        } else {
            Ok(())
        }
    }
}

/// A configuration key, as the API gives it out, with its type.
#[derive(Debug, PartialEq, Eq)]
pub struct ConfigurationKeyResponse {
    pub id: i32,
    pub name: String,
    pub description: String,
    pub configuration_type: ConfigurationTypeResponse,
    pub optional: bool,
    pub allows_multiple: bool,
    pub allows_user_override: bool,
}

impl Clone for ConfigurationKeyResponse {
    fn clone(&self) -> (copy: Self)
        ensures
            copy == *self,
    {
        ConfigurationKeyResponse {
            id: self.id,
            name: self.name.clone(),
            description: self.description.clone(),
            configuration_type: self.configuration_type.clone(),
            optional: self.optional,
            allows_multiple: self.allows_multiple,
            allows_user_override: self.allows_user_override,
        }
    }
}

impl ConfigurationKeyResponse {
    /// The rules of this type: an identifier of at least one, a name made of
    /// ASCII letters, digits, underscores and dots, and a description;
    /// neither text is empty. The type it holds is not checked with it.
    pub open spec fn check(&self) -> Result<(), InvalidField> {
        described_record_check(self.id, is_key_name(self.name@), self.description@)
    }

    /// Checks the fields against the rules of this type, in the order in
    /// which they are declared.
    pub fn validate(&self) -> (checked: Result<(), InvalidField>)
        ensures
            checked == self.check(),
    {
        if self.id < 1 {
            Err(InvalidField::Id)
        } else if !check_key_name(self.name.as_str()) {
            Err(InvalidField::Name)
        } else if self.description.as_str().is_empty() {
            Err(InvalidField::Description)
        } else {
            Ok(())
        }
    }
}

/// An error, as the API gives it out.
#[derive(Debug, PartialEq, Eq)]
pub struct ErrorWithMessageResponse {
    pub message: String,
}

impl ErrorWithMessageResponse {
    /// The rule of this type: the message is not empty.
    pub open spec fn check(&self) -> Result<(), InvalidField> {
        if self.message@.len() < 1 {
            Err(InvalidField::Message)
        } else {
            Ok(())
        }
    }

    /// Checks the message against the rule of this type.
    pub fn validate(&self) -> (checked: Result<(), InvalidField>)
        ensures
            checked == self.check(),
    {
        if self.message.as_str().is_empty() {
            Err(InvalidField::Message)
        } else {
            Ok(())
        }
    }
}

/// A configuration value, as the API gives it out: the field of its type
/// holds it, and the other fields hold nothing. This crate does no
/// floating-point arithmetic: the representation of a float is the
/// caller's.
#[derive(Debug, PartialEq)]
pub struct ConfigurationValueResponse<Float> {
    pub as_boolean: Option<bool>,
    pub as_integer: Option<i64>,
    pub as_float: Option<Float>,
    pub as_string: Option<String>,
}

impl<Float> ConfigurationValueResponse<Float> {
    /// The value that holds nothing.
    pub fn empty() -> (value: Self)
        ensures
            value == (ConfigurationValueResponse::<Float> {
                as_boolean: None,
                as_integer: None,
                as_float: None,
                as_string: None,
            }),
    {
        ConfigurationValueResponse {
            as_boolean: None,
            as_integer: None,
            as_float: None,
            as_string: None,
        }
    }
}

/// One value of a configuration entry, as the API gives it out.
#[derive(Debug, PartialEq)]
pub struct ConfigurationEntryItemResponse<Float> {
    pub id: i32,
    pub value: ConfigurationValueResponse<Float>,
}

impl<Float> ConfigurationEntryItemResponse<Float> {
    /// The rule of this type: an identifier of at least one.
    pub open spec fn check(&self) -> Result<(), InvalidField> {
        if self.id < 1 {
            Err(InvalidField::Id)
        } else {
            Ok(())
        }
    }

    /// Checks the identifier against the rule of this type.
    pub fn validate(&self) -> (checked: Result<(), InvalidField>)
        ensures
            checked == self.check(),
    {
        if self.id < 1 {
            Err(InvalidField::Id)
        } else {
            Ok(())
        }
    }
}

/// The values that override a configuration entry for one user, as the API
/// gives them out.
#[derive(Debug, PartialEq)]
pub struct ConfigurationEntryUserResponse<Float> {
    pub user_id: String,
    pub items: Vec<ConfigurationEntryItemResponse<Float>>,
}

impl<Float> ConfigurationEntryUserResponse<Float> {
    /// The rules of this type: the identifier of the user is not empty, and
    /// there is at least one value. The values are not checked with it.
    pub open spec fn check(&self) -> Result<(), InvalidField> {
        if self.user_id@.len() < 1 {
            Err(InvalidField::UserId)
        } else if self.items@.len() < 1 {
            Err(InvalidField::Items)
        } else {
            Ok(())
        }
    }

    /// Checks the fields against the rules of this type, in the order in
    /// which they are declared.
    pub fn validate(&self) -> (checked: Result<(), InvalidField>)
        ensures
            checked == self.check(),
    {
        if self.user_id.as_str().is_empty() {
            Err(InvalidField::UserId)
        } else if self.items.len() < 1 {
            Err(InvalidField::Items)
        } else {
            Ok(())
        }
    }
}

/// A configuration entry, as the API gives it out: its key, its values for
/// everyone, and the values that override them for one user.
#[derive(Debug, PartialEq)]
pub struct ConfigurationEntryResponse<Float> {
    pub key: ConfigurationKeyResponse,
    pub items_global: Vec<ConfigurationEntryItemResponse<Float>>,
    pub user: Option<ConfigurationEntryUserResponse<Float>>,
}

impl<Float> ConfigurationEntryResponse<Float> {
    /// The rule of this type: there is at least one value for everyone. The
    /// key and the values are not checked with it.
    pub open spec fn check(&self) -> Result<(), InvalidField> {
        if self.items_global@.len() < 1 {
            Err(InvalidField::ItemsGlobal)
        } else {
            Ok(())
        }
    }

    /// Checks the values for everyone against the rule of this type.
    pub fn validate(&self) -> (checked: Result<(), InvalidField>)
        ensures
            checked == self.check(),
    {
        if self.items_global.len() < 1 {
            Err(InvalidField::ItemsGlobal)
        } else {
            Ok(())
        }
    }
}

/// A configuration value of one of the four configuration types. This crate
/// does no floating-point arithmetic: the representation of a float is the
/// caller's.
#[derive(Debug, PartialEq)]
pub enum ConfigurationValue<Float> {
    Boolean(bool),
    Integer(i32),
    Float(Float),
    String(String),
}

/// Why the stored text of a configuration entry is not a value of its key's
/// type. Each variant holds the identifier of the key.
#[derive(Debug, PartialEq, Eq)]
pub enum Error {
    /// The text is neither `true` nor `false`.
    ConfigurationValueParseErrorBoolean(i32),
    /// The text is not a decimal integer that an `i32` can hold.
    ConfigurationValueParseErrorInteger(i32),
    /// The float parser did not accept the text.
    ConfigurationValueParseErrorFloat(i32),
    /// The configuration type, whose name is given, is none of the four.
    UnsupportedConfigurationType(i32, String),
}

/// Reads the stored text of a configuration entry as a value of the given
/// configuration type.
///
/// - `boolean`: the text is `true` or `false`, exactly.
/// - `integer`: the text is an optional sign and decimal digits, within the
///   range of an `i32`.
/// - `float`: the text is handed to `parse_float`, and is a float where
///   that gives a value.
/// - `string`: every text is a value, itself.
///
/// Any other configuration type is not supported.
pub fn parse_configuration_value<Float, P: Fn(&str) -> Option<Float>>(
    configuration_type: &ConfigurationType,
    key_id: i32,
    text: &str,
    parse_float: &P,
) -> (parsed: Result<ConfigurationValue<Float>, Error>)
    requires
        configuration_type.name@ == CONFIGURATION_TYPE_FLOAT@ ==> call_requires(
            parse_float,
            (text,),
        ),
    ensures
        configuration_type.name@ == CONFIGURATION_TYPE_BOOLEAN@ ==> parsed == (if text@
            == "true"@ {
            Ok::<ConfigurationValue<Float>, Error>(ConfigurationValue::Boolean(true))
        } else if text@ == "false"@ {
            Ok(ConfigurationValue::Boolean(false))
        } else {
            Err(Error::ConfigurationValueParseErrorBoolean(key_id))
        }),
        configuration_type.name@ == CONFIGURATION_TYPE_INTEGER@ ==> parsed == (match i32_of_text(
            text@,
        ) {
            Some(value) => Ok::<ConfigurationValue<Float>, Error>(
                ConfigurationValue::Integer(value),
            ),
            None => Err(Error::ConfigurationValueParseErrorInteger(key_id)),
        }),
        configuration_type.name@ == CONFIGURATION_TYPE_FLOAT@ ==> exists|read: Option<Float>|
            #[trigger] call_ensures(parse_float, (text,), read) && parsed == (match read {
                Some(value) => Ok::<ConfigurationValue<Float>, Error>(
                    ConfigurationValue::Float(value),
                ),
                None => Err(Error::ConfigurationValueParseErrorFloat(key_id)),
            }),
        configuration_type.name@ == CONFIGURATION_TYPE_STRING@ ==> (parsed matches Ok(
            ConfigurationValue::String(value),
        ) && value@ == text@),
        !is_supported_type_name(configuration_type.name@) ==> (parsed matches Err(
            Error::UnsupportedConfigurationType(key, name),
        ) && key == key_id && name@ == configuration_type.name@),
{
    proof {
        lemma_type_names_differ();
    }
    let name = configuration_type.name.as_str();
    if same_text(name, CONFIGURATION_TYPE_BOOLEAN) {
        if same_text(text, "true") {
            Ok(ConfigurationValue::Boolean(true))
        } else if same_text(text, "false") {
            Ok(ConfigurationValue::Boolean(false))
        } else {
            Err(Error::ConfigurationValueParseErrorBoolean(key_id))
        }
    } else if same_text(name, CONFIGURATION_TYPE_INTEGER) {
        match parse_i32(text) {
            Some(value) => Ok(ConfigurationValue::Integer(value)),
            None => Err(Error::ConfigurationValueParseErrorInteger(key_id)),
        }
    } else if same_text(name, CONFIGURATION_TYPE_FLOAT) {
        match parse_float(text) {
            Some(value) => Ok(ConfigurationValue::Float(value)),
            None => Err(Error::ConfigurationValueParseErrorFloat(key_id)),
        }
    } else if same_text(name, CONFIGURATION_TYPE_STRING) {
        Ok(ConfigurationValue::String(text.to_owned()))
    } else {
        Err(Error::UnsupportedConfigurationType(key_id, name.to_owned()))
    }
}

/// Whether the name is that of one of the four configuration types.
pub open spec fn is_supported_type_name(name: Seq<char>) -> bool {
    ||| name == CONFIGURATION_TYPE_BOOLEAN@
    ||| name == CONFIGURATION_TYPE_INTEGER@
    ||| name == CONFIGURATION_TYPE_FLOAT@
    ||| name == CONFIGURATION_TYPE_STRING@
}

/// The names of the four configuration types are four different names.
pub proof fn lemma_type_names_differ()
    ensures
        CONFIGURATION_TYPE_BOOLEAN@ != CONFIGURATION_TYPE_INTEGER@,
        CONFIGURATION_TYPE_BOOLEAN@ != CONFIGURATION_TYPE_FLOAT@,
        CONFIGURATION_TYPE_BOOLEAN@ != CONFIGURATION_TYPE_STRING@,
        CONFIGURATION_TYPE_INTEGER@ != CONFIGURATION_TYPE_FLOAT@,
        CONFIGURATION_TYPE_INTEGER@ != CONFIGURATION_TYPE_STRING@,
        CONFIGURATION_TYPE_FLOAT@ != CONFIGURATION_TYPE_STRING@,
{
    reveal_strlit("boolean");
    reveal_strlit("integer");
    reveal_strlit("float");
    reveal_strlit("string");
    assert(CONFIGURATION_TYPE_BOOLEAN@[0] == 'b');
    assert(CONFIGURATION_TYPE_INTEGER@[0] == 'i');
    assert(CONFIGURATION_TYPE_FLOAT@[0] == 'f');
    assert(CONFIGURATION_TYPE_STRING@[0] == 's');
}

} // verus!
