//! The rules that the fields of a record obey.

use vstd::prelude::*;

verus! {

/// The field of a record that breaks the rules of its type.
#[derive(Clone, Copy, Debug, PartialEq, Eq, Structural)]
pub enum InvalidField {
    /// The identifier is less than one.
    Id,
    /// The name is empty or holds a character that it may not hold.
    Name,
    /// The description is empty.
    Description,
    /// The identifier of the type is less than one.
    TypeId,
    /// The message is empty.
    Message,
    /// The identifier of the user is empty.
    UserId,
    /// There is no value.
    Items,
    /// There is no value for everyone.
    ItemsGlobal,
    /// The name of the user is empty, holds a character that it may not
    /// hold, or holds no letter and no digit.
    Username,
    /// The icon is not an image in a data address.
    Icon,
}

} // verus!
