//! The connection settings that the environment gives.

use crate::number::{parse_u32, u32_of_text};
use vstd::prelude::*;

verus! {

/// The variable that holds the host name or address of the server.
pub const POSTGRES_HOST: &'static str = "POSTGRES_HOST";

/// The variable that holds the port of the server.
pub const POSTGRES_PORT: &'static str = "POSTGRES_PORT";

/// The variable that holds the user to log in as.
pub const POSTGRES_USER: &'static str = "POSTGRES_USER";

/// The variable that holds the password to log in with.
pub const POSTGRES_PASSWORD: &'static str = "POSTGRES_PASSWORD";

/// Why the environment does not give the connection settings. `ReadError`
/// is the error of whatever reads the environment.
#[derive(Debug, PartialEq, Eq)]
pub enum Error<ReadError> {
    /// The variable of this name is set to the empty string.
    KeyEmpty { key: &'static str },
    /// A variable could not be read.
    DotEnvError(ReadError),
    /// The port is not a decimal number that a `u32` can hold.
    ParseError,
}

/// The settings of the connection to PostgreSQL.
#[derive(Debug, PartialEq, Eq)]
pub struct Configuration {
    /// From `POSTGRES_HOST`: the host name or address of the server.
    pub postgres_host: String,
    /// From `POSTGRES_PORT`: the port of the server.
    pub postgres_port: u32,
    /// From `POSTGRES_USER`: the user to log in as.
    pub postgres_user: String,
    /// From `POSTGRES_PASSWORD`: the password to log in with.
    pub postgres_password: String,
}

/// What the reading of a variable gives: its value, unless it could not be
/// read or is empty.
pub open spec fn checked_var<ReadError>(
    key: &'static str,
    read: Result<String, ReadError>,
) -> Result<String, Error<ReadError>> {
    match read {
        Err(error) => Err(Error::DotEnvError(error)),
        Ok(value) => if value@.len() == 0 {
            Err(Error::KeyEmpty { key })
        } else {
            Ok(value)
        },
    }
}

/// What a text gives as the port of the server: the number it denotes, an
/// optional `+` and decimal digits within the range of a `u32`.
pub open spec fn checked_port<ReadError>(text: Seq<char>) -> Result<u32, Error<ReadError>> {
    match u32_of_text(text) {
        Some(number) => Ok(number),
        None => Err(Error::ParseError),
    }
}

/// The settings that the four variables give, or the first error in this
/// order: the host is read and is not empty; the port is read, is not
/// empty, and is a number; the user is read and is not empty; the password
/// is read and is not empty.
pub open spec fn configuration_of<ReadError>(
    host: Result<String, ReadError>,
    port: Result<String, ReadError>,
    user: Result<String, ReadError>,
    password: Result<String, ReadError>,
) -> Result<Configuration, Error<ReadError>> {
    match checked_var(POSTGRES_HOST, host) {
        Err(error) => Err(error),
        Ok(postgres_host) => match checked_var(POSTGRES_PORT, port) {
            Err(error) => Err(error),
            Ok(port_text) => match checked_port::<ReadError>(port_text@) {
                Err(error) => Err(error),
                Ok(postgres_port) => match checked_var(POSTGRES_USER, user) {
                    Err(error) => Err(error),
                    Ok(postgres_user) => match checked_var(POSTGRES_PASSWORD, password) {
                        Err(error) => Err(error),
                        Ok(postgres_password) => Ok(
                            Configuration {
                                postgres_host,
                                postgres_port,
                                postgres_user,
                                postgres_password,
                            },
                        ),
                    },
                },
            },
        }
    }
}

/// Accepts what was read of an environment variable, unless it could not
/// be read or is empty.
pub fn get_var_safe<ReadError>(key: &'static str, read: Result<String, ReadError>) -> (checked:
    Result<String, Error<ReadError>>)
    ensures
        checked == checked_var(key, read),
{
    match read {
        Err(error) => Err(Error::DotEnvError(error)),
        Ok(value) => {
            if value.as_str().is_empty() {
                Err(Error::KeyEmpty { key })
            } else {
                Ok(value)
            }
        },
    }
}

/// Reads the port of the server: an optional `+` and decimal digits, within
/// the range of a `u32`.
pub fn parse_port<ReadError>(text: &str) -> (port: Result<u32, Error<ReadError>>)
    ensures
        port == checked_port::<ReadError>(text@),
{
    match parse_u32(text) {
        Some(number) => Ok(number),
        None => Err(Error::ParseError),
    }
}

impl Configuration {
    /// Makes the settings from what was read of the four variables
    /// `POSTGRES_HOST`, `POSTGRES_PORT`, `POSTGRES_USER` and
    /// `POSTGRES_PASSWORD`. The first variable, in this order, that could
    /// not be read, is empty, or, for the port, is not a number, gives the
    /// error.
    pub fn new<ReadError>(
        host: Result<String, ReadError>,
        port: Result<String, ReadError>,
        user: Result<String, ReadError>,
        password: Result<String, ReadError>,
    ) -> (configuration: Result<Configuration, Error<ReadError>>)
        ensures
            configuration == configuration_of(host, port, user, password),
    {
        let postgres_host = match get_var_safe(POSTGRES_HOST, host) {
            Ok(value) => value,
            Err(error) => {
                return Err(error);
            },
        };
        let port_text = match get_var_safe(POSTGRES_PORT, port) {
            Ok(value) => value,
            Err(error) => {
                return Err(error);
            },
        };
        let postgres_port = match parse_port(port_text.as_str()) {
            Ok(value) => value,
            Err(error) => {
                return Err(error);
            },
        };
        let postgres_user = match get_var_safe(POSTGRES_USER, user) {
            Ok(value) => value,
            Err(error) => {
                return Err(error);
            },
        };
        let postgres_password = match get_var_safe(POSTGRES_PASSWORD, password) {
            Ok(value) => value,
            Err(error) => {
                return Err(error);
            },
        };
        Ok(Configuration { postgres_host, postgres_port, postgres_user, postgres_password })
    }
}

} // verus!
