//! The database instances and the address of each.

use crate::environment::Configuration;
use crate::number::{decimal_text, decimal_digits};
use vstd::prelude::*;

verus! {

/// The databases that the application connects to.
#[derive(Clone, Copy, Debug, PartialEq, Eq, Structural)]
pub enum DatabaseInstance {
    /// The database for local development. No automated test runs against
    /// it.
    Development,
    /// The database for automated tests. It is emptied and seeded again
    /// before a test, as the test needs.
    Unit,
}

/// The name of the development database within PostgreSQL.
pub const DATABASE_NAME_DEVELOPMENT: &'static str = "portobello_dev";

/// The name of the unit test database within PostgreSQL.
pub const DATABASE_NAME_UNIT: &'static str = "portobello_unit";

impl DatabaseInstance {
    /// The name of the database, as a sequence of characters.
    pub open spec fn name(self) -> Seq<char> {
        match self {
            DatabaseInstance::Development => DATABASE_NAME_DEVELOPMENT@,
            DatabaseInstance::Unit => DATABASE_NAME_UNIT@,
        }
    }

    /// The name of the database instance as it is known within PostgreSQL.
    pub fn as_name(self) -> (name: &'static str)
        ensures
            name@ == self.name(),
    {
        match self {
            DatabaseInstance::Development => DATABASE_NAME_DEVELOPMENT,
            DatabaseInstance::Unit => DATABASE_NAME_UNIT,
        }
    }
}

/// The address of a database: `postgres://`, the user, a colon, the
/// password, `@`, the host, a colon, the port in decimal, a slash, and the
/// name of the database.
pub open spec fn connection_url(
    user: Seq<char>,
    password: Seq<char>,
    host: Seq<char>,
    port: u32,
    database: Seq<char>,
) -> Seq<char> {
    "postgres://"@ + user + ":"@ + password + "@"@ + host + ":"@ + decimal_digits(port as nat)
        + "/"@ + database
}

/// The address at which to connect to a database instance with the given
/// settings. No part is escaped.
pub fn database_url(configuration: &Configuration, database_instance: DatabaseInstance) -> (url:
    String)
    ensures
        url@ == connection_url(
            configuration.postgres_user@,
            configuration.postgres_password@,
            configuration.postgres_host@,
            configuration.postgres_port,
            database_instance.name(),
        ),
{
    let port = decimal_text(configuration.postgres_port);
    let mut url = String::new();
    url.append("postgres://");
    url.append(configuration.postgres_user.as_str());
    url.append(":");
    url.append(configuration.postgres_password.as_str());
    url.append("@");
    url.append(configuration.postgres_host.as_str());
    url.append(":");
    url.append(port.as_str());
    url.append("/");
    url.append(database_instance.as_name());
    url
}

} // verus!
