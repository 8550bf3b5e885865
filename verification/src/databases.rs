//! Data for endpoints under `api/client/servers/{server}/databases`.

use crate::structs::IpAndPort;
use vstd::prelude::*;

verus! {

/// Additional information about a database.
#[derive(Debug, Clone)]
pub struct DatabaseRelationships {
    /// The database password required to login to the database. May not be
    /// present if the request doesn't return the password.
    pub password: Option<String>,
}

/// A database on a server.
#[derive(Debug, Clone)]
pub struct ServerDatabase {
    /// The ID of the database
    pub id: String,
    /// The IP of the database
    pub host: IpAndPort,
    /// The name of the database
    pub name: String,
    /// The username required to login to the database
    pub username: String,
    /// Where the database accepts connections from
    pub connections_from: String,
    /// The maximum number of connections to the database at a time
    pub max_connections: u64,
    /// Additional information about the database
    pub relationships: DatabaseRelationships,
}

} // verus!
