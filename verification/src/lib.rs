//! Client-side library for the Pterodactyl server-console protocol: the
//! event codec for the `{event, args}` frame envelope, the authentication
//! and dispatch state machine for the websocket session, and the pure parts
//! of the REST client (cron fields, file paths, permission strings, error
//! translation).

use vstd::prelude::*;

pub mod account;
pub mod backups;
pub mod databases;
pub mod events;
pub mod files;
pub mod http;
pub mod json;
pub mod network;
pub mod schedules;
pub mod startup;
pub mod structs;
pub mod websocket;
pub mod text;

verus! {

/// Errors produced by this crate.
///
/// Transport and HTTP failures are carried as plain values: the message text
/// of the underlying failure and the HTTP status code, so that every variant
/// can be inspected by verified code.
#[derive(Debug)]
pub enum Error {
    /// HTTP request errors, carrying the underlying error's message text
    Reqwest(String),
    /// Json errors: a frame or payload that does not parse as expected
    Json(String),
    /// Miscellaneous HTTP status codes
    Http(u16),
    /// Websocket errors, carrying the underlying error's message text
    Websocket(String),
    /// Received an unexpected message from the websocket
    UnexpectedMessage,
    /// The websocket token expired
    WebsocketTokenExpired,
    /// Unable to perform operation due to lack of permissions
    PermissionError,
    /// Rate limit reached
    RateLimit,
    /// 2fa token invalid
    Invalid2faToken,
    /// Incorrect password
    IncorrectPassword,
    /// Invalid email
    InvalidEmail,
    /// The requested resource was not found
    ResourceNotFound,
    /// Unable to delete the primary network allocation
    PrimaryAllocation,
}

} // verus!
