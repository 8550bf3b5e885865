//! Data and decisions for endpoints under `api/client/servers/{server}/network`.

use crate::http::ErrorResponse;
use crate::Error;
use vstd::prelude::*;

verus! {

/// A network allocation on the server.
#[derive(Debug, Clone)]
pub struct Allocation {
    /// The ID of this allocation
    pub id: u64,
    /// The IP of this allocation
    pub ip: String,
    /// The IP alias of this allocation
    pub ip_alias: Option<String>,
    /// The port of this allocation
    pub port: u16,
    /// Notes attached to this allocation
    pub notes: Option<String>,
    /// Whether this allocation is the default allocation on this server
    pub is_default: bool,
}

/// The error, if any, that a failed allocation-delete response translates to:
/// a 400 response whose body carries a `DisplayException` code means the
/// allocation is the primary one and cannot be deleted.
pub fn delete_allocation_error(status: u16, body: &ErrorResponse) -> (r: Option<Error>)
    ensures
        match r {
            Some(e) => status == 400 && e is PrimaryAllocation && body.spec_has_code(
                "DisplayException"@,
            ),
            None => status != 400 || !body.spec_has_code("DisplayException"@),
        },
{
    if status != 400 {
        return None;
    }
    if body.is_error("DisplayException") {
        Some(Error::PrimaryAllocation)
    } else {
        None
    }
}

} // verus!
