//! The computing parts of the HTTP pipeline: base-URL normalization, status
//! translation, rate-limit header capture, and the error-response body shape.

use crate::text::{push_str_chars, spec_parse_u32, str_eq, str_to_chars, string_from_chars,
    parse_u32_str};
use crate::Error;
use vstd::prelude::*;

verus! {

/// The rate limits of the API key.
#[derive(Debug, Copy, Clone)]
pub struct RateLimits {
    /// The request limit per minute
    pub limit: u32,
    /// The number of requests remaining in this minute
    pub limit_remaining: u32,
}

/// The API base a panel URL resolves to: the URL, a `/` if it does not end
/// with one already, then `api/client/`.
pub open spec fn spec_api_base_url(url: Seq<char>) -> Seq<char> {
    let slashed = if url.len() > 0 && url.last() == '/' {
        url
    } else {
        url + seq!['/']
    };
    slashed + "api/client/"@
}

/// Resolves a panel URL to the client API base URL.
pub fn api_base_url(url: &str) -> (r: String)
    ensures
        r@ == spec_api_base_url(url@),
{
    let mut v = str_to_chars(url);
    if v.len() == 0 || v[v.len() - 1] != '/' {
        v.push('/');
    }
    push_str_chars(&mut v, "api/client/");
    string_from_chars(&v)
}

/// The error a non-success HTTP status translates to when the response body
/// gives no more specific one.
pub fn translate_error(status: u16) -> (r: Error)
    ensures
        status == 403 ==> r is PermissionError,
        status == 404 ==> r is ResourceNotFound,
        status == 429 ==> r is RateLimit,
        status != 403 && status != 404 && status != 429 ==> (r matches Error::Http(s) && s
            == status),
{
    if status == 403 {
        Error::PermissionError
    } else if status == 404 {
        Error::ResourceNotFound
    } else if status == 429 {
        Error::RateLimit
    } else {
        Error::Http(status)
    }
}

/// The rate limits captured from the two `x-ratelimit-*` response headers:
/// present exactly when both headers are present and both parse as `u32`.
pub open spec fn spec_rate_limits(
    limit: Option<Seq<char>>,
    limit_remaining: Option<Seq<char>>,
) -> Option<RateLimits> {
    match (limit, limit_remaining) {
        (Some(l), Some(rem)) => match (spec_parse_u32(l), spec_parse_u32(rem)) {
            (Some(l), Some(rem)) => Some(RateLimits { limit: l, limit_remaining: rem }),
            _ => None,
        },
        _ => None,
    }
}

/// Captures the rate limits from the two `x-ratelimit-*` header values.
pub fn rate_limits_from_headers(limit: Option<&str>, limit_remaining: Option<&str>) -> (r: Option<
    RateLimits,
>)
    ensures
        ({
            let lv = match limit {
                Some(l) => Some(l@),
                None => None,
            };
            let rv = match limit_remaining {
                Some(rem) => Some(rem@),
                None => None,
            };
            r == spec_rate_limits(lv, rv)
        }),
{
    let l = match limit {
        Some(l) => l,
        None => {
            return None;
        },
    };
    let rem = match limit_remaining {
        Some(rem) => rem,
        None => {
            return None;
        },
    };
    let lc = str_to_chars(l);
    let rc = str_to_chars(rem);
    match (parse_u32_str(&lc), parse_u32_str(&rc)) {
        (Some(lv), Some(rv)) => Some(RateLimits { limit: lv, limit_remaining: rv }),
        _ => None,
    }
}

/// One error entry of an API error response body.
#[derive(Debug, Clone)]
pub struct ErrorResponseError {
    /// The error code of this entry
    pub code: String,
}

/// The body shape of an API error response.
#[derive(Debug, Clone)]
pub struct ErrorResponse {
    /// The error entries of the response
    pub errors: Vec<ErrorResponseError>,
}

impl ErrorResponse {
    /// Whether some entry carries the given error code.
    pub open spec fn spec_has_code(&self, code: Seq<char>) -> bool {
        exists|i: int| 0 <= i < self.errors@.len() && self.errors@[i].code@ == code
    }

    /// Whether some entry carries the given error code.
    pub fn is_error(&self, error: &str) -> (r: bool)
        ensures
            r == self.spec_has_code(error@),
    {
        let mut i: usize = 0;
        while i < self.errors.len()
            invariant
                i <= self.errors@.len(),
                forall|j: int| 0 <= j < i ==> self.errors@[j].code@ != error@,
            decreases self.errors@.len() - i,
        {
            if str_eq(self.errors[i].code.as_str(), error) {
                return true;
            }
            i = i + 1;
        }
        false
    }
}

} // verus!
