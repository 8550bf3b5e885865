//! Data and decisions for endpoints under `api/client/account`.

use crate::http::ErrorResponse;
use crate::Error;
use vstd::prelude::*;

verus! {

/// Contains information about your client account.
#[derive(Debug, Clone)]
pub struct Account {
    /// The account ID
    pub id: u64,
    /// Whether the account has admin
    pub admin: bool,
    /// The account username
    pub username: String,
    /// The account email
    pub email: String,
    /// The account first name
    pub first_name: String,
    /// The account last name
    pub last_name: String,
    /// The account language ("en" by default)
    pub language: String,
}

/// Account 2fa information.
#[derive(Debug, Clone)]
pub struct Account2fa {
    /// The TOTP QR code image to allow the setup of 2FA
    pub image_url_data: String,
    /// The secret
    pub secret: String,
}

/// A list of 2fa recovery tokens.
#[derive(Debug, Clone)]
pub struct RecoveryTokens {
    /// The tokens
    pub tokens: Vec<String>,
}

/// The error, if any, that a failed 2fa-enable response translates to: a 400
/// response whose body carries a `TwoFactorAuthenticationTokenInvalid` code
/// means the token was invalid.
pub fn enable_2fa_error(status: u16, body: &ErrorResponse) -> (r: Option<Error>)
    ensures
        match r {
            Some(e) => status == 400 && e is Invalid2faToken && body.spec_has_code(
                "TwoFactorAuthenticationTokenInvalid"@,
            ),
            None => status != 400 || !body.spec_has_code("TwoFactorAuthenticationTokenInvalid"@),
        },
{
    if status != 400 {
        return None;
    }
    if body.is_error("TwoFactorAuthenticationTokenInvalid") {
        Some(Error::Invalid2faToken)
    } else {
        None
    }
}

/// The error, if any, that a failed 2fa-disable response translates to: any
/// 400 response means the password was incorrect.
pub fn disable_2fa_error(status: u16) -> (r: Option<Error>)
    ensures
        match r {
            Some(e) => status == 400 && e is IncorrectPassword,
            None => status != 400,
        },
{
    if status == 400 {
        Some(Error::IncorrectPassword)
    } else {
        None
    }
}

/// The error, if any, that a failed email-update response translates to: a
/// 400 response with an `email` code means the email was invalid; one with
/// an `InvalidPasswordProvidedException` code means the password was
/// incorrect. The email check comes first.
pub fn update_email_error(status: u16, body: &ErrorResponse) -> (r: Option<Error>)
    ensures
        match r {
            Some(e) => status == 400 && if body.spec_has_code("email"@) {
                e is InvalidEmail
            } else {
                e is IncorrectPassword && body.spec_has_code("InvalidPasswordProvidedException"@)
            },
            None => status != 400 || (!body.spec_has_code("email"@) && !body.spec_has_code(
                "InvalidPasswordProvidedException"@,
            )),
        },
{
    if status != 400 {
        return None;
    }
    if body.is_error("email") {
        Some(Error::InvalidEmail)
    } else if body.is_error("InvalidPasswordProvidedException") {
        Some(Error::IncorrectPassword)
    } else {
        None
    }
}

/// The error, if any, that a failed password-update response translates to:
/// any 400 response means the existing password was incorrect.
pub fn update_password_error(status: u16) -> (r: Option<Error>)
    ensures
        match r {
            Some(e) => status == 400 && e is IncorrectPassword,
            None => status != 400,
        },
{
    if status == 400 {
        Some(Error::IncorrectPassword)
    } else {
        None
    }
}

} // verus!
