//! The authenticated session of a request: its session cookie and the user it belongs to.
use vstd::prelude::*;
use vstd::string::*;
use crate::cookies::{extract_session_cookie, extracted_cookie, session_name};
use crate::error::AppError;
use crate::types::User;

verus! {

/// The user that a request's session cookie belongs to.
pub struct AuthSession {
    pub user: User,
}

/// The bytes of an optional header value, as a sequence.
pub open spec fn header_view(h: Option<&[u8]>) -> Option<Seq<u8>> {
    match h {
        Some(b) => Some(b@),
        None => None,
    }
}

/// The session token of a request, from its `Cookie` header: a request without a session
/// cookie is not authenticated.
pub fn session_token(cookie_header: Option<&[u8]>) -> (r: Result<String, AppError>)
    ensures
        match extracted_cookie(header_view(cookie_header), session_name()) {
            None => r matches Err(AppError::Unauthorized(m)) && m@ == "Not authenticated"@,
            Some(t) => r matches Ok(s) && s@ == t,
        },
{
    match extract_session_cookie(cookie_header) {
        None => Err(AppError::Unauthorized(String::from_str("Not authenticated"))),
        Some(t) => Ok(t),
    }
}

/// The session of the user that the session token belongs to (`None` when the token is
/// unknown or expired, which is not authenticated either).
pub fn session_for(user: Option<User>) -> (r: Result<AuthSession, AppError>)
    ensures
        match user {
            None => r matches Err(AppError::Unauthorized(m)) && m@ == "Invalid or expired session"@,
            Some(u) => r matches Ok(s) && s.user == u,
        },
{
    match user {
        None => Err(AppError::Unauthorized(String::from_str("Invalid or expired session"))),
        Some(user) => Ok(AuthSession { user }),
    }
}

} // verus!
