//! Registration and login with a username and password.
use vstd::prelude::*;
use vstd::string::*;
use vstd::utf8::encode_utf8;
use crate::auth::{uuid_string, uuid_text};
use crate::error::AppError;
use crate::text::chars_of;
use crate::types::{opt_view, User};
use argon2::{PasswordHasher, PasswordVerifier};

verus! {

/// The body of a registration request.
pub struct RegisterRequest {
    pub username: String,
    pub password: String,
    pub display_name: String,
    pub email: Option<String>,
}

/// The body of a login request.
pub struct LoginRequest {
    pub username: String,
    pub password: String,
}

/// The body that answers a successful registration or login.
pub struct UserResponse {
    pub id: String,
    pub username: Option<String>,
    pub display_name: String,
    pub spotify_linked: bool,
}

/// What `Argon2::default().verify_password` makes of a password and a stored PHC hash string:
/// `Err` with the message of `PasswordHash::new` when the string does not parse, else
/// whether the password matches.
pub uninterp spec fn argon2_check_of(password: Seq<char>, stored_hash: Seq<char>) -> Result<bool, Seq<char>>;

/// `PasswordHash::new` then `Argon2::default().verify_password` of `argon2`. Claimed: the
/// result is named by [`argon2_check_of`]; the error is the parse error's message.
#[verifier::external_body]
fn argon2_check(password: &str, stored_hash: &str) -> (r: Result<bool, String>)
    ensures
        match argon2_check_of(password@, stored_hash@) {
            Ok(b) => r == Ok::<bool, String>(b),
            Err(m) => r matches Err(e) && e@ == m,
        },
{
    match argon2::password_hash::PasswordHash::new(stored_hash) {
        Err(e) => Err(e.to_string()),
        Ok(parsed) => Ok(argon2::Argon2::default().verify_password(password.as_bytes(), &parsed).is_ok()),
    }
}

/// The most bytes of password that Argon2 accepts (`argon2::MAX_PWD_LEN`).
pub open spec fn max_password_bytes() -> int {
    0xFFFF_FFFF
}

/// `Argon2::default().hash_password` with a salt from `SaltString::generate(&mut OsRng)`,
/// as a PHC string. The salt is random, so the hash is not named. Claimed, as the
/// `password-hash` crate's `PasswordVerifier` documents and the `argon2` source shows: a
/// hash it returns parses, and the same password verifies against it; hashing fails only
/// for a password of more than `MAX_PWD_LEN` bytes, with `Error::Password`, whose message is
/// "invalid password" (the generated salt and the default parameters always pass).
#[verifier::external_body]
fn argon2_hash(password: &str) -> (r: Result<String, String>)
    ensures
        r is Ok <==> encode_utf8(password@).len() <= max_password_bytes(),
        match r {
            Ok(h) => argon2_check_of(password@, h@) == Ok::<bool, Seq<char>>(true),
            Err(e) => e@ == "invalid password"@,
        },
{
    let salt = argon2::password_hash::SaltString::generate(&mut argon2::password_hash::rand_core::OsRng);
    match argon2::Argon2::default().hash_password(password.as_bytes(), &salt) {
        Ok(h) => Ok(h.to_string()),
        Err(e) => Err(e.to_string()),
    }
}

/// The row to insert for a new account.
pub struct NewUser {
    pub username: String,
    pub password_hash: String,
    pub display_name: String,
    pub email: Option<String>,
}

/// `u` is an account that registration made of `req`: its fields come from the request,
/// and its stored hash is one that the request's password verifies against.
pub open spec fn registered_from(req: RegisterRequest, u: NewUser) -> bool {
    &&& u.username == req.username
    &&& u.display_name == req.display_name
    &&& u.email == req.email
    &&& argon2_check_of(req.password@, u.password_hash@) == Ok::<bool, Seq<char>>(true)
}

/// The account that a registration request asks for: a username holding `@` is refused
/// (it looks like an email address); otherwise the password is hashed, which succeeds for
/// any password of at most `argon2::MAX_PWD_LEN` bytes.
pub fn new_user(req: RegisterRequest) -> (r: Result<NewUser, AppError>)
    ensures
        req.username@.contains('@') ==> (r matches Err(AppError::BadRequest(m)) && m@
            == "Username cannot be an email address"@),
        !req.username@.contains('@') ==> (r is Ok <==> encode_utf8(req.password@).len()
            <= max_password_bytes()),
        !req.username@.contains('@') ==> match r {
            Ok(u) => registered_from(req, u),
            Err(e) => e matches AppError::Internal(m) && m@ == "invalid password"@,
        },
{
    let chars = chars_of(req.username.as_str());
    let mut i: usize = 0;
    while i < chars.len()
        invariant
            chars@ == req.username@,
            i <= chars.len(),
            forall|k: int| 0 <= k < i ==> chars@[k] != '@',
        decreases chars.len() - i,
    {
        if chars[i] == '@' {
            return Err(AppError::BadRequest(String::from_str("Username cannot be an email address")));
        }
        i = i + 1;
    }
    let password_hash = match argon2_hash(req.password.as_str()) {
        Ok(h) => h,
        Err(e) => return Err(AppError::Internal(e)),
    };
    Ok(NewUser {
        username: req.username,
        password_hash,
        display_name: req.display_name,
        email: req.email,
    })
}

/// The error that answers a failed insert of a new account: a unique-constraint violation
/// (database code `23505`) means the username or email is taken; anything else is a server
/// error with the database's message.
pub fn create_user_error(code: Option<String>, message: String) -> (r: AppError)
    ensures
        opt_view(code) == Some("23505"@) ==> (r matches AppError::Conflict(m) && m@
            == "Username or email already taken"@),
        opt_view(code) != Some("23505"@) ==> (r matches AppError::Internal(m) && m == message),
{
    let is_unique_violation = match &code {
        Some(c) => *c == String::from_str("23505"),
        None => false,
    };
    if is_unique_violation {
        AppError::Conflict(String::from_str("Username or email already taken"))
    } else {
        AppError::Internal(message)
    }
}

/// Why a login is refused, or the account it signs in to: the account must exist, have a
/// password, and the password must match its stored hash.
pub open spec fn login_outcome_ok(user: Option<User>, password: Seq<char>, r: Result<User, AppError>) -> bool {
    match user {
        None => r matches Err(AppError::Unauthorized(m)) && m@ == "Invalid username or password"@,
        Some(u) => match u.password_hash {
            None => r matches Err(AppError::Unauthorized(m)) && m@
                == "Account uses a different sign-in method"@,
            Some(h) => verdict_ok(u, argon2_check_of(password, h@), r),
        },
    }
}

/// The answer to a login, given the account and what checking the password against its
/// stored hash gave: the account when the password matches.
pub open spec fn verdict_ok(user: User, check: Result<bool, Seq<char>>, r: Result<User, AppError>) -> bool {
    match check {
        Err(msg) => r matches Err(AppError::Internal(m)) && m@ == msg,
        Ok(false) => r matches Err(AppError::Unauthorized(m)) && m@ == "Invalid username or password"@,
        Ok(true) => r == Ok::<User, AppError>(user),
    }
}

/// The answer to a login, from the account and the result of checking the password against
/// its stored hash (`Err` with the message when the hash does not parse).
pub fn login_verdict(user: User, check: Result<bool, String>) -> (r: Result<User, AppError>)
    ensures
        verdict_ok(
            user,
            match check {
                Ok(b) => Ok::<bool, Seq<char>>(b),
                Err(e) => Err::<bool, Seq<char>>(e@),
            },
            r,
        ),
{
    match check {
        Err(e) => Err(AppError::Internal(e)),
        Ok(false) => Err(AppError::Unauthorized(String::from_str("Invalid username or password"))),
        Ok(true) => Ok(user),
    }
}

/// Checks a login against the account found under its username (`None` when there is none).
pub fn check_login(user: Option<User>, password: &str) -> (r: Result<User, AppError>)
    ensures
        login_outcome_ok(user, password@, r),
{
    let user = match user {
        None => return Err(AppError::Unauthorized(String::from_str("Invalid username or password"))),
        Some(u) => u,
    };
    let verified = match &user.password_hash {
        None => return Err(
            AppError::Unauthorized(String::from_str("Account uses a different sign-in method")),
        ),
        Some(h) => argon2_check(password, h.as_str()),
    };
    login_verdict(user, verified)
}

/// The body that describes an account after registration or login.
pub fn user_response(user: User) -> (r: UserResponse)
    ensures
        r.id@ == uuid_text(user.id),
        r.username == user.username,
        r.display_name == user.display_name,
        r.spotify_linked == user.spotify_refresh_token is Some,
{
    UserResponse {
        id: uuid_string(user.id),
        username: user.username,
        display_name: user.display_name,
        spotify_linked: user.spotify_refresh_token.is_some(),
    }
}

/// A password set at registration signs in: when the account stores the hash that
/// registration made of a password, logging in with that password gives the account.
pub proof fn law_registered_password_logs_in(req: RegisterRequest, registered: NewUser, user: User, r: Result<User, AppError>)
    requires
        registered_from(req, registered),
        user.password_hash == Some(registered.password_hash),
        login_outcome_ok(Some(user), req.password@, r),
    ensures
        r == Ok::<User, AppError>(user),
{
}

} // verus!
