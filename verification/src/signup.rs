use vstd::prelude::*;

use crate::email::Email;
use crate::password::Password;
use crate::user::{credentials_valid, User, UserError, UserView};
use crate::user_store::{add_outcome, add_result, UserStore, UserStoreError};

verus! {

/// Failure kinds the service surfaces across its boundary, for the
/// transport layer to render.
#[derive(Debug, Clone, Copy, PartialEq, Eq)]
pub enum AuthAPIError {
    UserAlreadyExists,
    InvalidCredentials,
    UnexpectedError,
}

impl AuthAPIError {
    /// The fixed message for this failure.
    pub open spec fn message_spec(&self) -> Seq<char> {
        match self {
            AuthAPIError::UserAlreadyExists => "User already exists"@,
            AuthAPIError::InvalidCredentials => "Invalid credentials"@,
            AuthAPIError::UnexpectedError => "Unexpected error"@,
        }
    }

    /// Renders the fixed message for this failure.
    pub fn message(&self) -> (m: String)
        ensures
            m@ == self.message_spec(),
    {
        match self {
            AuthAPIError::UserAlreadyExists => "User already exists".to_owned(),
            AuthAPIError::InvalidCredentials => "Invalid credentials".to_owned(),
            AuthAPIError::UnexpectedError => "Unexpected error".to_owned(),
        }
    }

    /// The HTTP status class this failure is rendered with: a conflict, a
    /// bad request, or an internal error.
    pub fn status_code(&self) -> (s: u16)
        ensures
            self is UserAlreadyExists ==> s == 409,
            self is InvalidCredentials ==> s == 400,
            self is UnexpectedError ==> s == 500,
    {
        match self {
            AuthAPIError::UserAlreadyExists => 409,
            AuthAPIError::InvalidCredentials => 400,
            AuthAPIError::UnexpectedError => 500,
        }
    }
}

/// The raw fields of a signup request, as the transport layer hands them
/// over after deserializing a request body.
pub struct SignupRequest {
    pub email: String,
    pub password: String,
    pub requires_2fa: bool,
}

/// The record a signup request asks to store.
pub open spec fn requested_user(r: &SignupRequest) -> UserView {
    UserView { email: r.email@, password: r.password@, requires_2fa: r.requires_2fa }
}

impl SignupRequest {
    /// Both credential fields pass their parsers. One rule set guards the
    /// whole signup path, so a request that passes here can always be
    /// turned into a user record.
    pub fn is_valid(&self) -> (b: bool)
        ensures
            b == credentials_valid(self.email@, self.password@),
    {
        Email::is_valid(self.email.as_str()) && Password::is_valid(self.password.as_str()).is_ok()
    }

    /// Builds the requested user record; succeeds exactly when the request
    /// is valid.
    pub fn to_user(&self) -> (r: Result<User, UserError>)
        ensures
            credentials_valid(self.email@, self.password@) ==> (r matches Ok(u) && u@
                == requested_user(self)),
            !credentials_valid(self.email@, self.password@) ==> r is Err,
    {
        User::new(self.email.clone(), self.password.clone(), self.requires_2fa)
    }
}

/// The body rendered on a successful signup.
pub struct SignupResponse {
    pub message: String,
}

/// The body rendered on a failed request.
pub struct ErrorResponse {
    pub error: String,
}

/// The fixed message carried by a successful signup response.
pub open spec fn created_message() -> Seq<char> {
    "User created successfully!"@
}

/// The signup use case: exactly one insertion attempt per invocation.
/// An invalid request is turned away as `InvalidCredentials` before the
/// directory is touched; a valid one is stored unless its email key is
/// already taken, which surfaces as `UserAlreadyExists`.
pub fn signup<S: UserStore>(store: &mut S, request: &SignupRequest) -> (r: Result<
    SignupResponse,
    AuthAPIError,
>)
    requires
        old(store).inv(),
    ensures
        final(store).inv(),
        !credentials_valid(request.email@, request.password@) ==> (r matches Err(e) && e
            == AuthAPIError::InvalidCredentials && final(store).directory() == old(
            store,
        ).directory()),
        credentials_valid(request.email@, request.password@) ==> {
            &&& final(store).directory() == add_result(
                old(store).directory(),
                requested_user(request),
            )
            &&& (add_outcome(old(store).directory(), requested_user(request)) is Ok ==> (
            r matches Ok(resp) && resp.message@ == created_message()))
            &&& (add_outcome(old(store).directory(), requested_user(request)) is Err ==> (
            r matches Err(e) && e == AuthAPIError::UserAlreadyExists))
        },
{
    if !request.is_valid() {
        return Err(AuthAPIError::InvalidCredentials);
    }
    match request.to_user() {
        Ok(user) => {
            match store.add_user(user) {
                Ok(_) => Ok(
                    SignupResponse { message: "User created successfully!".to_owned() },
                ),
                Err(UserStoreError::UserAlreadyExists) => Err(AuthAPIError::UserAlreadyExists),
                Err(_) => Err(AuthAPIError::UnexpectedError),
            }
        },
        Err(_) => Err(AuthAPIError::InvalidCredentials),
    }
}

} // verus!
