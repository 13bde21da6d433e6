use vstd::prelude::*;

use crate::email::{email_chars_valid, Email};
use crate::password::{password_rule_check, Password, PasswordError};

verus! {

/// Why a user record could not be built: the email was rejected, or the
/// email was fine and the password was rejected for the given reason.
#[derive(Debug, Clone, Copy, PartialEq, Eq)]
pub enum UserError {
    InvalidEmail,
    InvalidPassword(PasswordError),
}

/// The mathematical content of a user record: the character sequences of
/// its email and password, and the second-factor flag.
pub ghost struct UserView {
    pub email: Seq<char>,
    pub password: Seq<char>,
    pub requires_2fa: bool,
}

/// A user record: one validated email, one validated password, and whether
/// the account asks for a second factor. Never mutated after construction.
#[derive(Clone)]
pub struct User {
    email: Email,
    password: Password,
    requires_2fa: bool,
}

impl View for User {
    type V = UserView;

    closed spec fn view(&self) -> UserView {
        UserView {
            email: self.email@,
            password: self.password@,
            requires_2fa: self.requires_2fa,
        }
    }
}

/// Both credential strings pass their parsers.
pub open spec fn credentials_valid(email: Seq<char>, password: Seq<char>) -> bool {
    email_chars_valid(email) && password_rule_check(password) is Ok
}

impl User {
    /// Builds a record from raw credentials by running both parsers:
    /// succeeds, keeping the strings unchanged, exactly when the email and
    /// the password are both valid, and otherwise reports the first parser
    /// that rejected.
    pub fn new(email: String, password: String, requires_2fa: bool) -> (r: Result<User, UserError>)
        ensures
            credentials_valid(email@, password@) ==> (r matches Ok(u) && u@ == (UserView {
                email: email@,
                password: password@,
                requires_2fa,
            })),
            !email_chars_valid(email@) ==> r == Err::<User, UserError>(UserError::InvalidEmail),
            email_chars_valid(email@) && password_rule_check(password@) is Err ==> r == Err::<
                User,
                UserError,
            >(UserError::InvalidPassword(password_rule_check(password@)->Err_0)),
    {
        let email = match Email::parse(email.as_str()) {
            Ok(e) => e,
            Err(_) => {
                return Err(UserError::InvalidEmail);
            },
        };
        let password = match Password::parse(password.as_str()) {
            Ok(p) => p,
            Err(e) => {
                return Err(UserError::InvalidPassword(e));
            },
        };
        Ok(User { email, password, requires_2fa })
    }

    /// The record's email value.
    pub fn email(&self) -> (e: &Email)
        ensures
            e@ == self@.email,
    {
        &self.email
    }

    /// The record's password value.
    pub fn password(&self) -> (p: &Password)
        ensures
            p@ == self@.password,
    {
        &self.password
    }

    /// Whether the account asks for a second factor.
    pub fn requires_2fa(&self) -> (b: bool)
        ensures
            b == self@.requires_2fa,
    {
        self.requires_2fa
    }
}

} // verus!
