//! Credential validation and an in-memory user directory for an
//! authentication service: validated email and password values, a unique
//! user record per email key, and the signup use case that ties them
//! together and reports a typed outcome.

pub mod email;
pub mod password;
pub mod user;
pub mod signup;
pub mod user_store;
