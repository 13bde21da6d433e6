use auth_service::user::{User, UserError};
use auth_service::user_store::{HashmapUserStore, UserStore, UserStoreError};

fn test_user() -> User {
    User::new(
        "test@example.com".to_string(),
        "Test_passw0rd!".to_string(),
        false,
    )
    .unwrap()
}

#[test]
fn add_user() {
    // Create a new store instance
    let mut store = HashmapUserStore::new();

    // Create a test user
    let user = test_user();
    let mut result = store.add_user(user.clone());
    assert!(result.is_ok());

    // Try to add the same user again
    result = store.add_user(user);
    assert_eq!(result.err(), Some(UserStoreError::UserAlreadyExists));
}

#[test]
fn add_user_keeps_first_record() {
    let mut store = HashmapUserStore::new();
    let first = User::new(
        "test@example.com".to_string(),
        "First_passw0rd!".to_string(),
        true,
    )
    .unwrap();
    let second = User::new(
        "test@example.com".to_string(),
        "Second_passw0rd!".to_string(),
        false,
    )
    .unwrap();

    assert!(store.add_user(first).is_ok());
    assert_eq!(
        store.add_user(second).err(),
        Some(UserStoreError::UserAlreadyExists)
    );

    // The rejected insertion left the stored record untouched.
    let stored = store.get_user("test@example.com").unwrap();
    assert_eq!(stored.password().as_ref(), "First_passw0rd!");
    assert!(stored.requires_2fa());
}

#[test]
fn get_nonexistent_user_returns_error() {
    let store = HashmapUserStore::new();
    let email = "test@example.com";

    let result = store.get_user(email);
    assert_eq!(result.err(), Some(UserStoreError::UserNotFound));
}

#[test]
fn get_user_returns_stored_record() {
    let mut store = HashmapUserStore::new();
    let user = test_user();
    store.add_user(user).unwrap();

    let stored = store.get_user("test@example.com").unwrap();
    assert_eq!(stored.email().as_ref(), "test@example.com");
    assert_eq!(stored.password().as_ref(), "Test_passw0rd!");
    assert!(!stored.requires_2fa());

    assert_eq!(
        store.get_user("other@example.com").err(),
        Some(UserStoreError::UserNotFound)
    );
}

#[test]
fn validate_user_returns_user_not_found_err() {
    let mut store = HashmapUserStore::new();

    // Create a test user
    let user = test_user();

    let result = store.validate_user(&user);
    assert_eq!(result.err(), Some(UserStoreError::UserNotFound));
}

#[test]
fn validate_user_returns_invalid_credentials_err() {
    let mut store = HashmapUserStore::new();

    // Create a test user
    let user = test_user();

    // Add the user to the store
    let _ = store.add_user(user);

    // Create a test user with incorrect password
    let user = User::new(
        "test@example.com".to_string(),
        "Wrong_passw0rd!".to_string(),
        false,
    )
    .unwrap();

    let result = store.validate_user(&user);
    assert_eq!(result.err(), Some(UserStoreError::InvalidCredentials));
}

#[test]
fn validate_user_returns_ok() {
    let mut store = HashmapUserStore::new();

    // Create a test user
    let user = test_user();

    // Add the user to the store
    let _ = store.add_user(user.clone());

    let result = store.validate_user(&user);
    assert!(result.is_ok());
}

#[test]
fn user_new_rejects_bad_credentials() {
    assert_eq!(
        User::new(
            "no-at-sign".to_string(),
            "Test_passw0rd!".to_string(),
            false
        )
        .err(),
        Some(UserError::InvalidEmail)
    );
    assert_eq!(
        User::new("test@example.com".to_string(), "short".to_string(), false).err(),
        Some(UserError::InvalidPassword(
            auth_service::password::PasswordError::TooShort(8)
        ))
    );
}
