use auth_service::password::{Password, PasswordError};

#[test]
fn test_parse_valid_password() {
    let valid_password = "Passw0rd!";
    let result = Password::parse(valid_password);
    assert!(result.is_ok());
    assert_eq!(result.unwrap().as_ref(), valid_password);
}

#[test]
fn test_empty_password_error() {
    let empty_password = "";
    let result = Password::parse(empty_password);
    assert!(result.is_err());
    assert_eq!(result.unwrap_err(), PasswordError::Empty);
}

#[test]
fn test_short_password_error() {
    let short_password = "Pw1!";
    let result = Password::parse(short_password);
    assert!(result.is_err());
    assert_eq!(result.unwrap_err(), PasswordError::TooShort(8));
}

#[test]
fn test_password_without_uppercase_error() {
    let no_uppercase = "password1!";
    let result = Password::parse(no_uppercase);
    assert!(result.is_err());
    assert_eq!(result.unwrap_err(), PasswordError::MissingUppercase);
}

#[test]
fn test_password_without_lowercase_error() {
    let no_lowercase = "PASSWORD1!";
    let result = Password::parse(no_lowercase);
    assert!(result.is_err());
    assert_eq!(result.unwrap_err(), PasswordError::MissingLowercase);
}

#[test]
fn test_password_without_digit_error() {
    let no_digit = "Password!";
    let result = Password::parse(no_digit);
    assert!(result.is_err());
    assert_eq!(result.unwrap_err(), PasswordError::MissingDigit);
}

#[test]
fn test_password_without_special_char_error() {
    let no_special = "Password1";
    let result = Password::parse(no_special);
    assert!(result.is_err());
    assert_eq!(result.unwrap_err(), PasswordError::MissingSpecialChar);
}

#[test]
fn test_multiple_valid_passwords() {
    let valid_passwords = [
        "Passw0rd!",
        "SecureP@ss123",
        "C0mpl3x_P@ssw0rd",
        "Strong#P4ssword",
        "P@$$w0rd123",
    ];

    for password in valid_passwords.iter() {
        assert!(
            Password::parse(password).is_ok(),
            "Password '{}' should be valid",
            password
        );
    }
}

#[test]
fn test_error_display_messages() {
    assert_eq!(PasswordError::Empty.message(), "password cannot be empty");
    assert_eq!(
        PasswordError::TooShort(8).message(),
        "password must be at least 8 characters long"
    );
    assert_eq!(
        PasswordError::MissingUppercase.message(),
        "password must contain at least one uppercase letter"
    );
    assert_eq!(
        PasswordError::MissingLowercase.message(),
        "password must contain at least one lowercase letter"
    );
    assert_eq!(
        PasswordError::MissingDigit.message(),
        "password must contain at least one digit"
    );
    assert_eq!(
        PasswordError::MissingSpecialChar.message(),
        "password must contain at least one special character"
    );
}
