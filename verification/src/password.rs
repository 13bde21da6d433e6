use vstd::prelude::*;

verus! {

/// Why a candidate password was rejected: the first rule it broke, in the
/// fixed order empty, too short, missing uppercase, missing lowercase,
/// missing digit, missing special character.
#[derive(Debug, Clone, Copy, PartialEq, Eq)]
pub enum PasswordError {
    Empty,
    TooShort(usize),
    MissingUppercase,
    MissingLowercase,
    MissingDigit,
    MissingSpecialChar,
}

/// The smallest number of characters a password may have.
pub const MIN_PASSWORD_LENGTH: usize = 8;

pub open spec fn is_uppercase_char(c: char) -> bool {
    'A' <= c && c <= 'Z'
}

pub open spec fn is_lowercase_char(c: char) -> bool {
    'a' <= c && c <= 'z'
}

pub open spec fn is_digit_char(c: char) -> bool {
    '0' <= c && c <= '9'
}

/// A special character is anything outside the ranges `A`-`Z`, `a`-`z`
/// and `0`-`9`.
pub open spec fn is_special_char(c: char) -> bool {
    !is_uppercase_char(c) && !is_lowercase_char(c) && !is_digit_char(c)
}

pub open spec fn has_uppercase(s: Seq<char>) -> bool {
    exists|i: int| 0 <= i < s.len() && is_uppercase_char(s[i])
}

pub open spec fn has_lowercase(s: Seq<char>) -> bool {
    exists|i: int| 0 <= i < s.len() && is_lowercase_char(s[i])
}

pub open spec fn has_digit(s: Seq<char>) -> bool {
    exists|i: int| 0 <= i < s.len() && is_digit_char(s[i])
}

pub open spec fn has_special(s: Seq<char>) -> bool {
    exists|i: int| 0 <= i < s.len() && is_special_char(s[i])
}

/// The outcome of holding a candidate password against the composition
/// rules: `Ok` when every rule holds, otherwise the error for the first
/// rule broken, checked in this fixed order.
pub open spec fn password_rule_check(s: Seq<char>) -> Result<(), PasswordError> {
    if s.len() == 0 {
        Err(PasswordError::Empty)
    } else if s.len() < MIN_PASSWORD_LENGTH {
        Err(PasswordError::TooShort(MIN_PASSWORD_LENGTH))
    } else if !has_uppercase(s) {
        Err(PasswordError::MissingUppercase)
    } else if !has_lowercase(s) {
        Err(PasswordError::MissingLowercase)
    } else if !has_digit(s) {
        Err(PasswordError::MissingDigit)
    } else if !has_special(s) {
        Err(PasswordError::MissingSpecialChar)
    } else {
        Ok(())
    }
}

impl PasswordError {
    /// The fixed human-readable message for this rejection.
    pub open spec fn message_spec(&self) -> Seq<char> {
        match self {
            PasswordError::Empty => "password cannot be empty"@,
            PasswordError::TooShort(_) => "password must be at least 8 characters long"@,
            PasswordError::MissingUppercase => "password must contain at least one uppercase letter"@,
            PasswordError::MissingLowercase => "password must contain at least one lowercase letter"@,
            PasswordError::MissingDigit => "password must contain at least one digit"@,
            PasswordError::MissingSpecialChar => "password must contain at least one special character"@,
        }
    }

    /// Renders the fixed message for this rejection.
    pub fn message(&self) -> (m: String)
        ensures
            m@ == self.message_spec(),
    {
        match self {
            PasswordError::Empty => "password cannot be empty".to_owned(),
            PasswordError::TooShort(_) => "password must be at least 8 characters long".to_owned(),
            PasswordError::MissingUppercase => "password must contain at least one uppercase letter".to_owned(),
            PasswordError::MissingLowercase => "password must contain at least one lowercase letter".to_owned(),
            PasswordError::MissingDigit => "password must contain at least one digit".to_owned(),
            PasswordError::MissingSpecialChar => "password must contain at least one special character".to_owned(),
        }
    }
}

/// A validated password. `parse` is the only constructor, so the wrapped
/// string always satisfies every composition rule, is stored exactly as it
/// was parsed, and never changes afterwards.
#[derive(Debug, Clone)]
pub struct Password(String);

impl View for Password {
    type V = Seq<char>;

    closed spec fn view(&self) -> Seq<char> {
        self.0@
    }
}

impl Password {
    /// Accepts exactly the strings on which every composition rule holds,
    /// wrapping the input unchanged; rejects every other string with the
    /// error of the first rule it breaks.
    pub fn parse(password: &str) -> (r: Result<Password, PasswordError>)
        ensures
            password_rule_check(password@) is Ok ==> (r matches Ok(p) && p@ == password@),
            password_rule_check(password@) is Err ==> r == Err::<Password, PasswordError>(
                password_rule_check(password@)->Err_0,
            ),
    {
        match Self::is_valid(password) {
            Ok(_) => Ok(Password(password.to_owned())),
            Err(err) => Err(err),
        }
    }

    /// Decides the composition rules on a password string, reporting the
    /// first rule broken.
    pub(crate) fn is_valid(password: &str) -> (r: Result<(), PasswordError>)
        ensures
            r == password_rule_check(password@),
    {
        let n: usize = password.unicode_len();
        if n == 0 {
            return Err(PasswordError::Empty);
        }
        if n < MIN_PASSWORD_LENGTH {
            return Err(PasswordError::TooShort(MIN_PASSWORD_LENGTH));
        }
        let mut upper = false;
        let mut lower = false;
        let mut digit = false;
        let mut special = false;
        for i in 0..n
            invariant
                n == password@.len(),
                upper == has_uppercase(password@.take(i as int)),
                lower == has_lowercase(password@.take(i as int)),
                digit == has_digit(password@.take(i as int)),
                special == has_special(password@.take(i as int)),
        {
            let c = password.get_char(i);
            upper = upper || ('A' <= c && c <= 'Z');
            lower = lower || ('a' <= c && c <= 'z');
            digit = digit || ('0' <= c && c <= '9');
            special = special
                || !(('A' <= c && c <= 'Z') || ('a' <= c && c <= 'z') || ('0' <= c && c <= '9'));
            proof {
                lemma_scan_step(password@, i as int);
            }
        }
        proof {
            assert(password@.take(n as int) =~= password@);
        }
        if !upper {
            return Err(PasswordError::MissingUppercase);
        }
        if !lower {
            return Err(PasswordError::MissingLowercase);
        }
        if !digit {
            return Err(PasswordError::MissingDigit);
        }
        if !special {
            return Err(PasswordError::MissingSpecialChar);
        }
        Ok(())
    }

    /// Read-only view of the wrapped string.
    pub fn as_ref(&self) -> (s: &str)
        ensures
            s@ == self@,
    {
        self.0.as_str()
    }
}

/// Extending the scanned prefix by one character finds a character class in
/// the longer prefix exactly when the shorter prefix had it or the new
/// character belongs to the class.
proof fn lemma_scan_step(s: Seq<char>, i: int)
    requires
        0 <= i < s.len(),
    ensures
        has_uppercase(s.take(i + 1)) <==> has_uppercase(s.take(i)) || is_uppercase_char(s[i]),
        has_lowercase(s.take(i + 1)) <==> has_lowercase(s.take(i)) || is_lowercase_char(s[i]),
        has_digit(s.take(i + 1)) <==> has_digit(s.take(i)) || is_digit_char(s[i]),
        has_special(s.take(i + 1)) <==> has_special(s.take(i)) || is_special_char(s[i]),
{
    assert(s.take(i + 1).drop_last() =~= s.take(i));
    assert(s.take(i + 1).last() == s[i]);
    lemma_class_extend(s.take(i + 1));
}

/// A non-empty prefix holds a character class exactly when its last
/// character belongs to the class or the rest of the prefix holds it.
proof fn lemma_class_extend(s: Seq<char>)
    requires
        s.len() > 0,
    ensures
        has_uppercase(s) <==> has_uppercase(s.drop_last()) || is_uppercase_char(s.last()),
        has_lowercase(s) <==> has_lowercase(s.drop_last()) || is_lowercase_char(s.last()),
        has_digit(s) <==> has_digit(s.drop_last()) || is_digit_char(s.last()),
        has_special(s) <==> has_special(s.drop_last()) || is_special_char(s.last()),
{
    let t = s.drop_last();
    assert forall|i: int| 0 <= i < t.len() implies s[i] == t[i] by {}
    if has_uppercase(s) {
        let i: int = choose|i: int| 0 <= i < s.len() && is_uppercase_char(s[i]);
        if i < t.len() {
            assert(is_uppercase_char(t[i]));
        }
    }
    if has_lowercase(s) {
        let i: int = choose|i: int| 0 <= i < s.len() && is_lowercase_char(s[i]);
        if i < t.len() {
            assert(is_lowercase_char(t[i]));
        }
    }
    if has_digit(s) {
        let i: int = choose|i: int| 0 <= i < s.len() && is_digit_char(s[i]);
        if i < t.len() {
            assert(is_digit_char(t[i]));
        }
    }
    if has_special(s) {
        let i: int = choose|i: int| 0 <= i < s.len() && is_special_char(s[i]);
        if i < t.len() {
            assert(is_special_char(t[i]));
        }
    }
    assert(s[s.len() - 1] == s.last());
}

} // verus!
