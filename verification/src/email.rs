use vstd::prelude::*;

verus! {

/// A string is an acceptable email address when it contains an `@` sign.
pub open spec fn email_chars_valid(s: Seq<char>) -> bool {
    exists|i: int| 0 <= i < s.len() && s[i] == '@'
}

/// The fixed message with which email parsing rejects its input.
pub open spec fn invalid_email_message() -> Seq<char> {
    "invalid email"@
}

/// A validated email address. `parse` is the only constructor, so the
/// wrapped string always contains an `@` sign, is stored exactly as it was
/// parsed, and never changes afterwards.
#[derive(Debug, Clone, PartialEq, Hash, Eq)]
pub struct Email(String);

impl View for Email {
    type V = Seq<char>;

    closed spec fn view(&self) -> Seq<char> {
        self.0@
    }
}

impl Email {
    /// Accepts exactly the strings that contain `@`, wrapping the input
    /// unchanged; rejects every other string with the fixed message.
    pub fn parse(email: &str) -> (r: Result<Email, String>)
        ensures
            email_chars_valid(email@) ==> (r matches Ok(e) && e@ == email@),
            !email_chars_valid(email@) ==> (r matches Err(m) && m@ == invalid_email_message()),
    {
        if Self::is_valid(email) {
            Ok(Email(email.to_owned()))
        } else {
            Err("invalid email".to_owned())
        }
    }

    /// Decides the validity predicate on an email string.
    pub(crate) fn is_valid(email: &str) -> (b: bool)
        ensures
            b == email_chars_valid(email@),
    {
        let n: usize = email.unicode_len();
        for i in 0..n
            invariant
                n == email@.len(),
                forall|j: int| 0 <= j < i ==> email@[j] != '@',
        {
            if email.get_char(i) == '@' {
                return true;
            }
        }
        false
    }

    /// Read-only view of the wrapped string, for use as a storage key and
    /// in comparisons.
    pub fn as_ref(&self) -> (s: &str)
        ensures
            s@ == self@,
    {
        self.0.as_str()
    }
}

} // verus!
