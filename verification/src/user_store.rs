use vstd::prelude::*;

use crate::user::{User, UserView};

verus! {

/// Failure kinds a user directory can report.
#[derive(Debug, Clone, Copy, PartialEq, Eq)]
pub enum UserStoreError {
    UserAlreadyExists,
    UserNotFound,
    InvalidCredentials,
    UnexpectedError,
}

/// What a directory is mathematically: a map from the email key to the
/// stored user record.
pub type Directory = Map<Seq<char>, UserView>;

/// The outcome of inserting `u`: rejected when the key is already taken,
/// accepted otherwise.
pub open spec fn add_outcome(m: Directory, u: UserView) -> Result<(), UserStoreError> {
    if m.contains_key(u.email) {
        Err(UserStoreError::UserAlreadyExists)
    } else {
        Ok(())
    }
}

/// The directory after an insertion attempt of `u`: unchanged when the key
/// is already taken, extended by the new record otherwise.
pub open spec fn add_result(m: Directory, u: UserView) -> Directory {
    if m.contains_key(u.email) {
        m
    } else {
        m.insert(u.email, u)
    }
}

/// The outcome of looking an email up: the stored record, or UserNotFound.
pub open spec fn lookup(m: Directory, email: Seq<char>) -> Result<UserView, UserStoreError> {
    if m.contains_key(email) {
        Ok(m[email])
    } else {
        Err(UserStoreError::UserNotFound)
    }
}

/// The outcome of validating a candidate record: UserNotFound when its
/// email is not stored, success when the stored password equals the
/// candidate's exactly, InvalidCredentials otherwise.
pub open spec fn validate_outcome(m: Directory, candidate: UserView) -> Result<
    (),
    UserStoreError,
> {
    if !m.contains_key(candidate.email) {
        Err(UserStoreError::UserNotFound)
    } else if m[candidate.email].password == candidate.password {
        Ok(())
    } else {
        Err(UserStoreError::InvalidCredentials)
    }
}

/// The capability a user directory offers: insertion under a uniqueness
/// guarantee, lookup, and credential validation, each pinned to the same
/// mathematical directory.
pub trait UserStore: Sized {
    /// The directory this store currently holds.
    spec fn directory(&self) -> Directory;

    /// What the store asks of callers; the in-memory store asks nothing.
    spec fn inv(&self) -> bool;

    /// Inserts `user` under its email key if and only if no record holds
    /// that key yet; a rejected insertion changes nothing.
    fn add_user(&mut self, user: User) -> (r: Result<(), UserStoreError>)
        requires
            old(self).inv(),
        ensures
            final(self).inv(),
            final(self).directory() == add_result(old(self).directory(), user@),
            r == add_outcome(old(self).directory(), user@),
    ;

    /// Pure lookup by email key.
    fn get_user(&self, email: &str) -> (r: Result<&User, UserStoreError>)
        requires
            self.inv(),
        ensures
            (match r {
                Ok(u) => lookup(self.directory(), email@) == Ok::<UserView, UserStoreError>(u@),
                Err(e) => lookup(self.directory(), email@) == Err::<UserView, UserStoreError>(e),
            }),
    ;

    /// Checks the candidate's password against the stored record under the
    /// candidate's email key; mutates nothing, but takes the store
    /// exclusively so the check cannot interleave with an insertion.
    fn validate_user(&mut self, user: &User) -> (r: Result<(), UserStoreError>)
        requires
            old(self).inv(),
        ensures
            final(self).inv(),
            final(self).directory() == old(self).directory(),
            r == validate_outcome(old(self).directory(), user@),
    ;
}

/// The user records of `s`, as views.
spec fn views_of(s: Seq<User>) -> Seq<UserView> {
    s.map_values(|u: User| u@)
}

/// No two records of `s` share an email.
spec fn emails_unique(s: Seq<UserView>) -> bool {
    forall|i: int, j: int| 0 <= i < j < s.len() ==> s[i].email != s[j].email
}

/// The directory a record sequence denotes, later records taking
/// precedence; under `emails_unique` no two records compete.
spec fn dir_of(s: Seq<UserView>) -> Directory
    decreases s.len(),
{
    if s.len() == 0 {
        Map::empty()
    } else {
        dir_of(s.drop_last()).insert(s.last().email, s.last())
    }
}

/// A key is in the denoted directory exactly when some record carries it.
proof fn lemma_dir_of_contains(s: Seq<UserView>, e: Seq<char>)
    ensures
        dir_of(s).contains_key(e) <==> exists|i: int| 0 <= i < s.len() && s[i].email == e,
    decreases s.len(),
{
    if s.len() > 0 {
        lemma_dir_of_contains(s.drop_last(), e);
        if s.last().email == e {
            assert(s[s.len() - 1].email == e);
        } else if dir_of(s).contains_key(e) {
            let i: int = choose|i: int| 0 <= i < s.drop_last().len() && s.drop_last()[i].email == e;
            assert(s[i].email == e);
        } else {
            assert forall|i: int| 0 <= i < s.len() implies s[i].email != e by {
                if i < s.len() - 1 {
                    assert(s.drop_last()[i].email != e);
                }
            }
        }
    }
}

/// Under unique emails, each record is stored under its own key.
proof fn lemma_dir_of_index(s: Seq<UserView>, i: int)
    requires
        emails_unique(s),
        0 <= i < s.len(),
    ensures
        dir_of(s).contains_key(s[i].email),
        dir_of(s)[s[i].email] == s[i],
    decreases s.len(),
{
    lemma_dir_of_contains(s, s[i].email);
    if i < s.len() - 1 {
        assert(s.drop_last()[i] == s[i]);
        assert(emails_unique(s.drop_last())) by {
            assert forall|x: int, y: int|
                0 <= x < y < s.drop_last().len() implies s.drop_last()[x].email
                != s.drop_last()[y].email by {
                assert(s[x].email != s[y].email);
            }
        }
        lemma_dir_of_index(s.drop_last(), i);
        assert(s.last().email != s[i].email);
    }
}

/// Compares two strings character by character.
fn str_eq(a: &str, b: &str) -> (r: bool)
    ensures
        r == (a@ == b@),
{
    let n: usize = a.unicode_len();
    let m: usize = b.unicode_len();
    if n != m {
        return false;
    }
    for i in 0..n
        invariant
            n == a@.len(),
            n == b@.len(),
            forall|j: int| 0 <= j < i ==> a@[j] == b@[j],
    {
        if a.get_char(i) != b.get_char(i) {
            return false;
        }
    }
    proof {
        assert(a@ =~= b@);
    }
    true
}

/// The in-memory user directory: a flat sequence of records with no two
/// sharing an email key. Exactly one writer or any number of readers may
/// hold it at a time; the surrounding service enforces that discipline
/// with a readers-writer lock, so `&self` methods run under shared access
/// and `&mut self` methods under exclusive access.
pub struct HashmapUserStore {
    users: Vec<User>,
}

impl HashmapUserStore {
    #[verifier::type_invariant]
    spec fn wf(&self) -> bool {
        emails_unique(views_of(self.users@))
    }

    /// An empty directory.
    pub fn new() -> (r: HashmapUserStore)
        ensures
            r.directory() == Map::<Seq<char>, UserView>::empty(),
    {
        HashmapUserStore { users: Vec::new() }
    }

    /// The position of the record keyed by `email`, if any.
    fn position_of(&self, email: &str) -> (r: Option<usize>)
        ensures
            (match r {
                Some(i) => i < self.users@.len() && self.users@[i as int]@.email == email@,
                None => forall|j: int|
                    0 <= j < self.users@.len() ==> self.users@[j]@.email != email@,
            }),
    {
        let n: usize = self.users.len();
        for i in 0..n
            invariant
                n == self.users@.len(),
                forall|j: int| 0 <= j < i ==> self.users@[j]@.email != email@,
        {
            if str_eq(self.users[i].email().as_ref(), email) {
                return Some(i);
            }
        }
        None
    }
}

impl UserStore for HashmapUserStore {
    closed spec fn directory(&self) -> Directory {
        dir_of(views_of(self.users@))
    }

    open spec fn inv(&self) -> bool {
        true
    }

    fn add_user(&mut self, user: User) -> (r: Result<(), UserStoreError>) {
        proof {
            use_type_invariant(&*self);
        }
        let ghost views = views_of(self.users@);
        match self.position_of(user.email().as_ref()) {
            Some(i) => {
                proof {
                    assert(views[i as int].email == user@.email);
                    lemma_dir_of_contains(views, user@.email);
                }
                Err(UserStoreError::UserAlreadyExists)
            },
            None => {
                proof {
                    lemma_dir_of_contains(views, user@.email);
                }
                let ghost added = user@;
                let mut users: Vec<User> = Vec::new();
                core::mem::swap(&mut users, &mut self.users);
                users.push(user);
                proof {
                    let vs = views_of(users@);
                    assert(vs.drop_last() =~= views);
                    assert(vs.last() == added);
                    assert forall|x: int, y: int|
                        0 <= x < y < vs.len() implies vs[x].email != vs[y].email by {
                        assert(vs[x] == views[x]);
                        if y < vs.len() - 1 {
                            assert(vs[y] == views[y]);
                        } else {
                            assert(views[x].email != added.email);
                        }
                    }
                }
                core::mem::swap(&mut self.users, &mut users);
                Ok(())
            },
        }
    }

    fn get_user(&self, email: &str) -> (r: Result<&User, UserStoreError>) {
        proof {
            use_type_invariant(self);
            lemma_dir_of_contains(views_of(self.users@), email@);
        }
        match self.position_of(email) {
            Some(i) => {
                proof {
                    lemma_dir_of_index(views_of(self.users@), i as int);
                }
                Ok(&self.users[i])
            },
            None => Err(UserStoreError::UserNotFound),
        }
    }

    fn validate_user(&mut self, user: &User) -> (r: Result<(), UserStoreError>) {
        let stored_user = self.get_user(user.email().as_ref());
        match stored_user {
            Ok(stored_user) => {
                if str_eq(stored_user.password().as_ref(), user.password().as_ref()) {
                    Ok(())
                } else {
                    Err(UserStoreError::InvalidCredentials)
                }
            },
            Err(UserStoreError::UserNotFound) => Err(UserStoreError::UserNotFound),
            Err(_) => Err(UserStoreError::UnexpectedError),
        }
    }
}

/// The directory left by attempting the insertions of `adds` in order.
pub open spec fn run_adds(m: Directory, adds: Seq<UserView>) -> Directory
    decreases adds.len(),
{
    if adds.len() == 0 {
        m
    } else {
        run_adds(add_result(m, adds[0]), adds.drop_first())
    }
}

/// How many insertions of `adds`, attempted in order, are accepted under
/// the key `e`.
pub open spec fn successes_for(m: Directory, adds: Seq<UserView>, e: Seq<char>) -> nat
    decreases adds.len(),
{
    if adds.len() == 0 {
        0
    } else {
        (if adds[0].email == e && add_outcome(m, adds[0]) is Ok {
            1nat
        } else {
            0nat
        }) + successes_for(add_result(m, adds[0]), adds.drop_first(), e)
    }
}

/// Once a directory holds a record under a key, no later insertion attempt
/// is accepted under that key, and the record stays exactly as it is:
/// every rejection is idempotent.
pub proof fn law_add_user_rejection_idempotent(m: Directory, adds: Seq<UserView>, e: Seq<char>)
    requires
        m.contains_key(e),
    ensures
        successes_for(m, adds, e) == 0,
        run_adds(m, adds).contains_key(e),
        run_adds(m, adds)[e] == m[e],
    decreases adds.len(),
{
    if adds.len() > 0 {
        law_add_user_rejection_idempotent(add_result(m, adds[0]), adds.drop_first(), e);
    }
}

/// Over any sequence of insertion attempts, at most one is accepted per
/// distinct email key.
pub proof fn law_at_most_one_add_succeeds(m: Directory, adds: Seq<UserView>, e: Seq<char>)
    ensures
        successes_for(m, adds, e) <= 1,
    decreases adds.len(),
{
    if adds.len() > 0 {
        if adds[0].email == e && add_outcome(m, adds[0]) is Ok {
            law_add_user_rejection_idempotent(add_result(m, adds[0]), adds.drop_first(), e);
        } else {
            law_at_most_one_add_succeeds(add_result(m, adds[0]), adds.drop_first(), e);
        }
    }
}

/// Insertion attempts whose key a directory already holds leave it as it
/// is, whatever their order and number.
proof fn lemma_run_adds_held_key_noop(m: Directory, adds: Seq<UserView>, e: Seq<char>)
    requires
        m.contains_key(e),
        forall|i: int| 0 <= i < adds.len() ==> adds[i].email == e,
    ensures
        run_adds(m, adds) == m,
    decreases adds.len(),
{
    if adds.len() > 0 {
        assert(adds[0].email == e);
        lemma_run_adds_held_key_noop(m, adds.drop_first(), e);
    }
}

/// When any number of insertion attempts race for one email key that is
/// not yet taken, exactly one of them — under exclusive writes, the one
/// serialized first — is accepted; every other one is rejected, and the
/// directory afterwards holds exactly the accepted record under that key.
pub proof fn law_one_winner_per_key(m: Directory, adds: Seq<UserView>, e: Seq<char>)
    requires
        !m.contains_key(e),
        adds.len() > 0,
        forall|i: int| 0 <= i < adds.len() ==> adds[i].email == e,
    ensures
        successes_for(m, adds, e) == 1,
        run_adds(m, adds) == m.insert(e, adds[0]),
{
    let m1 = m.insert(e, adds[0]);
    assert(add_result(m, adds[0]) == m1);
    law_add_user_rejection_idempotent(m1, adds.drop_first(), e);
    assert forall|i: int| 0 <= i < adds.drop_first().len() implies adds.drop_first()[i].email
        == e by {
        assert(adds[i + 1].email == e);
    }
    lemma_run_adds_held_key_noop(m1, adds.drop_first(), e);
}

/// An empty directory resolves every lookup to `UserNotFound`.
pub proof fn law_empty_lookup_not_found(e: Seq<char>)
    ensures
        lookup(Map::empty(), e) == Err::<UserView, UserStoreError>(UserStoreError::UserNotFound),
{
}

/// The validation taxonomy, case by case: an email that is not stored
/// fails `UserNotFound`; a stored email with a differing password fails
/// `InvalidCredentials`; a stored email with the exact password succeeds.
pub proof fn law_validate_outcome_cases(m: Directory, candidate: UserView)
    ensures
        !m.contains_key(candidate.email) ==> validate_outcome(m, candidate) == Err::<
            (),
            UserStoreError,
        >(UserStoreError::UserNotFound),
        m.contains_key(candidate.email) && m[candidate.email].password != candidate.password
            ==> validate_outcome(m, candidate) == Err::<(), UserStoreError>(
            UserStoreError::InvalidCredentials,
        ),
        m.contains_key(candidate.email) && m[candidate.email].password == candidate.password
            ==> validate_outcome(m, candidate) is Ok,
{
}

} // verus!
