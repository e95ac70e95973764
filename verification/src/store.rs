//! User records and the user store.
//!
//! The store exposes lookup by id, lookup by username-or-email, and
//! insert-with-generated-identifier. Persistence is outside the
//! authentication core; this store keeps the records in memory and assigns
//! identifiers in insertion order, which its invariant `wf` pins down.

use vstd::prelude::*;

use crate::errors::UserRepoError;
use crate::text::str_eq;

verus! {

/// A user record. `id` is the stable subject identifier embedded in both
/// token kinds; `password` holds the credential hash string, opaque to
/// everything except the credential service, and is the only form of the
/// password ever stored.
#[derive(Debug)]
pub struct User {
    pub id: i32,
    pub username: String,
    pub email: String,
    pub password: String,
}

/// The mathematical value of a user record.
pub struct UserRecord {
    pub id: int,
    pub username: Seq<char>,
    pub email: Seq<char>,
    pub password: Seq<char>,
}

impl View for User {
    type V = UserRecord;

    open spec fn view(&self) -> UserRecord {
        UserRecord {
            id: self.id as int,
            username: self.username@,
            email: self.email@,
            password: self.password@,
        }
    }
}

impl Clone for User {
    fn clone(&self) -> (r: Self)
        ensures
            r == *self,
    {
        User {
            id: self.id,
            username: self.username.clone(),
            email: self.email.clone(),
            password: self.password.clone(),
        }
    }
}

/// The fields of a user yet to be created. `password` carries the credential
/// hash by the time it reaches the store.
#[derive(Debug)]
pub struct CreateUser {
    pub username: String,
    pub email: String,
    pub password: String,
}

/// Lookup by id over the store's contents: the record whose identifier is
/// `id`, which the store's invariant places at position `id - 1`.
pub open spec fn spec_find(s: Seq<UserRecord>, id: int) -> Option<UserRecord> {
    if 1 <= id <= s.len() {
        Some(s[id - 1])
    } else {
        None
    }
}

/// Whether `q` names the user `u`, either as its username or as its email.
pub open spec fn spec_matches_ident(u: UserRecord, q: Seq<char>) -> bool {
    u.username == q || u.email == q
}

/// Lookup by username-or-email: the first record, in insertion order, that
/// `q` names.
pub open spec fn spec_find_by_ident(s: Seq<UserRecord>, q: Seq<char>) -> Option<UserRecord>
    decreases s.len(),
{
    if s.len() == 0 {
        None
    } else if spec_matches_ident(s[0], q) {
        Some(s[0])
    } else {
        spec_find_by_ident(s.drop_first(), q)
    }
}

/// Whether some record in the store already carries this username.
pub open spec fn spec_username_taken(s: Seq<UserRecord>, name: Seq<char>) -> bool {
    exists|i: int| 0 <= i < s.len() && (#[trigger] s[i]).username == name
}

/// The in-memory user store.
pub struct UserStore {
    users: Vec<User>,
}

impl View for UserStore {
    type V = Seq<UserRecord>;

    closed spec fn view(&self) -> Seq<UserRecord> {
        self.users@.map_values(|u: User| u@)
    }
}

impl UserStore {
    /// Well-formedness: identifiers are assigned in insertion order, starting
    /// at 1, and always fit the identifier type.
    pub open spec fn wf(self) -> bool {
        &&& self@.len() <= i32::MAX as int
        &&& forall|i: int| 0 <= i < self@.len() ==> (#[trigger] self@[i]).id == i + 1
    }

    pub fn new() -> (s: Self)
        ensures
            s@ == Seq::<UserRecord>::empty(),
            s.wf(),
    {
        let s = UserStore { users: Vec::new() };
        proof {
            assert(s@ =~= Seq::<UserRecord>::empty());
        }
        s
    }

    /// How many users the store holds.
    pub fn len(&self) -> (n: usize)
        ensures
            n == self@.len(),
    {
        self.users.len()
    }

    /// Fetch the user with this identifier, or `NotFound`.
    pub fn find(&self, user_id: i32) -> (r: Result<User, UserRepoError>)
        ensures
            r matches Ok(u) ==> spec_find(self@, user_id as int) == Some(u@),
            r matches Err(e) ==> e == UserRepoError::NotFound && spec_find(
                self@,
                user_id as int,
            ) is None,
    {
        if user_id >= 1 && (user_id as usize) <= self.users.len() {
            let idx: usize = (user_id as usize) - 1;
            let u = self.users[idx].clone();
            proof {
                assert(self@[user_id - 1] == self.users@[user_id - 1]@);
            }
            Ok(u)
        } else {
            Err(UserRepoError::NotFound)
        }
    }

    /// Fetch the first user, in insertion order, whose username or email is
    /// the text given, or `NotFound`.
    pub fn find_by_username_or_email(&self, user_email_or_name: &str) -> (r: Result<
        User,
        UserRepoError,
    >)
        ensures
            r matches Ok(u) ==> spec_find_by_ident(self@, user_email_or_name@) == Some(u@),
            r matches Err(e) ==> e == UserRepoError::NotFound && spec_find_by_ident(
                self@,
                user_email_or_name@,
            ) is None,
    {
        let ghost q: Seq<char> = user_email_or_name@;
        let n = self.users.len();
        let mut i: usize = 0;
        proof {
            assert(self@.skip(0) =~= self@);
        }
        while i < n
            invariant
                i <= n,
                n == self.users.len(),
                q == user_email_or_name@,
                spec_find_by_ident(self@, q) == spec_find_by_ident(self@.skip(i as int), q),
            decreases n - i,
        {
            proof {
                assert(self@.skip(i as int)[0] == self@[i as int]);
                assert(self@[i as int] == self.users@[i as int]@);
            }
            let matched = str_eq(self.users[i].username.as_str(), user_email_or_name) || str_eq(
                self.users[i].email.as_str(),
                user_email_or_name,
            );
            if matched {
                let u = self.users[i].clone();
                proof {
                    assert(spec_matches_ident(self@.skip(i as int)[0], q));
                }
                return Ok(u);
            }
            proof {
                assert(!spec_matches_ident(self@.skip(i as int)[0], q));
                assert(self@.skip(i as int).drop_first() =~= self@.skip(i as int + 1));
            }
            i = i + 1;
        }
        proof {
            assert(self@.skip(n as int) =~= Seq::<UserRecord>::empty());
        }
        Err(UserRepoError::NotFound)
    }

    /// Whether some user already carries this username.
    pub fn username_taken(&self, name: &str) -> (b: bool)
        ensures
            b == spec_username_taken(self@, name@),
    {
        let n = self.users.len();
        let mut i: usize = 0;
        while i < n
            invariant
                i <= n,
                n == self.users.len(),
                forall|j: int| 0 <= j < i ==> (#[trigger] self@[j]).username != name@,
            decreases n - i,
        {
            proof {
                assert(self@[i as int] == self.users@[i as int]@);
            }
            if str_eq(self.users[i].username.as_str(), name) {
                proof {
                    assert(self@[i as int].username == name@);
                }
                return true;
            }
            i = i + 1;
        }
        false
    }

    /// Insert a new user with a generated identifier. Fails with
    /// `InvalidUserName`, leaving the store unchanged, exactly when the
    /// username is already taken.
    pub fn create(&mut self, params: CreateUser) -> (r: Result<User, UserRepoError>)
        requires
            old(self).wf(),
            old(self)@.len() < i32::MAX as int,
        ensures
            final(self).wf(),
            r matches Ok(u) ==> {
                &&& !spec_username_taken(old(self)@, params.username@)
                &&& u@ == (UserRecord {
                    id: old(self)@.len() as int + 1,
                    username: params.username@,
                    email: params.email@,
                    password: params.password@,
                })
                &&& final(self)@ == old(self)@.push(u@)
            },
            r matches Err(e) ==> {
                &&& e == UserRepoError::InvalidUserName
                &&& spec_username_taken(old(self)@, params.username@)
                &&& final(self)@ == old(self)@
            },
    {
        if self.username_taken(params.username.as_str()) {
            return Err(UserRepoError::InvalidUserName);
        }
        let id: i32 = (self.users.len() + 1) as i32;
        let user = User {
            id,
            username: params.username,
            email: params.email,
            password: params.password,
        };
        let result = user.clone();
        self.users.push(user);
        proof {
            assert(self@ =~= old(self)@.push(result@));
        }
        Ok(result)
    }
}

} // verus!
