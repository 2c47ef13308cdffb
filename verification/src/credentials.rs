//! The credential store: the user records, found by username or by
//! identifier, and the rule by which a new record gets its identifier.

use crate::errors::{CoreError, CredentialError};
use crate::matching::{
    first_of, last_of, lemma_first_match, lemma_no_match, lemma_scan_done, lemma_scan_step,
};
use crate::models::{NewUser, Privilege, User, UserView};
use vstd::prelude::*;
use vstd::slice::slice_to_vec;

verus! {

/// The views of a run of user records.
pub open spec fn user_views(users: Seq<User>) -> Seq<UserView> {
    users.map_values(|user: User| user@)
}

/// The predicate "carries the username `name`", letter for letter.
pub open spec fn username_is(name: Seq<char>) -> spec_fn(UserView) -> bool {
    |user: UserView| user.username == name
}

/// The predicate "has the identifier `id`".
pub open spec fn id_is(id: int) -> spec_fn(UserView) -> bool {
    |user: UserView| user.id == id
}

/// The first record, in the store's order, that carries the username.
pub open spec fn first_by_username(users: Seq<UserView>, name: Seq<char>) -> Option<UserView> {
    first_of(users.filter(username_is(name)))
}

/// The last record, in the store's order, that carries the username.
pub open spec fn last_by_username(users: Seq<UserView>, name: Seq<char>) -> Option<UserView> {
    last_of(users.filter(username_is(name)))
}

/// The first record, in the store's order, that has the identifier.
pub open spec fn first_by_id(users: Seq<UserView>, id: int) -> Option<UserView> {
    first_of(users.filter(id_is(id)))
}

/// The largest identifier in use, and zero when none is larger.
pub open spec fn max_id(users: Seq<UserView>) -> int
    decreases users.len(),
{
    if users.len() == 0 {
        0
    } else {
        let rest = max_id(users.drop_last());
        if users.last().id > rest {
            users.last().id
        } else {
            rest
        }
    }
}

/// The identifier that the next record gets: one more than the largest in
/// use.
pub open spec fn next_id(users: Seq<UserView>) -> int {
    max_id(users) + 1
}

/// Whether the next identifier still fits the identifier type.
pub open spec fn has_room(users: Seq<UserView>) -> bool {
    next_id(users) <= i32::MAX
}

/// The record that stands for a new user: the next identifier, the given
/// username and hash, and the ordinary privilege tier.
pub open spec fn new_record(users: Seq<UserView>, name: Seq<char>, password: Seq<u8>) -> UserView {
    UserView {
        id: next_id(users),
        username: name,
        password,
        privilege: Privilege::User.spec_code(),
    }
}

/// How storing a user under `name` ends: with the identifier of the new
/// record, or refused because the username is in use or because the
/// identifiers are used up.
pub open spec fn insert_outcome(users: Seq<UserView>, name: Seq<char>) -> Result<int, CoreError> {
    if first_by_username(users, name) is Some {
        Err(CoreError::Credential(CredentialError::UsernameTaken))
    } else if !has_room(users) {
        Err(CoreError::PersistenceFailure)
    } else {
        Ok(next_id(users))
    }
}

/// The records after storing a user under `name`: one more at the end when
/// the user is stored, and the same records when it is refused.
pub open spec fn after_insert(users: Seq<UserView>, name: Seq<char>, password: Seq<u8>) -> Seq<
    UserView,
> {
    if insert_outcome(users, name) is Ok {
        users.push(new_record(users, name, password))
    } else {
        users
    }
}

/// Whether no two records share an identifier or a username.
pub open spec fn distinct(users: Seq<UserView>) -> bool {
    forall|i: int, j: int|
        0 <= i < users.len() && 0 <= j < users.len() && i != j ==> (#[trigger] users[i]).id != (
        #[trigger] users[j]).id && users[i].username != users[j].username
}

/// Every identifier in use is at most `max_id`, which is never negative.
pub proof fn lemma_max_id_bounds(users: Seq<UserView>)
    ensures
        max_id(users) >= 0,
        forall|i: int| 0 <= i < users.len() ==> (#[trigger] users[i]).id <= max_id(users),
    decreases users.len(),
{
    if users.len() > 0 {
        lemma_max_id_bounds(users.drop_last());
        assert forall|i: int| 0 <= i < users.len() implies (#[trigger] users[i]).id <= max_id(
            users,
        ) by {
            if i < users.len() - 1 {
                assert(users.drop_last()[i] == users[i]);
            }
        }
    }
}

/// Adding a record under a username that is not in use keeps identifiers
/// and usernames distinct.
pub proof fn lemma_insert_keeps_distinct(users: Seq<UserView>, name: Seq<char>, password: Seq<u8>)
    requires
        distinct(users),
        first_by_username(users, name) is None,
    ensures
        distinct(users.push(new_record(users, name, password))),
{
    lemma_max_id_bounds(users);
    lemma_no_match(users, username_is(name));
}

/// The user records, in the order in which they were stored.
pub struct CredentialStore {
    users: Vec<User>,
}

impl View for CredentialStore {
    type V = Seq<UserView>;

    closed spec fn view(&self) -> Seq<UserView> {
        user_views(self.users@)
    }
}

impl CredentialStore {
    /// A store without users.
    pub fn new() -> (store: CredentialStore)
        ensures
            store@ == Seq::<UserView>::empty(),
            distinct(store@),
    {
        CredentialStore { users: Vec::new() }
    }

    /// A store of the given records, as they were read. Nothing is assumed
    /// of them.
    pub fn from_rows(rows: Vec<User>) -> (store: CredentialStore)
        ensures
            store@ == user_views(rows@),
    {
        CredentialStore { users: rows }
    }

    /// The records of the store, in its order.
    pub fn rows(&self) -> (rows: &Vec<User>)
        ensures
            user_views(rows@) == self@,
    {
        &self.users
    }

    /// The first record that carries `username`, compared letter for
    /// letter.
    pub fn find_by_username(&self, username: &str) -> (found: Option<&User>)
        ensures
            match found {
                Some(user) => first_by_username(self@, username@) == Some(user@),
                None => first_by_username(self@, username@) is None,
            },
    {
        let wanted: String = username.to_owned();
        let mut i: usize = 0;
        while i < self.users.len()
            invariant
                i <= self.users.len(),
                wanted@ == username@,
                self@.take(i as int).filter(username_is(username@)).len() == 0,
            decreases self.users.len() - i,
        {
            if self.users[i].username == wanted {
                proof {
                    lemma_first_match(self@, username_is(username@), i as int);
                }
                return Some(&self.users[i]);
            }
            proof {
                lemma_scan_step(self@, username_is(username@), i as int);
            }
            i += 1;
        }
        proof {
            lemma_scan_done(self@);
        }
        None
    }

    /// The last record that carries `username`, compared letter for letter.
    pub fn find_last_by_username(&self, username: &str) -> (found: Option<&User>)
        ensures
            match found {
                Some(user) => last_by_username(self@, username@) == Some(user@),
                None => last_by_username(self@, username@) is None,
            },
    {
        let wanted: String = username.to_owned();
        let ghost pred = username_is(username@);
        let mut found: Option<&User> = None;
        let mut i: usize = 0;
        while i < self.users.len()
            invariant
                i <= self.users.len(),
                wanted@ == username@,
                pred == username_is(username@),
                match found {
                    Some(user) => last_of(self@.take(i as int).filter(pred)) == Some(user@),
                    None => self@.take(i as int).filter(pred).len() == 0,
                },
            decreases self.users.len() - i,
        {
            proof {
                lemma_scan_step(self@, pred, i as int);
            }
            if self.users[i].username == wanted {
                found = Some(&self.users[i]);
            }
            i += 1;
        }
        proof {
            lemma_scan_done(self@);
        }
        found
    }

    /// The first record that has the identifier `id`.
    pub fn find_by_id(&self, id: i32) -> (found: Option<&User>)
        ensures
            match found {
                Some(user) => first_by_id(self@, id as int) == Some(user@),
                None => first_by_id(self@, id as int) is None,
            },
    {
        let mut i: usize = 0;
        while i < self.users.len()
            invariant
                i <= self.users.len(),
                self@.take(i as int).filter(id_is(id as int)).len() == 0,
            decreases self.users.len() - i,
        {
            if self.users[i].id == id {
                proof {
                    lemma_first_match(self@, id_is(id as int), i as int);
                }
                return Some(&self.users[i]);
            }
            proof {
                lemma_scan_step(self@, id_is(id as int), i as int);
            }
            i += 1;
        }
        proof {
            lemma_scan_done(self@);
        }
        None
    }

    /// The largest identifier in use, and zero when none is larger.
    pub fn largest_id(&self) -> (largest: i32)
        ensures
            largest == max_id(self@),
    {
        let mut largest: i32 = 0;
        let mut i: usize = 0;
        while i < self.users.len()
            invariant
                i <= self.users.len(),
                largest == max_id(self@.take(i as int)),
            decreases self.users.len() - i,
        {
            proof {
                self@.lemma_take_succ_push(i as int);
                assert(self@.take(i + 1).drop_last() =~= self@.take(i as int));
            }
            if self.users[i].id > largest {
                largest = self.users[i].id;
            }
            i += 1;
        }
        proof {
            lemma_scan_done(self@);
        }
        largest
    }

    /// Whether another record can still be given an identifier.
    pub fn has_room(&self) -> (room: bool)
        ensures
            room == has_room(self@),
    {
        self.largest_id() < i32::MAX
    }

    /// Stores a new user under the next identifier, with the ordinary
    /// privilege tier. A username that is in use is refused, and so is any
    /// user once the identifiers are used up; the store then stays as it
    /// was.
    pub fn insert(&mut self, new_user: NewUser) -> (outcome: Result<i32, CoreError>)
        ensures
            match outcome {
                Ok(id) => insert_outcome(old(self)@, new_user.username@) == Ok::<int, CoreError>(
                    id as int,
                ),
                Err(e) => insert_outcome(old(self)@, new_user.username@) == Err::<int, CoreError>(
                    e,
                ),
            },
            final(self)@ == after_insert(old(self)@, new_user.username@, new_user.password@),
            distinct(old(self)@) ==> distinct(final(self)@),
    {
        if self.find_by_username(new_user.username).is_some() {
            return Err(CoreError::Credential(CredentialError::UsernameTaken));
        }
        let largest = self.largest_id();
        if largest == i32::MAX {
            return Err(CoreError::PersistenceFailure);
        }
        let id = largest + 1;
        let user = User {
            id,
            username: new_user.username.to_owned(),
            password: slice_to_vec(new_user.password),
            privilege: Privilege::User.code(),
        };
        proof {
            if distinct(self@) {
                lemma_insert_keeps_distinct(self@, new_user.username@, new_user.password@);
            }
        }
        self.users.push(user);
        assert(self@ =~= old(self)@.push(
            new_record(old(self)@, new_user.username@, new_user.password@),
        ));
        Ok(id)
    }
}

} // verus!
