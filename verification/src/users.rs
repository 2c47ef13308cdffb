//! The operations offered at the boundary: login, logout, account
//! creation, session refresh, the administrator query, and the label sets
//! of a user.

use crate::catalog::{lemma_resolved_set_exists, resolve_uuid, views_of, LabelSetCatalog};
use crate::credentials::{
    after_insert, first_by_username, id_is, insert_outcome, last_by_username,
    lemma_max_id_bounds, new_record, username_is, CredentialStore,
};
use crate::errors::{AuthorizationFailure, CoreError, CredentialError, ResourceError};
use crate::gate::{capability, resolved_user, AuthorizationGate, Capability};
use crate::matching::lemma_all_fail;
use crate::models::{LabelSet, LabelSetView, NewUser, User, UserView};
use crate::password::{argon2id_accepts, verify_outcome, well_formed, PasswordHasher};
use crate::registry::{
    after_grant, after_revoke, grant_outcome, granted_sets, match_count, revoke_outcome,
    GrantOutcome, OwnershipRegistry, RevokeOutcome,
};
use crate::session::{replay, SessionManager, SessionState, Token};
use vstd::prelude::*;
use vstd::utf8::encode_utf8;

verus! {

/// The credentials that a client sends to log in or to create an account.
#[derive(Debug)]
pub struct Login {
    pub username: String,
    pub password: String,
}

/// The bytes of a password as they are hashed.
pub open spec fn password_bytes(password: Seq<char>) -> Seq<u8> {
    encode_utf8(password)
}

/// How a login ends, by the user that is logged in or the failure: the
/// username is looked up letter for letter, and the password is verified
/// against the hash of the first record that carries it.
pub open spec fn login_outcome(
    users: Seq<UserView>,
    ready: bool,
    username: Seq<char>,
    password: Seq<u8>,
) -> Result<int, CredentialError> {
    match first_by_username(users, username) {
        None => Err(CredentialError::UserNotFound),
        Some(user) => match verify_outcome(ready, user.password, password) {
            Err(e) => Err(e),
            Ok(false) => Err(CredentialError::IncorrectPassword),
            Ok(true) => Ok(user.id),
        },
    }
}

/// Logs a user in: on verified credentials a session is issued for the
/// user, and on any failure the session stays as it was.
pub fn login(
    store: &CredentialStore,
    hasher: &PasswordHasher,
    session: &mut SessionManager,
    data: &Login,
) -> (outcome: Result<Token, CredentialError>)
    ensures
        match outcome {
            Ok(token) => {
                &&& login_outcome(
                    store@,
                    hasher.ready(),
                    data.username@,
                    password_bytes(data.password@),
                ) == Ok::<int, CredentialError>(token@)
                &&& final(session)@ == old(session)@.issued(token@)
            },
            Err(e) => {
                &&& login_outcome(
                    store@,
                    hasher.ready(),
                    data.username@,
                    password_bytes(data.password@),
                ) == Err::<int, CredentialError>(e)
                &&& final(session)@ == old(session)@
            },
        },
{
    let user = match store.find_by_username(data.username.as_str()) {
        Some(user) => user,
        None => {
            return Err(CredentialError::UserNotFound);
        },
    };
    let matches = match hasher.verify(user.password.as_slice(), data.password.as_str().as_bytes()) {
        Ok(matches) => matches,
        Err(e) => {
            return Err(e);
        },
    };
    if !matches {
        return Err(CredentialError::IncorrectPassword);
    }
    Ok(session.issue(user.id))
}

/// Logs the client agent out. Without a session this does nothing.
pub fn logout(session: &mut SessionManager)
    ensures
        final(session)@ == old(session)@.revoked(),
        final(session)@.current is None,
{
    session.revoke();
}

/// Issues a session for the user that was stored last under `username`.
/// That no such record can be read is `PostInsertLookupFailure`, and the
/// session stays as it was.
pub fn open_session(store: &CredentialStore, session: &mut SessionManager, username: &str) -> (outcome:
    Result<Token, CoreError>)
    ensures
        match last_by_username(store@, username@) {
            Some(user) => {
                &&& outcome matches Ok(token)
                &&& token@ == user.id
                &&& final(session)@ == old(session)@.issued(user.id)
            },
            None => {
                &&& outcome == Err::<Token, CoreError>(CoreError::PostInsertLookupFailure)
                &&& final(session)@ == old(session)@
            },
        },
{
    match store.find_last_by_username(username) {
        Some(user) => Ok(session.issue(user.id)),
        None => Err(CoreError::PostInsertLookupFailure),
    }
}

/// Stores a new user with the given hash blob and issues a session for it.
/// When the store refuses the user, store and session stay as they were.
pub fn register(
    store: &mut CredentialStore,
    session: &mut SessionManager,
    username: &str,
    blob: &[u8],
) -> (outcome: Result<Token, CoreError>)
    ensures
        final(store)@ == after_insert(old(store)@, username@, blob@),
        match outcome {
            Ok(token) => {
                &&& insert_outcome(old(store)@, username@) == Ok::<int, CoreError>(token@)
                &&& final(session)@ == old(session)@.issued(token@)
            },
            Err(e) => {
                &&& insert_outcome(old(store)@, username@) == Err::<int, CoreError>(e)
                &&& final(session)@ == old(session)@
            },
        },
{
    match store.insert(NewUser { username, password: blob }) {
        Ok(_) => {
            proof {
                old(store)@.lemma_filter_push(
                    new_record(old(store)@, username@, blob@),
                    username_is(username@),
                );
            }
            open_session(store, session, username)
        },
        Err(e) => Err(e),
    }
}

/// Creates an account and logs it in. The password is hashed before
/// anything is stored; when that fails, or when the store refuses the
/// user, store and session stay as they were.
pub fn create(
    store: &mut CredentialStore,
    hasher: &PasswordHasher,
    session: &mut SessionManager,
    data: &Login,
) -> (outcome: Result<Token, CoreError>)
    ensures
        match outcome {
            Ok(token) => {
                let record = final(store)@.last();
                &&& hasher.ready()
                &&& insert_outcome(old(store)@, data.username@) is Ok
                &&& final(store)@ == old(store)@.push(record)
                &&& record == new_record(old(store)@, data.username@, record.password)
                &&& well_formed(record.password)
                &&& argon2id_accepts(record.password, password_bytes(data.password@))
                &&& token@ == record.id
                &&& final(session)@ == old(session)@.issued(record.id)
            },
            Err(e) => {
                &&& final(store)@ == old(store)@
                &&& final(session)@ == old(session)@
                &&& e == CoreError::Credential(CredentialError::HashingFailure)
                    || insert_outcome(old(store)@, data.username@) == Err::<int, CoreError>(e)
            },
        },
        !hasher.ready() ==> outcome == Err::<Token, CoreError>(
            CoreError::Credential(CredentialError::HashingFailure),
        ),
{
    let blob = match hasher.hash(data.password.as_str().as_bytes()) {
        Ok(blob) => blob,
        Err(e) => {
            return Err(CoreError::Credential(e));
        },
    };
    register(store, session, data.username.as_str(), blob.as_slice())
}

/// Rotates the session of a user whose session has been resolved.
pub fn refresh_session_user(user: &User, session: &mut SessionManager) -> (token: Token)
    ensures
        token@ == user@.id,
        final(session)@ == old(session)@.refreshed(user@.id),
{
    session.refresh(user.id)
}

/// Answers a refresh without a valid session: whatever token the client
/// agent held is removed, and the request is unauthorized.
pub fn refresh_session_loggedout(session: &mut SessionManager) -> (failure: AuthorizationFailure)
    ensures
        final(session)@ == old(session)@.revoked(),
        final(session)@.current is None,
{
    session.revoke();
    AuthorizationFailure
}

/// Refreshes the session: a live token that resolves to a user is rotated
/// for that user, and anything else is removed and refused.
pub fn refresh(store: &CredentialStore, session: &mut SessionManager) -> (outcome: Result<
    Token,
    AuthorizationFailure,
>)
    ensures
        match resolved_user(old(session)@.current, store@) {
            Some(user) => {
                &&& outcome matches Ok(token)
                &&& token@ == user.id
                &&& old(session)@.current == Some(user.id)
                &&& final(session)@ == old(session)@.refreshed(user.id)
            },
            None => {
                &&& outcome is Err
                &&& final(session)@ == old(session)@.revoked()
            },
        },
{
    match AuthorizationGate::resolve_user(session.current(), store) {
        Some(user) => Ok(refresh_session_user(user, session)),
        None => Err(refresh_session_loggedout(session)),
    }
}

/// The answer to "is this an administrator?" for each capability: yes, no,
/// or unauthorized.
pub open spec fn admin_answer(resolved: Capability) -> Result<bool, AuthorizationFailure> {
    match resolved {
        Capability::Administrator => Ok(true),
        Capability::Standard => Ok(false),
        Capability::Unauthenticated => Err(AuthorizationFailure),
    }
}

/// Whether the session belongs to an administrator; unauthorized without a
/// valid session.
pub fn is_admin(store: &CredentialStore, session: &SessionManager) -> (answer: Result<
    bool,
    AuthorizationFailure,
>)
    ensures
        answer == admin_answer(capability(session@.current, store@)),
{
    match AuthorizationGate::resolve(session.current(), store) {
        Capability::Administrator => Ok(true),
        Capability::Standard => Ok(false),
        Capability::Unauthenticated => Err(AuthorizationFailure),
    }
}

/// A label set as it is listed for its user.
#[derive(Debug)]
pub struct JsonUserLabelSets {
    pub name: String,
    pub id: i32,
    pub uuid: String,
}

impl From<LabelSet> for JsonUserLabelSets {
    fn from(set: LabelSet) -> (listed: Self) {
        Self { id: set.id, name: set.name, uuid: set.uuid }
    }
}

impl vstd::std_specs::convert::FromSpecImpl<LabelSet> for JsonUserLabelSets {
    open spec fn obeys_from_spec() -> bool {
        true
    }

    open spec fn from_spec(set: LabelSet) -> Self {
        Self { id: set.id, name: set.name, uuid: set.uuid }
    }
}

/// The mathematical content of a [`JsonUserLabelSets`].
pub struct ListedSet {
    pub name: Seq<char>,
    pub id: int,
    pub uuid: Seq<char>,
}

impl View for JsonUserLabelSets {
    type V = ListedSet;

    open spec fn view(&self) -> ListedSet {
        ListedSet { name: self.name@, id: self.id as int, uuid: self.uuid@ }
    }
}

/// A label set as it is listed: its name, identifier and external
/// identifier.
pub open spec fn listed(set: LabelSetView) -> ListedSet {
    ListedSet { name: set.name, id: set.id, uuid: set.uuid }
}

/// The views of a run of listed label sets.
pub open spec fn listed_views(sets: Seq<JsonUserLabelSets>) -> Seq<ListedSet> {
    sets.map_values(|set: JsonUserLabelSets| set@)
}

/// Grants the label set with the external identifier `uuid` to `user`.
pub fn add_labelset(
    registry: &mut OwnershipRegistry,
    catalog: &LabelSetCatalog,
    uuid: &str,
    user: &User,
) -> (outcome: GrantOutcome)
    ensures
        match resolve_uuid(catalog@, uuid@) {
            Some(set) => {
                &&& outcome == grant_outcome(old(registry)@, catalog@, user@.id, set.id)
                &&& outcome != GrantOutcome::ResourceNotFound
                &&& final(registry)@ == after_grant(old(registry)@, catalog@, user@.id, set.id)
            },
            None => {
                &&& outcome == GrantOutcome::ResourceNotFound
                &&& final(registry)@ == old(registry)@
            },
        },
{
    match catalog.find_by_uuid(uuid) {
        Some(set) => {
            proof {
                lemma_resolved_set_exists(catalog@, uuid@);
            }
            registry.grant(user.id, set.id, catalog)
        },
        None => GrantOutcome::ResourceNotFound,
    }
}

/// Revokes the grant of the label set with the external identifier `uuid`
/// from `user`. An unknown label set is `ResourceNotFound`; a broken
/// uniqueness invariant is reported as a failure, after the matching rows
/// have been removed.
pub fn delete_labelset(
    registry: &mut OwnershipRegistry,
    catalog: &LabelSetCatalog,
    uuid: &str,
    user: &User,
) -> (outcome: Result<RevokeOutcome, CoreError>)
    ensures
        match resolve_uuid(catalog@, uuid@) {
            Some(set) => {
                &&& outcome == revoke_outcome(
                    match_count(old(registry)@, user@.id, set.id),
                ).spec_settled()
                &&& final(registry)@ == after_revoke(old(registry)@, user@.id, set.id)
            },
            None => {
                &&& outcome == Err::<RevokeOutcome, CoreError>(
                    CoreError::Resource(ResourceError::ResourceNotFound),
                )
                &&& final(registry)@ == old(registry)@
            },
        },
{
    match catalog.find_by_uuid(uuid) {
        Some(set) => registry.revoke(user.id, set.id).settled(),
        None => Err(CoreError::Resource(ResourceError::ResourceNotFound)),
    }
}

/// Lists the label sets that are granted to `user`, each once, in the
/// catalog's order.
pub fn get_labelsets(registry: &OwnershipRegistry, catalog: &LabelSetCatalog, user: &User) -> (listing:
    Vec<JsonUserLabelSets>)
    ensures
        listed_views(listing@) == granted_sets(registry@, catalog@, user@.id).map_values(
            |set: LabelSetView| listed(set),
        ),
{
    let sets = registry.list_for_user(user.id, catalog);
    let ghost granted = granted_sets(registry@, catalog@, user@.id);
    let ghost to_listed = |set: LabelSetView| listed(set);
    let ghost all = sets@;
    let mut listing: Vec<JsonUserLabelSets> = Vec::new();
    for set in iter: sets
        invariant
            iter.seq() == all,
            views_of(all) == granted,
            to_listed == (|set: LabelSetView| listed(set)),
            listed_views(listing@) == granted.take(iter.index() as int).map_values(to_listed),
    {
        listing.push(JsonUserLabelSets::from(set));
        assert(granted.take(iter.index() + 1).map_values(to_listed) =~= granted.take(
            iter.index() as int,
        ).map_values(to_listed).push(listed(granted[iter.index() as int])));
    }
    listing
}

/// An account that was just created can log in. After a user was stored
/// under a free username with a hash blob made from a password, a login
/// with that username and password succeeds for the new user, and the
/// session it yields resolves to the new record.
pub proof fn lemma_login_after_create(
    users: Seq<UserView>,
    username: Seq<char>,
    password: Seq<u8>,
    blob: Seq<u8>,
)
    requires
        first_by_username(users, username) is None,
        well_formed(blob),
        argon2id_accepts(blob, password),
    ensures
        ({
            let record = new_record(users, username, blob);
            let after = users.push(record);
            &&& login_outcome(after, true, username, password) == Ok::<int, CredentialError>(
                record.id,
            )
            &&& resolved_user(Some(record.id), after) == Some(record)
            &&& capability(Some(record.id), after) == Capability::Standard
        }),
{
    let record = new_record(users, username, blob);
    users.lemma_filter_push(record, username_is(username));
    lemma_max_id_bounds(users);
    assert forall|i: int| 0 <= i < users.len() implies !id_is(record.id)(#[trigger] users[i]) by {}
    lemma_all_fail(users, id_is(record.id));
    users.lemma_filter_push(record, id_is(record.id));
}

/// A login under a username that exists never ends in `UserNotFound`,
/// whatever the password and whatever the state of the hasher.
pub proof fn lemma_known_user_is_found(
    users: Seq<UserView>,
    ready: bool,
    username: Seq<char>,
    password: Seq<u8>,
)
    requires
        first_by_username(users, username) is Some,
    ensures
        login_outcome(users, ready, username, password) != Err::<int, CredentialError>(
            CredentialError::UserNotFound,
        ),
{
}

/// A login with a password that the stored hash does not accept ends in
/// `IncorrectPassword`, given a hasher that is ready and a stored hash that
/// is well formed.
pub proof fn lemma_wrong_password_is_refused(
    users: Seq<UserView>,
    username: Seq<char>,
    password: Seq<u8>,
)
    requires
        first_by_username(users, username) matches Some(user) && well_formed(user.password)
            && !argon2id_accepts(user.password, password),
    ensures
        login_outcome(users, true, username, password) == Err::<int, CredentialError>(
            CredentialError::IncorrectPassword,
        ),
{
}

/// A rotation withdraws the token that was live before it installs the new
/// one. In between the client agent holds no token, which is
/// `Unauthenticated` whatever the store holds; afterwards it holds the new
/// token and no other.
pub proof fn lemma_refresh_withdraws_first(state: SessionState, user: int, users: Seq<UserView>)
    ensures
        state.refreshed(user) == state.revoked().issued(user),
        state.revoked().current is None,
        capability(state.revoked().current, users) == Capability::Unauthenticated,
        state.refreshed(user).current == Some(user),
        state.consistent() ==> replay(
            state.carried,
            state.refreshed(user).pending,
        ) == Some(user),
{
}

} // verus!
