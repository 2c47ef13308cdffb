use session_auth::credentials::CredentialStore;
use session_auth::errors::{CoreError, CredentialError};
use session_auth::gate::{AuthorizationGate, Capability};
use session_auth::models::{NewUser, User};
use session_auth::password::{
    is_terminated, starts_like_blob, PasswordHasher, BLOB_PREFIX, BLOB_PREFIX_LEN, HASH_BLOB_LEN,
};
use session_auth::session::{CookieChange, SessionManager, Token};
use session_auth::users::{create, login, logout, open_session, register, Login};
use sodiumoxide::crypto::pwhash::argon2id13;

fn credentials(username: &str, password: &str) -> Login {
    Login { username: username.to_string(), password: password.to_string() }
}

fn user(id: i32, username: &str, password: Vec<u8>, privilege: i32) -> User {
    User { id, username: username.to_string(), password, privilege }
}

#[test]
fn hash_then_verify_accepts_the_same_password() {
    let hasher = PasswordHasher::new();
    assert!(hasher.is_ready());
    for password in ["correct-horse", "", "pässwörd", "a\0b"] {
        let blob = hasher.hash(password.as_bytes()).unwrap();
        assert_eq!(blob.len(), HASH_BLOB_LEN);
        assert_eq!(hasher.verify(&blob, password.as_bytes()), Ok(true));
    }
}

#[test]
fn verify_rejects_another_password() {
    let hasher = PasswordHasher::new();
    let blob = hasher.hash(b"correct-horse").unwrap();
    assert_eq!(hasher.verify(&blob, b"wrong"), Ok(false));
    assert_eq!(hasher.verify(&blob, b"correct-horse "), Ok(false));
    assert_eq!(hasher.verify(&blob, b""), Ok(false));
}

#[test]
fn hash_blob_is_a_salted_argon2id_string() {
    let hasher = PasswordHasher::new();
    let first = hasher.hash(b"correct-horse").unwrap();
    let second = hasher.hash(b"correct-horse").unwrap();
    assert!(first.starts_with(b"$argon2id$"));
    assert_ne!(first.as_slice(), b"correct-horse".as_slice());
    assert_ne!(first, second);
    assert_eq!(hasher.verify(&second, b"correct-horse"), Ok(true));
}

fn padded(text: &[u8], fill: u8, len: usize) -> Vec<u8> {
    let mut blob = text.to_vec();
    blob.resize(len, fill);
    blob
}

#[test]
fn verify_tells_a_corrupt_hash_from_a_mismatch() {
    let hasher = PasswordHasher::new();
    assert_eq!(hasher.verify(b"", b"pw"), Err(CredentialError::CorruptHash));
    assert_eq!(hasher.verify(&[0u8; 127], b"pw"), Err(CredentialError::CorruptHash));
    assert_eq!(hasher.verify(&[0u8; 129], b"pw"), Err(CredentialError::CorruptHash));
    assert_eq!(hasher.verify(&[0u8; 128], b"pw"), Err(CredentialError::CorruptHash));
    assert_eq!(hasher.verify(&[b'x'; 128], b"pw"), Err(CredentialError::CorruptHash));
    assert_eq!(
        hasher.verify(&padded(b"$argon2id$", b'x', 128), b"pw"),
        Err(CredentialError::CorruptHash)
    );
    assert_eq!(
        hasher.verify(&padded(b"$argon2i$v=19$m=8,t=1,p=1$c2FsdHNhbHQ$aGFzaA", 0, 128), b"pw"),
        Err(CredentialError::CorruptHash)
    );
    assert_eq!(hasher.verify(&padded(b"$argon2id$", 0, 127), b"pw"), Err(CredentialError::CorruptHash));
    assert_eq!(hasher.verify(&padded(b"$argon2id$", 0, 128), b"pw"), Ok(false));
    assert_eq!(hasher.verify(&padded(b"$argon2id$v=19$garbage", 0, 128), b"pw"), Ok(false));

    let good = hasher.hash(b"pw").unwrap();
    assert_eq!(hasher.verify(&good, b"pw"), Ok(true));
    assert_eq!(hasher.verify(&good[..127], b"pw"), Err(CredentialError::CorruptHash));
    let mut other_kind = good.clone();
    other_kind[8] = b'x';
    assert_eq!(hasher.verify(&other_kind, b"pw"), Err(CredentialError::CorruptHash));
    let mut other_digest = good.clone();
    let end = other_digest.iter().position(|b| *b == 0).unwrap();
    other_digest[end - 1] = if other_digest[end - 1] == b'A' { b'B' } else { b'A' };
    assert_eq!(hasher.verify(&other_digest, b"pw"), Ok(false));
}

#[test]
fn blob_prefix_is_that_of_the_primitive() {
    assert_eq!(HASH_BLOB_LEN, argon2id13::HASHEDPASSWORDBYTES);
    assert_eq!(BLOB_PREFIX_LEN, BLOB_PREFIX.len());
    assert_eq!(BLOB_PREFIX.as_slice(), b"$argon2id$".as_slice());
    assert_eq!(BLOB_PREFIX.as_slice(), &argon2id13::STRPREFIX[..BLOB_PREFIX_LEN]);
    assert!(starts_like_blob(b"$argon2id$"));
    assert!(starts_like_blob(b"$argon2id$v=19"));
    assert!(!starts_like_blob(b"$argon2id"));
    assert!(!starts_like_blob(b"$argon2i$v=19$"));
    assert!(!starts_like_blob(b""));
    assert!(is_terminated(b"abc\0"));
    assert!(is_terminated(b"\0abc"));
    assert!(!is_terminated(b"abc"));
    assert!(!is_terminated(b""));
}

#[test]
fn unavailable_hasher_reports_hashing_failure() {
    let hasher = PasswordHasher::unavailable();
    assert!(!hasher.is_ready());
    assert_eq!(hasher.hash(b"pw"), Err(CredentialError::HashingFailure));
    assert_eq!(hasher.verify(&[0u8; 128], b"pw"), Err(CredentialError::HashingFailure));
    assert_eq!(hasher.verify(b"short", b"pw"), Err(CredentialError::HashingFailure));
    assert_eq!(PasswordHasher::new().hash(b"pw").map(|blob| is_terminated(&blob)), Ok(true));
}

#[test]
fn store_assigns_the_next_identifier() {
    let mut store = CredentialStore::new();
    assert_eq!(store.largest_id(), 0);
    assert!(store.has_room());
    assert_eq!(store.insert(NewUser { username: "alice", password: b"a" }), Ok(1));
    assert_eq!(store.insert(NewUser { username: "bob", password: b"b" }), Ok(2));
    assert_eq!(store.largest_id(), 2);
    let bob = store.find_by_username("bob").unwrap();
    assert_eq!((bob.id, bob.password.as_slice(), bob.privilege), (2, b"b".as_slice(), 0));
    assert_eq!(store.find_by_id(1).unwrap().username, "alice");
    assert!(store.find_by_id(3).is_none());
    assert!(store.find_by_username("Alice").is_none());

    let mut sparse = CredentialStore::from_rows(vec![
        user(7, "x", vec![], 0),
        user(-3, "y", vec![], 0),
        user(4, "z", vec![], 0),
    ]);
    assert_eq!(sparse.largest_id(), 7);
    assert_eq!(sparse.insert(NewUser { username: "w", password: b"" }), Ok(8));
    assert_eq!(sparse.rows().len(), 4);

    let negative = CredentialStore::from_rows(vec![user(-5, "n", vec![], 0)]);
    assert_eq!(negative.largest_id(), 0);

    let full = CredentialStore::from_rows(vec![user(i32::MAX, "last", vec![], 0)]);
    assert!(!full.has_room());
}

#[test]
fn store_without_identifiers_left_refuses_new_users() {
    let mut full = CredentialStore::from_rows(vec![user(i32::MAX, "last", vec![], 0)]);
    assert_eq!(
        full.insert(NewUser { username: "next", password: b"" }),
        Err(CoreError::PersistenceFailure)
    );
    assert_eq!(
        full.insert(NewUser { username: "last", password: b"" }),
        Err(CoreError::Credential(CredentialError::UsernameTaken))
    );
    let mut session = SessionManager::new(None);
    assert_eq!(
        register(&mut full, &mut session, "next", b"blob"),
        Err(CoreError::PersistenceFailure)
    );
    assert_eq!(
        create(&mut full, &PasswordHasher::new(), &mut session, &credentials("next", "pw")),
        Err(CoreError::PersistenceFailure)
    );
    assert_eq!(full.rows().len(), 1);
    assert_eq!(session.current(), None);
    assert!(session.pending().is_empty());

    let mut almost = CredentialStore::from_rows(vec![user(i32::MAX - 1, "a", vec![], 0)]);
    assert!(almost.has_room());
    assert_eq!(almost.insert(NewUser { username: "b", password: b"" }), Ok(i32::MAX));
    assert!(!almost.has_room());
}

#[test]
fn store_refuses_a_username_in_use() {
    let mut store = CredentialStore::new();
    assert_eq!(store.insert(NewUser { username: "alice", password: b"a" }), Ok(1));
    assert_eq!(
        store.insert(NewUser { username: "alice", password: b"other" }),
        Err(CoreError::Credential(CredentialError::UsernameTaken))
    );
    assert_eq!(store.rows().len(), 1);
    assert_eq!(store.find_by_username("alice").unwrap().password, b"a".to_vec());
}

#[test]
fn store_finds_first_and_last_of_equal_usernames() {
    let store = CredentialStore::from_rows(vec![
        user(1, "dup", vec![1], 0),
        user(2, "other", vec![2], 0),
        user(3, "dup", vec![3], 0),
    ]);
    assert_eq!(store.find_by_username("dup").unwrap().id, 1);
    assert_eq!(store.find_last_by_username("dup").unwrap().id, 3);
    assert_eq!(store.find_last_by_username("other").unwrap().id, 2);
    assert!(store.find_last_by_username("none").is_none());
}

#[test]
fn create_then_login_resolves_to_the_same_user() {
    let hasher = PasswordHasher::new();
    let mut store = CredentialStore::new();
    for (n, (name, password)) in [("alice", "correct-horse"), ("bob", ""), ("zoë", "pä ss")]
        .into_iter()
        .enumerate()
    {
        let mut session = SessionManager::new(None);
        let created = create(&mut store, &hasher, &mut session, &credentials(name, password))
            .unwrap();
        assert_eq!(created.user_id(), n as i32 + 1);
        assert_eq!(session.current(), Some(created));

        let mut later = SessionManager::new(None);
        let token = login(&store, &hasher, &mut later, &credentials(name, password)).unwrap();
        assert_eq!(token, created);
        assert_eq!(later.current(), Some(token));
        let resolved = AuthorizationGate::resolve_user(later.current(), &store).unwrap();
        assert_eq!(resolved.id, created.user_id());
        assert_eq!(resolved.username, name);
        assert_eq!(AuthorizationGate::resolve(later.current(), &store), Capability::Standard);
    }
}

#[test]
fn login_with_wrong_password_is_incorrect_password() {
    let hasher = PasswordHasher::new();
    let mut store = CredentialStore::new();
    let mut session = SessionManager::new(None);
    create(&mut store, &hasher, &mut session, &credentials("alice", "correct-horse")).unwrap();

    let mut attempt = SessionManager::new(None);
    assert_eq!(
        login(&store, &hasher, &mut attempt, &credentials("alice", "wrong")),
        Err(CredentialError::IncorrectPassword)
    );
    assert_eq!(attempt.current(), None);
    assert!(attempt.pending().is_empty());
}

#[test]
fn login_with_unknown_username_is_user_not_found() {
    let hasher = PasswordHasher::new();
    let mut store = CredentialStore::new();
    let mut session = SessionManager::new(None);
    create(&mut store, &hasher, &mut session, &credentials("alice", "correct-horse")).unwrap();

    let carried = Token::bound_to(9);
    let mut attempt = SessionManager::new(Some(carried));
    assert_eq!(
        login(&store, &hasher, &mut attempt, &credentials("Alice", "correct-horse")),
        Err(CredentialError::UserNotFound)
    );
    assert_eq!(
        login(&store, &PasswordHasher::unavailable(), &mut attempt, &credentials("x", "y")),
        Err(CredentialError::UserNotFound)
    );
    assert_eq!(attempt.current(), Some(carried));
    assert!(attempt.pending().is_empty());
}

#[test]
fn login_reports_a_corrupt_hash() {
    let hasher = PasswordHasher::new();
    let store = CredentialStore::from_rows(vec![user(1, "alice", b"not a hash".to_vec(), 0)]);
    let mut session = SessionManager::new(None);
    assert_eq!(
        login(&store, &hasher, &mut session, &credentials("alice", "correct-horse")),
        Err(CredentialError::CorruptHash)
    );
    assert_eq!(session.current(), None);
}

#[test]
fn login_without_a_ready_hasher_is_hashing_failure() {
    let blob = PasswordHasher::new().hash(b"correct-horse").unwrap();
    let store = CredentialStore::from_rows(vec![user(1, "alice", blob, 0)]);
    let mut session = SessionManager::new(None);
    assert_eq!(
        login(&store, &PasswordHasher::unavailable(), &mut session, &credentials("alice", "correct-horse")),
        Err(CredentialError::HashingFailure)
    );
    assert_eq!(session.current(), None);
}

#[test]
fn login_supersedes_the_carried_token() {
    let hasher = PasswordHasher::new();
    let blob = hasher.hash(b"pw").unwrap();
    let store = CredentialStore::from_rows(vec![user(5, "alice", blob, 0)]);
    let mut session = SessionManager::new(Some(Token::bound_to(2)));
    let token = login(&store, &hasher, &mut session, &credentials("alice", "pw")).unwrap();
    assert_eq!(token.user_id(), 5);
    assert_eq!(session.current(), Some(token));
    assert_eq!(session.pending().as_slice(), [CookieChange::Install(token)].as_slice());
}

#[test]
fn create_refuses_a_taken_username_and_changes_nothing() {
    let hasher = PasswordHasher::new();
    let mut store = CredentialStore::new();
    let mut session = SessionManager::new(None);
    create(&mut store, &hasher, &mut session, &credentials("alice", "one")).unwrap();

    let mut second = SessionManager::new(None);
    assert_eq!(
        create(&mut store, &hasher, &mut second, &credentials("alice", "two")),
        Err(CoreError::Credential(CredentialError::UsernameTaken))
    );
    assert_eq!(store.rows().len(), 1);
    assert_eq!(second.current(), None);
    assert!(second.pending().is_empty());
    let mut check = SessionManager::new(None);
    assert!(login(&store, &hasher, &mut check, &credentials("alice", "one")).is_ok());
}

#[test]
fn create_without_a_ready_hasher_stores_nothing() {
    let mut store = CredentialStore::new();
    let mut session = SessionManager::new(None);
    assert_eq!(
        create(&mut store, &PasswordHasher::unavailable(), &mut session, &credentials("alice", "pw")),
        Err(CoreError::Credential(CredentialError::HashingFailure))
    );
    assert!(store.rows().is_empty());
    assert_eq!(session.current(), None);
}

#[test]
fn register_stores_the_blob_and_issues_a_session() {
    let mut store = CredentialStore::from_rows(vec![user(10, "old", vec![], 1)]);
    let mut session = SessionManager::new(None);
    let token = register(&mut store, &mut session, "new", b"blob").unwrap();
    assert_eq!(token.user_id(), 11);
    let stored = store.find_by_id(11).unwrap();
    assert_eq!(stored.username, "new");
    assert_eq!(stored.password, b"blob".to_vec());
    assert_eq!(stored.privilege, 0);
    assert_eq!(session.current(), Some(token));
    assert_eq!(
        register(&mut store, &mut session, "old", b"blob"),
        Err(CoreError::Credential(CredentialError::UsernameTaken))
    );
    assert_eq!(store.rows().len(), 2);
}

#[test]
fn open_session_takes_the_last_record_or_fails() {
    let store = CredentialStore::from_rows(vec![
        user(1, "dup", vec![], 0),
        user(2, "dup", vec![], 0),
    ]);
    let mut session = SessionManager::new(None);
    assert_eq!(open_session(&store, &mut session, "dup"), Ok(Token::bound_to(2)));
    assert_eq!(session.current(), Some(Token::bound_to(2)));

    let mut other = SessionManager::new(None);
    assert_eq!(
        open_session(&store, &mut other, "missing"),
        Err(CoreError::PostInsertLookupFailure)
    );
    assert_eq!(other.current(), None);
    assert!(other.pending().is_empty());
}

#[test]
fn logout_removes_the_session_and_is_idempotent() {
    let mut session = SessionManager::new(Some(Token::bound_to(3)));
    logout(&mut session);
    assert_eq!(session.current(), None);
    assert_eq!(session.pending().as_slice(), [CookieChange::Remove].as_slice());
    logout(&mut session);
    assert_eq!(session.current(), None);
    assert_eq!(session.pending().len(), 1);

    let mut anonymous = SessionManager::new(None);
    logout(&mut anonymous);
    assert_eq!(anonymous.current(), None);
    assert!(anonymous.pending().is_empty());
}
