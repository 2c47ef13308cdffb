use session_auth::cookie::SESSION_COOKIE;
use session_auth::credentials::CredentialStore;
use session_auth::errors::AuthorizationFailure;
use session_auth::gate::{AuthorizationGate, Capability, Requirement};
use session_auth::models::{Privilege, User};
use session_auth::session::{CookieChange, SessionManager, Token};
use session_auth::users::{is_admin, refresh, refresh_session_loggedout, refresh_session_user};

fn user(id: i32, username: &str, privilege: i32) -> User {
    User { id, username: username.to_string(), password: vec![], privilege }
}

fn store() -> CredentialStore {
    CredentialStore::from_rows(vec![user(1, "root", 1), user(2, "alice", 0), user(3, "odd", 7)])
}

#[test]
fn issue_binds_the_token_to_the_user_and_supersedes() {
    let mut session = SessionManager::new(None);
    assert_eq!(session.current(), None);
    let first = session.issue(4);
    assert_eq!(first.user_id(), 4);
    assert_eq!(first, Token::bound_to(4));
    assert_eq!(session.current(), Some(first));
    let second = session.issue(-9);
    assert_eq!(second.user_id(), -9);
    assert_eq!(session.current(), Some(second));
    assert_eq!(
        session.pending().as_slice(),
        [CookieChange::Install(first), CookieChange::Install(second)].as_slice()
    );
}

#[test]
fn revoke_is_idempotent() {
    let mut session = SessionManager::new(Some(Token::bound_to(4)));
    assert_eq!(session.current(), Some(Token::bound_to(4)));
    assert!(session.pending().is_empty());
    session.revoke();
    session.revoke();
    assert_eq!(session.current(), None);
    assert_eq!(session.pending().as_slice(), [CookieChange::Remove].as_slice());
}

#[test]
fn refresh_removes_the_old_token_before_it_installs_the_new() {
    let old = Token::bound_to(2);
    let mut session = SessionManager::new(Some(old));
    let new = session.refresh(2);
    assert_eq!(new.user_id(), 2);
    assert_eq!(session.current(), Some(new));
    assert_eq!(
        session.pending().as_slice(),
        [CookieChange::Remove, CookieChange::Install(new)].as_slice()
    );

    let mut anonymous = SessionManager::new(None);
    let token = anonymous.refresh(5);
    assert_eq!(anonymous.current(), Some(token));
    assert_eq!(anonymous.pending().as_slice(), [CookieChange::Install(token)].as_slice());
}

#[test]
fn refresh_rotates_a_session_that_resolves() {
    let store = store();
    let mut session = SessionManager::new(Some(Token::bound_to(2)));
    let token = refresh(&store, &mut session).unwrap();
    assert_eq!(token.user_id(), 2);
    assert_eq!(session.current(), Some(token));
    assert_eq!(session.pending().len(), 2);

    let alice = user(2, "alice", 0);
    let mut direct = SessionManager::new(Some(Token::bound_to(2)));
    assert_eq!(refresh_session_user(&alice, &mut direct), token);
    assert_eq!(direct.pending().as_slice(), session.pending().as_slice());
}

#[test]
fn refresh_without_a_valid_session_removes_the_token() {
    let store = store();
    let mut stale = SessionManager::new(Some(Token::bound_to(99)));
    assert_eq!(refresh(&store, &mut stale), Err(AuthorizationFailure));
    assert_eq!(stale.current(), None);
    assert_eq!(stale.pending().as_slice(), [CookieChange::Remove].as_slice());
    assert_eq!(AuthorizationGate::resolve(stale.current(), &store), Capability::Unauthenticated);

    let mut anonymous = SessionManager::new(None);
    assert_eq!(refresh(&store, &mut anonymous), Err(AuthorizationFailure));
    assert!(anonymous.pending().is_empty());

    let mut direct = SessionManager::new(Some(Token::bound_to(2)));
    assert_eq!(refresh_session_loggedout(&mut direct), AuthorizationFailure);
    assert_eq!(direct.current(), None);
}

#[test]
fn gate_resolves_by_privilege_tier() {
    let store = store();
    assert_eq!(AuthorizationGate::resolve(Some(Token::bound_to(1)), &store), Capability::Administrator);
    assert_eq!(AuthorizationGate::resolve(Some(Token::bound_to(2)), &store), Capability::Standard);
    assert_eq!(AuthorizationGate::resolve(Some(Token::bound_to(3)), &store), Capability::Standard);
    assert_eq!(AuthorizationGate::resolve(Some(Token::bound_to(4)), &store), Capability::Unauthenticated);
    assert_eq!(AuthorizationGate::resolve(None, &store), Capability::Unauthenticated);
    assert_eq!(AuthorizationGate::resolve_user(Some(Token::bound_to(2)), &store).unwrap().username, "alice");
    assert!(AuthorizationGate::resolve_user(Some(Token::bound_to(0)), &store).is_none());
    assert!(AuthorizationGate::resolve_user(None, &store).is_none());
}

#[test]
fn gate_checks_the_requirement() {
    let table = [
        (Capability::Administrator, Requirement::Administrator, true),
        (Capability::Administrator, Requirement::AnyAuthenticated, true),
        (Capability::Administrator, Requirement::Public, true),
        (Capability::Standard, Requirement::Administrator, false),
        (Capability::Standard, Requirement::AnyAuthenticated, true),
        (Capability::Standard, Requirement::Public, true),
        (Capability::Unauthenticated, Requirement::Administrator, false),
        (Capability::Unauthenticated, Requirement::AnyAuthenticated, false),
        (Capability::Unauthenticated, Requirement::Public, true),
    ];
    for (capability, requirement, passes) in table {
        let verdict = AuthorizationGate::check(capability, requirement);
        assert_eq!(verdict, if passes { Ok(()) } else { Err(AuthorizationFailure) });
    }
    let store = store();
    assert_eq!(
        AuthorizationGate::authorize(Some(Token::bound_to(1)), &store, Requirement::Administrator),
        Ok(Capability::Administrator)
    );
    assert_eq!(
        AuthorizationGate::authorize(Some(Token::bound_to(2)), &store, Requirement::Administrator),
        Err(AuthorizationFailure)
    );
    assert_eq!(
        AuthorizationGate::authorize(None, &store, Requirement::Public),
        Ok(Capability::Unauthenticated)
    );
}

#[test]
fn is_admin_has_three_answers() {
    let store = store();
    assert_eq!(is_admin(&store, &SessionManager::new(Some(Token::bound_to(1)))), Ok(true));
    assert_eq!(is_admin(&store, &SessionManager::new(Some(Token::bound_to(2)))), Ok(false));
    assert_eq!(is_admin(&store, &SessionManager::new(Some(Token::bound_to(9)))), Err(AuthorizationFailure));
    assert_eq!(is_admin(&store, &SessionManager::new(None)), Err(AuthorizationFailure));
}

#[test]
fn privilege_codes() {
    assert_eq!(Privilege::User.code(), 0);
    assert_eq!(Privilege::Administrator.code(), 1);
    assert_eq!(Privilege::of_code(1), Privilege::Administrator);
    assert_eq!(Privilege::of_code(0), Privilege::User);
    assert_eq!(Privilege::of_code(2), Privilege::User);
    assert_eq!(Privilege::of_code(-1), Privilege::User);
}

#[test]
fn token_text_is_the_decimal_identifier() {
    assert_eq!(SESSION_COOKIE, "user_id");
    for (id, text) in [
        (0, "0"),
        (7, "7"),
        (10, "10"),
        (42, "42"),
        (1905, "1905"),
        (-1, "-1"),
        (-120, "-120"),
        (i32::MAX, "2147483647"),
        (i32::MIN, "-2147483648"),
    ] {
        assert_eq!(Token::bound_to(id).value(), text);
        assert_eq!(Token::from_value(text), Some(Token::bound_to(id)));
    }
}

#[test]
fn token_text_round_trips() {
    for id in (-1100..1100).chain([i32::MIN, i32::MIN + 1, i32::MAX - 1, i32::MAX, 99_999, -100_000]) {
        let token = Token::bound_to(id);
        assert_eq!(token.value(), id.to_string());
        assert_eq!(Token::from_value(&token.value()), Some(token));
    }
}

#[test]
fn text_of_no_token_is_refused() {
    for text in [
        "", "-", "+5", "05", "007", "-0", "-05", "--5", "5-", " 5", "5 ", "1a", "a", "1.0",
        "2147483648", "-2147483649", "99999999999999999999999", "0x10", "١٢", "1_000", "−5",
    ] {
        assert_eq!(Token::from_value(text), None, "{:?}", text);
    }
}
