//! The session of one client agent during one request: the token it
//! carries, and the cookie changes that the response must convey.

use vstd::prelude::*;

verus! {

/// An opaque session token. It is bound to a user and carries nothing else.
#[derive(Clone, Copy, Debug, PartialEq, Eq, Structural)]
pub struct Token {
    user_id: i32,
}

impl View for Token {
    type V = int;

    /// The user that the token is bound to.
    closed spec fn view(&self) -> int {
        self.user_id as int
    }
}

impl Token {
    /// The token bound to `user_id`.
    pub fn bound_to(user_id: i32) -> (token: Token)
        ensures
            token@ == user_id,
    {
        Token { user_id }
    }

    /// The user that the token is bound to.
    pub fn user_id(&self) -> (user_id: i32)
        ensures
            user_id == self@,
    {
        self.user_id
    }
}

/// Tokens bound to the same user are the same token.
pub proof fn lemma_token_is_its_user(a: Token, b: Token)
    ensures
        a@ == b@ <==> a == b,
{
}

/// The user a token is bound to, if there is a token.
pub open spec fn bound_user(token: Option<Token>) -> Option<int> {
    match token {
        Some(token) => Some(token@),
        None => None,
    }
}

/// A change to the session cookie that the response conveys.
#[derive(Clone, Copy, Debug, PartialEq, Eq, Structural)]
pub enum CookieChange {
    /// Remove the session cookie.
    Remove,
    /// Write the session cookie with this token, in place of any other.
    Install(Token),
}

/// A cookie change, with the token taken as the user it is bound to.
pub enum Directive {
    Remove,
    Install(int),
}

impl View for CookieChange {
    type V = Directive;

    open spec fn view(&self) -> Directive {
        match *self {
            CookieChange::Remove => Directive::Remove,
            CookieChange::Install(token) => Directive::Install(token@),
        }
    }
}

/// The directives that a run of cookie changes stands for.
pub open spec fn directives_of(changes: Seq<CookieChange>) -> Seq<Directive> {
    changes.map_values(|change: CookieChange| change@)
}

/// What a client agent holds after it has applied `changes`, in order, to a
/// cookie jar that held `jar`. The session cookie has one slot, so the last
/// change decides.
pub open spec fn replay(jar: Option<int>, changes: Seq<Directive>) -> Option<int> {
    if changes.len() == 0 {
        jar
    } else {
        match changes[changes.len() - 1] {
            Directive::Remove => None,
            Directive::Install(user) => Some(user),
        }
    }
}

/// The session of a client agent in the course of a request.
pub struct SessionState {
    /// The user of the token that the request arrived with.
    pub carried: Option<int>,
    /// The user of the token that is live now.
    pub current: Option<int>,
    /// The cookie changes decided so far, oldest first.
    pub pending: Seq<Directive>,
}

impl SessionState {
    /// The state at the start of a request that arrived with `carried`.
    pub open spec fn arriving_with(carried: Option<int>) -> SessionState {
        SessionState { carried, current: carried, pending: Seq::empty() }
    }

    /// Whether the pending changes, applied to what the client agent sent,
    /// leave it with exactly the live token.
    pub open spec fn consistent(self) -> bool {
        replay(self.carried, self.pending) == self.current
    }

    /// The state after a token for `user` was issued: it supersedes any
    /// other.
    pub open spec fn issued(self, user: int) -> SessionState {
        SessionState {
            carried: self.carried,
            current: Some(user),
            pending: self.pending.push(Directive::Install(user)),
        }
    }

    /// The state after the live token, if any, was revoked.
    pub open spec fn revoked(self) -> SessionState {
        if self.current is Some {
            SessionState {
                carried: self.carried,
                current: None,
                pending: self.pending.push(Directive::Remove),
            }
        } else {
            self
        }
    }

    /// The state after the session was rotated to a new token for `user`:
    /// the live token is revoked, then the new one is issued.
    pub open spec fn refreshed(self, user: int) -> SessionState {
        self.revoked().issued(user)
    }
}

/// Issues, rotates and revokes the session token of one client agent. It
/// keeps no state beyond the request it serves.
pub struct SessionManager {
    carried: Option<Token>,
    current: Option<Token>,
    pending: Vec<CookieChange>,
}

impl View for SessionManager {
    type V = SessionState;

    closed spec fn view(&self) -> SessionState {
        SessionState {
            carried: bound_user(self.carried),
            current: bound_user(self.current),
            pending: directives_of(self.pending@),
        }
    }
}

impl SessionManager {
    /// The manager for a request that arrived with the token `carried`, or
    /// with none.
    pub fn new(carried: Option<Token>) -> (manager: SessionManager)
        ensures
            manager@ == SessionState::arriving_with(bound_user(carried)),
            manager@.consistent(),
    {
        let manager = SessionManager { carried, current: carried, pending: Vec::new() };
        assert(manager@.pending =~= Seq::<Directive>::empty());
        manager
    }

    /// The live token, if the client agent is authenticated.
    pub fn current(&self) -> (token: Option<Token>)
        ensures
            bound_user(token) == self@.current,
    {
        self.current
    }

    /// The cookie changes decided so far, oldest first.
    pub fn pending(&self) -> (changes: &Vec<CookieChange>)
        ensures
            directives_of(changes@) == self@.pending,
    {
        &self.pending
    }

    /// Mints a token bound to `user_id` and makes it the live one. Any token
    /// the client agent held is superseded by it.
    pub fn issue(&mut self, user_id: i32) -> (token: Token)
        ensures
            token@ == user_id,
            final(self)@ == old(self)@.issued(user_id as int),
            old(self)@.consistent() ==> final(self)@.consistent(),
    {
        let token = Token::bound_to(user_id);
        let ghost before = self@.pending;
        self.pending.push(CookieChange::Install(token));
        self.current = Some(token);
        assert(self@.pending =~= before.push(Directive::Install(user_id as int)));
        token
    }

    /// Removes the live token from the client agent. Without a live token
    /// this does nothing.
    pub fn revoke(&mut self)
        ensures
            final(self)@ == old(self)@.revoked(),
            final(self)@.current is None,
            old(self)@.consistent() ==> final(self)@.consistent(),
    {
        if self.current.is_some() {
            let ghost before = self@.pending;
            self.pending.push(CookieChange::Remove);
            self.current = None;
            assert(self@.pending =~= before.push(Directive::Remove));
        }
    }

    /// Rotates the session: revokes the live token, then issues a new one
    /// bound to `current_user_id`.
    pub fn refresh(&mut self, current_user_id: i32) -> (token: Token)
        ensures
            token@ == current_user_id,
            final(self)@ == old(self)@.refreshed(current_user_id as int),
            old(self)@.consistent() ==> final(self)@.consistent(),
    {
        self.revoke();
        self.issue(current_user_id)
    }
}

/// Revoking is idempotent: a second revocation changes nothing.
pub proof fn lemma_revoke_idempotent(state: SessionState)
    ensures
        state.revoked().current is None,
        state.revoked().revoked() == state.revoked(),
{
}

/// Every operation keeps the pending changes and the live token in step:
/// a client agent that applies the changes holds the live token and no
/// other.
pub proof fn lemma_operations_keep_consistency(state: SessionState, user: int)
    requires
        state.consistent(),
    ensures
        state.issued(user).consistent(),
        state.revoked().consistent(),
        state.refreshed(user).consistent(),
{
}

/// In a rotation the old token is withdrawn no later than the new one is
/// installed: where a token was live, the removal comes directly before the
/// installation, and the installation is the last change.
pub proof fn lemma_refresh_order(state: SessionState, user: int)
    ensures
        state.refreshed(user).current == Some(user),
        state.refreshed(user).pending.last() == Directive::Install(user),
        state.current is Some ==> state.refreshed(user).pending == state.pending.push(
            Directive::Remove,
        ).push(Directive::Install(user)),
        state.current is None ==> state.refreshed(user).pending == state.pending.push(
            Directive::Install(user),
        ),
{
}

} // verus!
