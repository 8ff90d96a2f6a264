//! What the authenticator remembers, and what each request makes of it.

use vstd::prelude::*;

#[allow(unused_imports)]
use crate::change::ChangeView;
#[allow(unused_imports)]
use crate::credentials::{is_second_factor, CredentialsView, SecondFactor};
#[allow(unused_imports)]
use crate::policy::{fresh, LOGIN_ATTEMPT_WINDOW, MAX_LOGIN_ATTEMPTS, PENDING_2FA_LIFETIME, SESSION_LIFETIME};
#[allow(unused_imports)]
use crate::table::swept;
use crate::table::Dated;

verus! {

/// The failed logins of one client.
#[derive(Clone, Copy, Debug)]
pub struct Attempts {
    /// How many there were.
    pub count: u32,
    /// When the first of them was.
    pub first: u128,
}

impl Dated for Attempts {
    open spec fn date(self) -> u128 {
        self.first
    }

    fn since(&self) -> (t: u128) {
        self.first
    }
}

/// What came of a login.
#[derive(Debug)]
pub enum LoginOutcome {
    /// The client is in: the token of its new session.
    Success(String),
    /// The password was right, but a second factor is still needed: a token
    /// that is good for that one step and for a short time.
    NeedsTwoFactor(String),
    /// The client is not in.
    Failed,
}

/// What came of the second step of a login.
#[derive(Debug)]
pub struct TwoFactorLogin {
    /// The token of the new session, if the client is in.
    pub session: Option<String>,
    /// Whether a backup code was used up, so that the account has to be written
    /// to disk again.
    pub credentials_changed: bool,
}

/// What an authenticator remembers.
#[verifier::ext_equal]
pub struct AuthView {
    /// The account.
    pub credentials: CredentialsView,
    /// The sessions, each with the moment when it was opened.
    pub sessions: Map<Seq<char>, u128>,
    /// The failed logins of each client.
    pub attempts: Map<Seq<char>, Attempts>,
    /// The logins that wait for a second factor, each with the moment when it
    /// began to wait.
    pub pending: Map<Seq<char>, u128>,
}

impl AuthView {
    /// No client has failed more often than is allowed, and only clients that
    /// have failed are remembered.
    pub open spec fn valid(self) -> bool {
        forall|client: Seq<char>| #[trigger]
            self.attempts.contains_key(client) ==> 1 <= self.attempts[client].count
                <= MAX_LOGIN_ATTEMPTS
    }

    /// The client has used up its attempts, and its window is still open.
    pub open spec fn locked_out(self, client: Seq<char>, now: u128) -> bool {
        &&& self.attempts.contains_key(client)
        &&& fresh(self.attempts[client].first, now, LOGIN_ATTEMPT_WINDOW)
        &&& self.attempts[client].count >= MAX_LOGIN_ATTEMPTS
    }

    /// The failed logins of `client` once it has failed again: one more within
    /// an open window, or the first of a new one.
    pub open spec fn one_more(self, client: Seq<char>, now: u128) -> Attempts {
        let open = swept(self.attempts, now, LOGIN_ATTEMPT_WINDOW);
        if open.contains_key(client) {
            Attempts { count: (open[client].count + 1) as u32, first: open[client].first }
        } else {
            Attempts { count: 1, first: now }
        }
    }

    /// `client` has failed to log in. Windows that have closed are forgotten,
    /// whosever they are.
    pub open spec fn with_failure(self, client: Seq<char>, now: u128) -> AuthView {
        AuthView {
            attempts: swept(self.attempts, now, LOGIN_ATTEMPT_WINDOW).insert(
                client,
                self.one_more(client, now),
            ),
            ..self
        }
    }

    /// The failed logins of `client` are forgiven.
    pub open spec fn without_attempts(self, client: Seq<char>) -> AuthView {
        AuthView { attempts: self.attempts.remove(client), ..self }
    }

    /// A session is opened; sessions past their lifetime are forgotten.
    pub open spec fn with_session(self, token: Seq<char>, now: u128) -> AuthView {
        AuthView {
            sessions: swept(self.sessions, now, SESSION_LIFETIME).insert(token, now),
            ..self
        }
    }

    /// A session is closed.
    pub open spec fn without_session(self, token: Seq<char>) -> AuthView {
        AuthView { sessions: self.sessions.remove(token), ..self }
    }

    /// A login begins to wait for its second factor; those that have waited too
    /// long are forgotten.
    pub open spec fn with_pending(self, token: Seq<char>, now: u128) -> AuthView {
        AuthView {
            pending: swept(self.pending, now, PENDING_2FA_LIFETIME).insert(token, now),
            ..self
        }
    }

    /// A login no longer waits for its second factor.
    pub open spec fn without_pending(self, token: Seq<char>) -> AuthView {
        AuthView { pending: self.pending.remove(token), ..self }
    }

    /// The token is that of a session within its lifetime.
    pub open spec fn session_live(self, token: Seq<char>, now: u128) -> bool {
        self.sessions.contains_key(token) && fresh(self.sessions[token], now, SESSION_LIFETIME)
    }

    /// The token is that of a login that may still be completed.
    pub open spec fn pending_live(self, token: Seq<char>, now: u128) -> bool {
        self.pending.contains_key(token) && fresh(self.pending[token], now, PENDING_2FA_LIFETIME)
    }

    /// The account is another.
    pub open spec fn with_credentials(self, credentials: CredentialsView) -> AuthView {
        AuthView { credentials, ..self }
    }

    /// Every session is closed.
    pub open spec fn without_sessions(self) -> AuthView {
        AuthView { sessions: Map::empty(), ..self }
    }

    /// A change of the account has taken effect.
    pub open spec fn with_change(self, change: ChangeView) -> AuthView {
        let changed = self.with_credentials(change.credentials);
        if change.ends_sessions {
            changed.without_sessions()
        } else {
            changed
        }
    }

    /// Nothing is remembered but the account.
    pub open spec fn started(credentials: CredentialsView) -> AuthView {
        AuthView {
            credentials,
            sessions: Map::empty(),
            attempts: Map::empty(),
            pending: Map::empty(),
        }
    }
}

/// A session was asked about at `now`, with this answer. One that is past its
/// lifetime is forgotten.
pub open spec fn validation_step(
    pre: AuthView,
    post: AuthView,
    token: Seq<char>,
    now: u128,
    live: bool,
) -> bool {
    &&& live == pre.session_live(token, now)
    &&& post == if live {
        pre
    } else {
        pre.without_session(token)
    }
}

/// A client tried to log in, with this outcome. Whether it was locked out was
/// settled at `checked_at`, all the rest at `now`. `token` is the token for
/// what was opened, if anything was.
pub open spec fn login_step(
    pre: AuthView,
    post: AuthView,
    client: Seq<char>,
    username: Seq<char>,
    password_right: bool,
    checked_at: u128,
    now: u128,
    token: Seq<char>,
    outcome: LoginOutcome,
) -> bool {
    if pre.locked_out(client, checked_at) {
        &&& outcome is Failed
        &&& post == pre
    } else if username != pre.credentials.username || !password_right {
        &&& outcome is Failed
        &&& post == pre.with_failure(client, now)
    } else if pre.credentials.two_factor.enabled {
        &&& outcome matches LoginOutcome::NeedsTwoFactor(t) && t@ == token
        &&& post == pre.without_attempts(client).with_pending(token, now)
    } else {
        &&& outcome matches LoginOutcome::Success(t) && t@ == token
        &&& post == pre.without_attempts(client).with_session(token, now)
    }
}

/// The second step of a login gets as far as the second factor itself: the
/// client is not locked out, and the login may still be completed.
pub open spec fn factor_counts(
    pre: AuthView,
    client: Seq<char>,
    pending_token: Seq<char>,
    checked_at: u128,
) -> bool {
    !pre.locked_out(client, checked_at) && pre.pending_live(pending_token, checked_at)
}

/// A client tried to complete a login with this second factor, with this
/// outcome. Whether it was locked out, and whether the login could still be
/// completed, was settled at `checked_at`, all the rest at `now`. `token` is
/// the token of the session, if one was opened.
pub open spec fn second_factor_step(
    pre: AuthView,
    post: AuthView,
    client: Seq<char>,
    pending_token: Seq<char>,
    factor: SecondFactor,
    checked_at: u128,
    now: u128,
    token: Seq<char>,
    outcome: TwoFactorLogin,
) -> bool {
    let taken = pre.without_pending(pending_token);
    if pre.locked_out(client, checked_at) {
        &&& outcome.session is None
        &&& !outcome.credentials_changed
        &&& post == pre
    } else if !pre.pending_live(pending_token, checked_at) || factor == SecondFactor::Rejected {
        &&& outcome.session is None
        &&& !outcome.credentials_changed
        &&& post == taken.with_failure(client, now)
    } else {
        let opened = taken.without_attempts(client).with_session(token, now);
        &&& outcome.session matches Some(t) && t@ == token
        &&& match factor {
            SecondFactor::BackupCode(i) => {
                &&& outcome.credentials_changed
                &&& post == opened.with_credentials(pre.credentials.without_backup_code(i as int))
            },
            _ => {
                &&& !outcome.credentials_changed
                &&& post == opened
            },
        }
    }
}

/// A client tried to complete a login with `code`, which at `time` was this
/// second factor of the account, with this outcome. The code is looked at only
/// where it counts.
pub open spec fn completion_step(
    pre: AuthView,
    post: AuthView,
    client: Seq<char>,
    pending_token: Seq<char>,
    code: Seq<char>,
    time: Option<u64>,
    factor: SecondFactor,
    checked_at: u128,
    now: u128,
    token: Seq<char>,
    outcome: TwoFactorLogin,
) -> bool {
    &&& factor_counts(pre, client, pending_token, checked_at) ==> is_second_factor(
        pre.credentials,
        code,
        time,
        factor,
    )
    &&& second_factor_step(
        pre,
        post,
        client,
        pending_token,
        factor,
        checked_at,
        now,
        token,
        outcome,
    )
}

} // verus!
