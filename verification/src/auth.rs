//! The authenticator: logins, sessions and the account behind them.
//!
//! A request that depends on the clock or on chance comes in two forms. One
//! reads the clock and draws the random bytes itself; the other, which says
//! exactly what happens, is given them. A request that changes the account
//! gives out the account to be written to disk, and the change takes effect
//! once the caller reports what came of writing it.

use vstd::prelude::*;
use vstd::string::*;
#[allow(unused_imports)]
use vstd::utf8::encode_utf8_decode_utf8;

use crate::backup::generate_backup_codes;
#[allow(unused_imports)]
use crate::backup::{issued, texts};
#[allow(unused_imports)]
use crate::change::{account_outcome, confirmation_outcome, renewal_outcome, setup_outcome};
use crate::change::{
    CodeSet, CredentialChange, Written, NOT_SERIALIZED, NOT_WRITTEN, WRONG_PASSWORD,
};
use crate::clock::Clock;
#[allow(unused_imports)]
use crate::clock::{later, reading, shown, ClockView};
#[allow(unused_imports)]
use crate::credentials::{no_second_factor, CredentialsView};
use crate::credentials::{Credentials, SecondFactor, TwoFactor};
#[allow(unused_imports)]
use crate::laws::failures_keep_the_state_valid;
#[allow(unused_imports)]
use crate::policy::fresh;
use crate::policy::{
    is_fresh, LOGIN_ATTEMPT_WINDOW, MAX_LOGIN_ATTEMPTS, PENDING_2FA_LIFETIME, SESSION_LIFETIME,
};
use crate::secrets::{constant_time_eq, draw_salt, hash_with_salt, validate_password_strength};
#[allow(unused_imports)]
use crate::secrets::{drawn_salt, hash_of, hashable, strong, weakness, PHC_PREFIX, SALT_LEN};
use crate::state::{Attempts, LoginOutcome, TwoFactorLogin};
#[allow(unused_imports)]
use crate::state::{
    completion_step, factor_counts, login_step, second_factor_step, validation_step, AuthView,
};
use crate::table::DatedTable;
#[allow(unused_imports)]
use crate::token::{base64_url, drawn};
use crate::token::{draw, token_of, TOKEN_BYTES};
#[allow(unused_imports)]
use crate::totp::{base32_bytes, drawn_secret, text_of, told_time, FRESH_SECRET_BYTES};
use crate::totp::{draw_secret, enrol, judge_code, tell_time, CodeVerdict};

verus! {

/// The authenticator of a single account.
pub struct Auth {
    credentials: Credentials,
    sessions: DatedTable<u128>,
    login_attempts: DatedTable<Attempts>,
    pending_2fa: DatedTable<u128>,
    clock: Clock,
}

impl View for Auth {
    type V = AuthView;

    closed spec fn view(&self) -> AuthView {
        AuthView {
            credentials: self.credentials@,
            sessions: self.sessions@,
            attempts: self.login_attempts@,
            pending: self.pending_2fa@,
        }
    }
}

impl Auth {
    /// The clock that the authenticator goes by, which is no part of what it
    /// remembers of requests.
    pub closed spec fn clock(&self) -> ClockView {
        self.clock@
    }
}

/// Whether two texts are equal, found without stopping at the first difference.
fn same_text(a: &str, b: &str) -> (same: bool)
    ensures
        same == (a@ == b@),
{
    proof {
        encode_utf8_decode_utf8(a@);
        encode_utf8_decode_utf8(b@);
    }
    constant_time_eq(a.as_bytes(), b.as_bytes())
}

/// A fresh set of backup codes, if their hashes can be made.
fn fresh_codes() -> (codes: Option<CodeSet>)
    ensures
        codes matches Some(set) && issued(texts(set.0@), texts(set.1@)),
{
    match generate_backup_codes() {
        Ok(codes) => Some(codes),
        Err(_) => None,
    }
}

/// What there is of a stored account when an authenticator is started.
#[derive(Debug)]
pub enum StoredAccount {
    /// None was ever stored.
    Missing,
    /// One was stored, but it cannot be read.
    Unreadable,
    /// The stored account.
    Found(Credentials),
}

/// Why there is no account to start with.
#[derive(Debug)]
pub enum BootstrapError {
    /// There is a stored account, but it cannot be read.
    Unreadable,
    /// The configured password is too weak; why.
    WeakPassword(&'static str),
    /// The configured password could not be hashed; why.
    NotHashed(argon2::password_hash::Error),
}

/// An account was to be made of a configured name and password, with this
/// outcome. `hash` is the hash of the password, if there is one.
pub open spec fn bootstrap_outcome(
    username: Seq<char>,
    password: Seq<char>,
    hash: Option<Seq<char>>,
    r: Result<CredentialsView, BootstrapError>,
) -> bool {
    if !strong(password) {
        r matches Err(BootstrapError::WeakPassword(message)) && message@ == weakness(password)
    } else {
        match hash {
            None => r matches Err(BootstrapError::NotHashed(_)),
            Some(password_hash) => r == Ok::<CredentialsView, BootstrapError>(
                CredentialsView { username, password_hash, two_factor: no_second_factor() },
            ),
        }
    }
}

/// The account of a result.
pub open spec fn account_of(r: Result<Credentials, BootstrapError>) -> Result<
    CredentialsView,
    BootstrapError,
> {
    match r {
        Ok(c) => Ok(c@),
        Err(e) => Err(e),
    }
}

/// The account of an authenticator that was started on its first run.
pub open spec fn first_account(r: Result<(Auth, bool), BootstrapError>) -> Result<
    CredentialsView,
    BootstrapError,
> {
    match r {
        Ok((auth, _)) => Ok(auth@.credentials),
        Err(e) => Err(e),
    }
}

/// Makes an account of a configured name and password, given what came of
/// hashing the password. It has no second factor.
pub fn bootstrap_account(
    username: String,
    password: &str,
    hash: Result<String, argon2::password_hash::Error>,
) -> (r: Result<Credentials, BootstrapError>)
    ensures
        bootstrap_outcome(
            username@,
            password@,
            match hash {
                Ok(hash) => Some(hash@),
                Err(_) => None,
            },
            account_of(r),
        ),
        hash matches Err(e) ==> (strong(password@) ==> r == Err::<Credentials, BootstrapError>(
            BootstrapError::NotHashed(e),
        )),
{
    match validate_password_strength(password) {
        Ok(_) => {},
        Err(message) => {
            return Err(BootstrapError::WeakPassword(message));
        },
    }
    match hash {
        Ok(password_hash) => Ok(
            Credentials { username, password_hash, two_factor: TwoFactor::default() },
        ),
        Err(e) => Err(BootstrapError::NotHashed(e)),
    }
}

impl Auth {
    /// An authenticator of this account that remembers nothing else.
    pub fn new(credentials: Credentials) -> (auth: Auth)
        ensures
            auth.wf(),
            auth@ == AuthView::started(credentials@),
            auth.clock().latest == 0,
    {
        let auth = Auth {
            credentials,
            sessions: DatedTable::new(),
            login_attempts: DatedTable::new(),
            pending_2fa: DatedTable::new(),
            clock: Clock::start(),
        };
        assert(auth@ =~= AuthView::started(credentials@));
        auth
    }

    /// Starts an authenticator. A stored account is taken, whatever name and
    /// password are configured, with its confirmed secret made good; one that
    /// cannot be read is not replaced. On the first run, when none is stored, the account is made of
    /// the configured name and password, which has to be strong. Says besides
    /// whether this is a first run, so that the account has to be written to
    /// disk.
    pub fn load_or_bootstrap(
        stored: StoredAccount,
        env_username: String,
        env_password: &str,
    ) -> (r: Result<(Auth, bool), BootstrapError>)
        ensures
            match stored {
                StoredAccount::Found(account) => r matches Ok((auth, first_run)) && auth.wf()
                    && auth@ == AuthView::started(account@.restored()) && !first_run,
                StoredAccount::Unreadable => r matches Err(BootstrapError::Unreadable),
                StoredAccount::Missing => exists|salt: Seq<u8>|
                    salt.len() == SALT_LEN && (strong(env_password@) ==> drawn_salt(salt))
                        && #[trigger] bootstrap_outcome(
                        env_username@,
                        env_password@,
                        hash_of(env_password@, salt),
                        first_account(r),
                    ),
            },
            r matches Ok((auth, first_run)) ==> auth.wf() && auth@ == AuthView::started(
                auth@.credentials,
            ) && first_run == (stored is Missing) && (first_run ==> auth@.credentials.password_is(
                env_password@,
            ) && PHC_PREFIX@.is_prefix_of(auth@.credentials.password_hash)),
            stored is Missing && strong(env_password@) && hashable(env_password@) ==> r is Ok,
    {
        match stored {
            StoredAccount::Found(account) => {
                let restored = Credentials {
                    username: account.username,
                    password_hash: account.password_hash,
                    two_factor: account.two_factor.restored(),
                };
                assert(restored@ =~= account@.restored());
                return Ok((Auth::new(restored), false));
            },
            StoredAccount::Unreadable => {
                return Err(BootstrapError::Unreadable);
            },
            StoredAccount::Missing => {},
        }
        if let Err(message) = validate_password_strength(env_password) {
            let r = Err(BootstrapError::WeakPassword(message));
            proof {
                let salt = Seq::new(SALT_LEN as nat, |i: int| 0u8);
                assert(bootstrap_outcome(
                    env_username@,
                    env_password@,
                    hash_of(env_password@, salt),
                    first_account(r),
                ));
            }
            return r;
        }
        let salt = draw_salt();
        let hash = hash_with_salt(env_password, salt.as_slice());
        match bootstrap_account(env_username, env_password, hash) {
            Ok(account) => {
                let auth = Auth::new(account);
                let r = Ok((auth, true));
                assert(bootstrap_outcome(
                    env_username@,
                    env_password@,
                    hash_of(env_password@, salt@),
                    first_account(r),
                ));
                r
            },
            Err(e) => {
                let r = Err(e);
                assert(bootstrap_outcome(
                    env_username@,
                    env_password@,
                    hash_of(env_password@, salt@),
                    first_account(r),
                ));
                r
            },
        }
    }

    /// The tables are in order, and what they hold is valid.
    pub closed spec fn wf(&self) -> bool {
        &&& self.sessions.wf()
        &&& self.login_attempts.wf()
        &&& self.pending_2fa.wf()
        &&& self@.valid()
    }

    /// In every state that an authenticator can be in, only clients that have
    /// failed are remembered, and none with more failures than are allowed.
    pub proof fn state_is_valid(&self)
        requires
            self.wf(),
        ensures
            self@.valid(),
    {
    }

    /// Whether `client_key` is locked out at `now`.
    pub fn is_locked_out_at(&self, client_key: &str, now: u128) -> (b: bool)
        requires
            self.wf(),
        ensures
            b == self@.locked_out(client_key@, now),
    {
        match self.login_attempts.get(client_key) {
            Some(attempts) => is_fresh(attempts.first, now, LOGIN_ATTEMPT_WINDOW) && attempts.count
                >= MAX_LOGIN_ATTEMPTS,
            None => false,
        }
    }

    /// Whether `client_key`, such as a remote address, is locked out from
    /// further logins now.
    pub fn is_locked_out(&self, client_key: &str) -> (b: bool)
        requires
            self.wf(),
        ensures
            exists|now: u128|
                self.clock().latest <= now && shown(self.clock(), now) && b == #[trigger] self@.locked_out(client_key@, now),
    {
        let now: u128 = self.clock.peek();
        self.is_locked_out_at(client_key, now)
    }

    /// Holds a failed login against a client that is not locked out, and
    /// forgets all windows that have closed.
    fn record_failed_attempt(&mut self, client_key: &str, now: u128)
        requires
            old(self).wf(),
            !old(self)@.locked_out(client_key@, now),
        ensures
            final(self).wf(),
            final(self)@ == old(self)@.with_failure(client_key@, now),
            final(self).clock() == old(self).clock(),
    {
        let ghost pre = self@;
        self.login_attempts.sweep(now, LOGIN_ATTEMPT_WINDOW);
        let ghost open = self.login_attempts@;
        let attempts = match self.login_attempts.get(client_key) {
            Some(attempts) => {
                assert(pre.attempts.contains_key(client_key@));
                Attempts { count: attempts.count + 1, first: attempts.first }
            },
            None => Attempts { count: 1, first: now },
        };
        self.login_attempts.insert(client_key, attempts);
        proof {
            assert(self@ =~= pre.with_failure(client_key@, now));
            failures_keep_the_state_valid(pre, client_key@, now);
        }
    }

    /// Forgives the failed logins of a client.
    fn clear_attempts(&mut self, client_key: &str)
        requires
            old(self).wf(),
        ensures
            final(self).wf(),
            final(self)@ == old(self)@.without_attempts(client_key@),
            final(self).clock() == old(self).clock(),
    {
        let ghost pre = self@;
        self.login_attempts.remove(client_key);
        assert(self@ =~= pre.without_attempts(client_key@));
    }

    /// Opens a session under the token that `bytes` make, and forgets all
    /// sessions that are past their lifetime.
    fn create_session(&mut self, bytes: &[u8], now: u128) -> (token: String)
        requires
            old(self).wf(),
            bytes@.len() == TOKEN_BYTES,
        ensures
            final(self).wf(),
            token@ == base64_url(bytes@),
            final(self)@ == old(self)@.with_session(token@, now),
            final(self).clock() == old(self).clock(),
    {
        let ghost pre = self@;
        let token = token_of(bytes);
        self.sessions.sweep(now, SESSION_LIFETIME);
        self.sessions.insert(token.as_str(), now);
        assert(self@ =~= pre.with_session(token@, now));
        token
    }

    /// Lets a login wait for its second factor under the token that `bytes`
    /// make, and forgets all that have waited too long.
    fn create_pending_2fa(&mut self, bytes: &[u8], now: u128) -> (token: String)
        requires
            old(self).wf(),
            bytes@.len() == TOKEN_BYTES,
        ensures
            final(self).wf(),
            token@ == base64_url(bytes@),
            final(self)@ == old(self)@.with_pending(token@, now),
            final(self).clock() == old(self).clock(),
    {
        let ghost pre = self@;
        let token = token_of(bytes);
        self.pending_2fa.sweep(now, PENDING_2FA_LIFETIME);
        self.pending_2fa.insert(token.as_str(), now);
        assert(self@ =~= pre.with_pending(token@, now));
        token
    }

    /// A login, given whether the password is right, the two moments at which
    /// the clock was read, and the random bytes of the token.
    pub fn login_with(
        &mut self,
        client_key: &str,
        username: &str,
        password_right: bool,
        checked_at: u128,
        now: u128,
        bytes: &[u8],
    ) -> (outcome: LoginOutcome)
        requires
            old(self).wf(),
            checked_at <= now,
            bytes@.len() == TOKEN_BYTES,
        ensures
            final(self).wf(),
            login_step(
                old(self)@,
                final(self)@,
                client_key@,
                username@,
                password_right,
                checked_at,
                now,
                base64_url(bytes@),
                outcome,
            ),
            final(self).clock() == old(self).clock(),
    {
        if self.is_locked_out_at(client_key, checked_at) {
            return LoginOutcome::Failed;
        }
        let username_right = same_text(username, self.credentials.username.as_str());
        if username_right && password_right {
            self.clear_attempts(client_key);
            if self.credentials.two_factor.enabled {
                LoginOutcome::NeedsTwoFactor(self.create_pending_2fa(bytes, now))
            } else {
                LoginOutcome::Success(self.create_session(bytes, now))
            }
        } else {
            self.record_failed_attempt(client_key, now);
            LoginOutcome::Failed
        }
    }

    /// Logs a client in. The outcome is a session if the account has no second
    /// factor, and a token for the second step if it has one. The password is
    /// checked whether or not the username is right.
    pub fn login(&mut self, client_key: &str, username: &str, password: &str) -> (outcome:
        LoginOutcome)
        requires
            old(self).wf(),
        ensures
            final(self).wf(),
            exists|checked_at: u128, now: u128, bytes: Seq<u8>|
                old(self).clock().latest <= checked_at <= now && shown(
                    old(self).clock(),
                    checked_at,
                ) && shown(old(self).clock().showing(checked_at), now) && final(self).clock()
                    == old(self).clock().showing(now) && bytes.len() == TOKEN_BYTES && (outcome !is Failed
                    ==> drawn(bytes)) && #[trigger] login_step(
                    old(self)@,
                    final(self)@,
                    client_key@,
                    username@,
                    old(self)@.credentials.password_is(password@),
                    checked_at,
                    now,
                    base64_url(bytes),
                    outcome,
                ),
    {
        let checked_at: u128 = self.clock.tick();
        if self.is_locked_out_at(client_key, checked_at) {
            proof {
                let clock = old(self).clock();
                let r = choose|r: u128| #[trigger]
                    reading(clock.start, r) && checked_at == later(clock.latest, r);
                assert(reading(clock.showing(checked_at).start, r));
                assert(shown(clock.showing(checked_at), checked_at));
                let bytes = Seq::new(TOKEN_BYTES as nat, |i: int| 0u8);
                assert(login_step(
                    old(self)@,
                    self@,
                    client_key@,
                    username@,
                    old(self)@.credentials.password_is(password@),
                    checked_at,
                    checked_at,
                    base64_url(bytes),
                    LoginOutcome::Failed,
                ));
            }
            return LoginOutcome::Failed;
        }
        let password_right = self.credentials.password_matches(password);
        let now: u128 = self.clock.tick();
        let bytes = draw(TOKEN_BYTES);
        self.login_with(client_key, username, password_right, checked_at, now, bytes.as_slice())
    }

    /// The second step of a login, given what the code turned out to be, the
    /// two moments at which the clock was read, and the random bytes of the
    /// token.
    pub fn verify_two_factor_login_with(
        &mut self,
        client_key: &str,
        pending_token: &str,
        factor: SecondFactor,
        checked_at: u128,
        now: u128,
        bytes: &[u8],
    ) -> (outcome: TwoFactorLogin)
        requires
            old(self).wf(),
            checked_at <= now,
            bytes@.len() == TOKEN_BYTES,
            factor matches SecondFactor::BackupCode(i)
                ==> i < old(self)@.credentials.two_factor.backup_code_hashes.len(),
        ensures
            final(self).wf(),
            second_factor_step(
                old(self)@,
                final(self)@,
                client_key@,
                pending_token@,
                factor,
                checked_at,
                now,
                base64_url(bytes@),
                outcome,
            ),
            final(self).clock() == old(self).clock(),
    {
        let ghost pre = self@;
        if self.is_locked_out_at(client_key, checked_at) {
            return TwoFactorLogin { session: None, credentials_changed: false };
        }
        let still_pending = self.is_pending_at(pending_token, checked_at);
        self.pending_2fa.remove(pending_token);
        assert(self@ =~= pre.without_pending(pending_token@));
        if !still_pending {
            self.record_failed_attempt(client_key, now);
            return TwoFactorLogin { session: None, credentials_changed: false };
        }
        let credentials_changed = match factor {
            SecondFactor::Totp => false,
            SecondFactor::BackupCode(i) => {
                self.credentials.two_factor.backup_code_hashes.remove(i);
                proof {
                    assert(self@.credentials.two_factor.backup_code_hashes
                        =~= pre.credentials.two_factor.backup_code_hashes.remove(i as int));
                    assert(self@ =~= pre.without_pending(pending_token@).with_credentials(
                        pre.credentials.without_backup_code(i as int),
                    ));
                }
                true
            },
            SecondFactor::Rejected => {
                self.record_failed_attempt(client_key, now);
                return TwoFactorLogin { session: None, credentials_changed: false };
            },
        };
        self.clear_attempts(client_key);
        let token = self.create_session(bytes, now);
        TwoFactorLogin { session: Some(token), credentials_changed }
    }

    /// Whether a login waits under this token and may be completed at `now`.
    fn is_pending_at(&self, pending_token: &str, now: u128) -> (b: bool)
        requires
            self.wf(),
        ensures
            b == self@.pending_live(pending_token@, now),
    {
        match self.pending_2fa.get(pending_token) {
            Some(created) => is_fresh(created, now, PENDING_2FA_LIFETIME),
            None => false,
        }
    }

    /// Completes a login that takes a second factor. The code is one of the
    /// authenticator app, or a backup code, which is used up by it. Where the
    /// client is not locked out the pending token is used up too, whether or
    /// not the code is right.
    pub fn verify_two_factor_login(
        &mut self,
        client_key: &str,
        pending_token: &str,
        code: &str,
    ) -> (outcome: TwoFactorLogin)
        requires
            old(self).wf(),
        ensures
            final(self).wf(),
            exists|
                checked_at: u128,
                now: u128,
                bytes: Seq<u8>,
                time: Option<u64>,
                factor: SecondFactor,
            |
                old(self).clock().latest <= checked_at <= now && shown(
                    old(self).clock(),
                    checked_at,
                ) && shown(old(self).clock().showing(checked_at), now) && final(self).clock()
                    == old(self).clock().showing(now) && bytes.len() == TOKEN_BYTES && (outcome.session is Some
                    ==> drawn(bytes)) && (factor_counts(
                    old(self)@,
                    client_key@,
                    pending_token@,
                    checked_at,
                ) ==> told_time(time)) && #[trigger] completion_step(
                    old(self)@,
                    final(self)@,
                    client_key@,
                    pending_token@,
                    code@,
                    time,
                    factor,
                    checked_at,
                    now,
                    base64_url(bytes),
                    outcome,
                ),
    {
        let checked_at: u128 = self.clock.tick();
        let counts = !self.is_locked_out_at(client_key, checked_at) && self.is_pending_at(
            pending_token,
            checked_at,
        );
        let mut time: Option<u64> = None;
        let mut factor = SecondFactor::Rejected;
        if counts {
            time = tell_time();
            factor = self.credentials.check_second_factor(code, time);
        }
        let now: u128 = self.clock.tick();
        let bytes = draw(TOKEN_BYTES);
        let ghost pre = self@;
        let outcome = self.verify_two_factor_login_with(
            client_key,
            pending_token,
            factor,
            checked_at,
            now,
            bytes.as_slice(),
        );
        assert(completion_step(
            pre,
            self@,
            client_key@,
            pending_token@,
            code@,
            time,
            factor,
            checked_at,
            now,
            base64_url(bytes@),
            outcome,
        ));
        outcome
    }

    /// Starts to enrol an authenticator app, or starts over: a fresh secret is
    /// to be stored, and nothing else changes. Logins go by the secret that was
    /// confirmed last until this one is confirmed. Gives out the change, and what
    /// the app has to be told: the secret, the `otpauth` address, and a picture
    /// of it in a form for a web page.
    pub fn start_two_factor_setup(&self) -> (r: Result<
        (CredentialChange, (String, String, String)),
        &'static str,
    >)
        ensures
            exists|secret: Seq<char>|
                base32_bytes(secret) is Some && base32_bytes(secret)->0.len() == FRESH_SECRET_BYTES
                    && drawn_secret(secret) && #[trigger] setup_outcome(self@.credentials, secret, r),
    {
        let secret = draw_secret();
        let enrolment = enrol(secret.as_str(), self.credentials.username.as_str());
        let ghost text = secret@;
        let r = self.credentials.setup_change(secret, enrolment);
        assert(setup_outcome(self@.credentials, text, r));
        r
    }

    /// Confirms a setup with a code of the app. Only this switches the second
    /// factor on and makes logins go by the secret of the setup, and it issues a set of backup codes at the same time. Gives
    /// out the change, and the codes, to be shown once.
    pub fn confirm_two_factor_setup(&self, code: &str) -> (r: Result<
        (CredentialChange, Vec<String>),
        &'static str,
    >)
        ensures
            exists|time: Option<u64>|
                told_time(time) && #[trigger] confirmation_outcome(
                    self@.credentials,
                    code@,
                    time,
                    r,
                ),
    {
        let time = tell_time();
        let verdict = match &self.credentials.two_factor.secret {
            Some(secret) => judge_code(
                secret.as_str(),
                self.credentials.username.as_str(),
                code,
                time,
            ),
            None => CodeVerdict::Wrong,
        };
        let codes = if verdict == CodeVerdict::Right {
            fresh_codes()
        } else {
            None
        };
        let r = self.credentials.confirmation_change(verdict, codes);
        assert(confirmation_outcome(self@.credentials, code@, time, r));
        r
    }

    /// Switches the second factor off for good, given the current password: its
    /// secrets and its backup codes go too.
    pub fn disable_two_factor(&self, current_password: &str) -> (r: Result<
        CredentialChange,
        &'static str,
    >)
        ensures
            if self@.credentials.password_is(current_password@) {
                r matches Ok(change) && {
                    &&& change@.base == self@.credentials
                    &&& change@.credentials == self@.credentials.with_two_factor(no_second_factor())
                    &&& !change@.ends_sessions
                }
            } else {
                r matches Err(message) && message@ == WRONG_PASSWORD@
            },
    {
        let password_right = self.credentials.password_matches(current_password);
        self.credentials.disabling_change(password_right)
    }

    /// Issues a fresh set of backup codes in place of all that there were,
    /// given the current password. Gives out the change, and the codes, to be
    /// shown once.
    pub fn regenerate_backup_codes(&self, current_password: &str) -> (r: Result<
        (CredentialChange, Vec<String>),
        &'static str,
    >)
        ensures
            renewal_outcome(self@.credentials, current_password@, r),
    {
        let password_right = self.credentials.password_matches(current_password);
        let codes = if password_right && self.credentials.two_factor.enabled {
            fresh_codes()
        } else {
            None
        };
        self.credentials.renewal_change(password_right, codes)
    }

    /// Changes the name or the password of the account, or both, given the
    /// current password. A new password has to be strong. Every session is
    /// closed by the change.
    pub fn change_credentials(
        &self,
        current_password: &str,
        new_username: Option<String>,
        new_password: Option<String>,
    ) -> (r: Result<CredentialChange, &'static str>)
        ensures
            exists|salt: Seq<u8>|
                salt.len() == SALT_LEN && (self@.credentials.password_is(current_password@)
                    && new_password is Some && strong(new_password->0@) ==> drawn_salt(salt))
                    && #[trigger] account_outcome(
                    self@.credentials,
                    current_password@,
                    text_of(new_username),
                    text_of(new_password),
                    salt,
                    r,
                ),
            r matches Ok(change) ==> (new_password matches Some(password)
                ==> change@.credentials.password_is(password@) && PHC_PREFIX@.is_prefix_of(
                change@.credentials.password_hash,
            )),
            self@.credentials.password_is(current_password@) && (new_password matches Some(password)
                ==> strong(password@) && hashable(password@)) ==> r is Ok,
    {
        let password_right = self.credentials.password_matches(current_password);
        let ghost mut salted = Seq::new(SALT_LEN as nat, |i: int| 0u8);
        let mut new_hash: Option<String> = None;
        if password_right {
            if let Some(password) = &new_password {
                if validate_password_strength(password.as_str()).is_ok() {
                    let salt = draw_salt();
                    new_hash = match hash_with_salt(password.as_str(), salt.as_slice()) {
                        Ok(hash) => Some(hash),
                        Err(_) => None,
                    };
                    proof {
                        salted = salt@;
                    }
                }
            }
        }
        let ghost name = text_of(new_username);
        let ghost password = text_of(new_password);
        let r = self.credentials.account_change(
            password_right,
            new_username,
            new_password,
            new_hash,
        );
        assert(account_outcome(self@.credentials, current_password@, name, password, salted, r));
        r
    }

    /// Lets a change take effect, given what came of writing it to disk. A
    /// change that was not written has no effect. The account has to be the one
    /// that the change was worked out from.
    pub fn finish_change(&mut self, change: CredentialChange, written: Written) -> (r: Result<
        (),
        &'static str,
    >)
        requires
            old(self).wf(),
            change@.base == old(self)@.credentials,
        ensures
            final(self).wf(),
            final(self).clock() == old(self).clock(),
            match written {
                Written::Done => r is Ok && final(self)@ == old(self)@.with_change(change@),
                Written::NotSerialized => r matches Err(message) && message@ == NOT_SERIALIZED@
                    && final(self)@ == old(self)@,
                Written::NotWritten => r matches Err(message) && message@ == NOT_WRITTEN@
                    && final(self)@ == old(self)@,
            },
    {
        match written {
            Written::Done => {},
            Written::NotSerialized => {
                return Err(NOT_SERIALIZED);
            },
            Written::NotWritten => {
                return Err(NOT_WRITTEN);
            },
        }
        let ghost pre = self@;
        let (credentials, ends_sessions) = change.into_parts();
        self.credentials = credentials;
        if ends_sessions {
            self.sessions.clear();
        }
        assert(self@ =~= pre.with_change(change@));
        Ok(())
    }

    /// Whether logging in takes a second factor.
    pub fn two_factor_enabled(&self) -> (b: bool)
        ensures
            b == self@.credentials.two_factor.enabled,
    {
        self.credentials.two_factor.enabled
    }

    /// The name of the account.
    pub fn username(&self) -> (name: String)
        ensures
            name@ == self@.credentials.username,
    {
        self.credentials.username.clone()
    }

    /// The account, as it is to be written to disk.
    pub fn credentials(&self) -> (c: &Credentials)
        ensures
            c@ == self@.credentials,
    {
        &self.credentials
    }

    /// Whether a session is within its lifetime at `now`. One that is not is
    /// forgotten.
    pub fn validate_session_at(&mut self, token: &str, now: u128) -> (live: bool)
        requires
            old(self).wf(),
        ensures
            final(self).wf(),
            validation_step(old(self)@, final(self)@, token@, now, live),
            final(self).clock() == old(self).clock(),
    {
        let ghost pre = self@;
        match self.sessions.get(token) {
            Some(created) => {
                if is_fresh(created, now, SESSION_LIFETIME) {
                    return true;
                }
                self.sessions.remove(token);
                assert(self@ =~= pre.without_session(token@));
                false
            },
            None => {
                assert(self@ =~= pre.without_session(token@));
                false
            },
        }
    }

    /// Whether a session is within its lifetime now. One that is not is
    /// forgotten.
    pub fn validate_session(&mut self, token: &str) -> (live: bool)
        requires
            old(self).wf(),
        ensures
            final(self).wf(),
            exists|now: u128|
                old(self).clock().latest <= now && shown(old(self).clock(), now)
                    && final(self).clock() == old(self).clock().showing(now) && #[trigger] validation_step(
                    old(self)@,
                    final(self)@,
                    token@,
                    now,
                    live,
                ),
    {
        let now: u128 = self.clock.tick();
        self.validate_session_at(token, now)
    }

    /// Closes a session.
    pub fn logout(&mut self, token: &str)
        requires
            old(self).wf(),
        ensures
            final(self).wf(),
            final(self)@ == old(self)@.without_session(token@),
            final(self).clock() == old(self).clock(),
    {
        let ghost pre = self@;
        self.sessions.remove(token);
        assert(self@ =~= pre.without_session(token@));
    }
}

} // verus!
