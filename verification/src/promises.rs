//! What users are promised, in plain figures and texts: seconds and counts,
//! character codes, the words of cookies, and what the outside functions say.

use vstd::prelude::*;
use vstd::string::*;
#[allow(unused_imports)]
use vstd::utf8::encode_utf8;

#[allow(unused_imports)]
use crate::auth::{account_of, bootstrap_outcome, first_account, Auth, BootstrapError};
#[allow(unused_imports)]
use crate::backup::{code_text, is_backup_code, issued, made_of, texts};
#[allow(unused_imports)]
use crate::change::{
    account_outcome, account_refusal, confirmation_outcome, confirmation_refusal, renamed,
    renewal_outcome, renewal_refusal, setup_outcome, setup_refusal, ChangeView, CredentialChange,
};
#[allow(unused_imports)]
use crate::clock::{later, reading, shown, ClockView};
#[allow(unused_imports)]
use crate::cookie::{
    cookie_prefix, cookie_text, decimal, first_token, secure_attribute, session_token, token_in,
};
#[allow(unused_imports)]
use crate::credentials::{
    is_second_factor, no_second_factor, Credentials, CredentialsView, SecondFactor,
};
#[allow(unused_imports)]
use crate::laws::first_cookie_counts;
#[allow(unused_imports)]
use crate::policy::{fresh, SESSION_LIFETIME_SECS};
#[allow(unused_imports)]
use crate::secrets::{
    accepts, argon2_accepts, argon2_phc, drawn_salt, hash_of, hashable, is_hash_of, lanes_at,
    overlong_at, strong, too_many_lanes, weakness,
};
#[allow(unused_imports)]
use crate::state::{
    completion_step, factor_counts, login_step, second_factor_step, validation_step, AuthView,
    LoginOutcome, TwoFactorLogin,
};
#[allow(unused_imports)]
use crate::text::{
    first_index, lemma_first_index, lemma_first_index_bounds, split, trim, trim_end, trim_start,
    white_space,
};
#[allow(unused_imports)]
use crate::token::drawn;
#[allow(unused_imports)]
use crate::totp::{
    base32_bytes, code_verdict, otpauth_url, qr_base64, text_of, totp_code, CodeVerdict,
    Enrolment, HashFunction,
};

verus! {

// Passwords.

/// A character with a code from `low` to `high` occurs in `s`.
pub open spec fn has_code(s: Seq<char>, low: int, high: int) -> bool {
    exists|i: int| 0 <= i < s.len() && low <= (#[trigger] s[i]) as int <= high
}

/// A visible character of ASCII that is neither letter nor digit occurs in `s`.
pub open spec fn has_other_visible(s: Seq<char>) -> bool {
    exists|i: int|
        0 <= i < s.len() && {
            let code = (#[trigger] s[i]) as int;
            33 <= code <= 126 && !(65 <= code <= 90) && !(97 <= code <= 122) && !(48 <= code <= 57)
        }
}

/// A password is strong exactly if it has ten characters or more, and among them
/// a capital letter, a small letter, a digit, and a visible character of ASCII
/// that is none of these.
pub proof fn strong_passwords_have_all_kinds(password: Seq<char>)
    ensures
        strong(password) <==> {
            &&& password.len() >= 10
            &&& has_code(password, 65, 90)
            &&& has_code(password, 97, 122)
            &&& has_code(password, 48, 57)
            &&& has_other_visible(password)
        },
{
    if strong(password) {
        let a = choose|i: int| 0 <= i < password.len() && 'A' <= #[trigger] password[i] <= 'Z';
        let b = choose|i: int| 0 <= i < password.len() && 'a' <= #[trigger] password[i] <= 'z';
        let c = choose|i: int| 0 <= i < password.len() && '0' <= #[trigger] password[i] <= '9';
        assert(65 <= password[a] as int <= 90);
        assert(97 <= password[b] as int <= 122);
        assert(48 <= password[c] as int <= 57);
    }
}

/// A password of letters and digits of ASCII alone is never strong, however long
/// it is.
pub proof fn letters_and_digits_are_not_enough(password: Seq<char>)
    requires
        forall|i: int|
            0 <= i < password.len() ==> {
                let code = (#[trigger] password[i]) as int;
                65 <= code <= 90 || 97 <= code <= 122 || 48 <= code <= 57
            },
    ensures
        !strong(password),
{
    strong_passwords_have_all_kinds(password);
}

/// What is said to a password that is turned down: that it is too short where it
/// is, and else which kinds of character it needs.
pub proof fn weak_passwords_are_told_why(password: Seq<char>)
    ensures
        password.len() < 10 ==> weakness(password) == "password must be at least 10 characters"@,
        password.len() >= 10 ==> weakness(password)
            == "password must include at least one uppercase letter, one lowercase letter, one number, and one symbol"@,
{
}

/// A strong password stays strong when characters are added at either end.
pub proof fn longer_is_no_weaker(before: Seq<char>, password: Seq<char>, after: Seq<char>)
    requires
        strong(password),
    ensures
        strong(before + password + after),
{
    let s = before + password + after;
    strong_passwords_have_all_kinds(password);
    strong_passwords_have_all_kinds(s);
    let n = before.len();
    assert forall|i: int| 0 <= i < password.len() implies #[trigger] password[i] == s[n + i] by {}
    let a = choose|i: int| 0 <= i < password.len() && 65 <= (#[trigger] password[i]) as int <= 90;
    let b = choose|i: int| 0 <= i < password.len() && 97 <= (#[trigger] password[i]) as int <= 122;
    let c = choose|i: int| 0 <= i < password.len() && 48 <= (#[trigger] password[i]) as int <= 57;
    let d = choose|i: int|
        0 <= i < password.len() && {
            let code = (#[trigger] password[i]) as int;
            33 <= code <= 126 && !(65 <= code <= 90) && !(97 <= code <= 122) && !(48 <= code <= 57)
        };
    assert(65 <= s[n + a] as int <= 90);
    assert(97 <= s[n + b] as int <= 122);
    assert(48 <= s[n + c] as int <= 57);
    assert(33 <= s[n + d] as int <= 126);
}

/// A number of nine digits or more stands behind `p=` somewhere in the text.
pub open spec fn has_huge_lanes(hash: Seq<char>) -> bool {
    exists|i: int|
        0 <= i && i + 11 <= hash.len() && #[trigger] hash[i] == 'p' && hash[i + 1] == '='
            && forall|j: int| i + 2 <= j < i + 11 ==> 48 <= (#[trigger] hash[j]) as int <= 57
}

/// A hash has too many lanes exactly if nine digits stand behind its last `p=`.
pub proof fn last_lanes_count(hash: Seq<char>)
    ensures
        too_many_lanes(hash) <==> exists|i: int|
            0 <= i && i + 11 <= hash.len() && #[trigger] hash[i] == 'p' && hash[i + 1] == '=' && (
            forall|j: int| i + 2 <= j < i + 11 ==> 48 <= (#[trigger] hash[j]) as int <= 57) && (
            forall|j: int| i < j < hash.len() - 1 ==> !(#[trigger] hash[j] == 'p' && hash[j + 1]
                == '=')),
{
    if too_many_lanes(hash) {
        let i = choose|i: int| #[trigger]
            lanes_at(hash, i) && overlong_at(hash, i + 2) && forall|j: int|
                i < j ==> !#[trigger] lanes_at(hash, j);
        assert(hash[i] == 'p' && hash[i + 1] == '=');
        assert forall|j: int| i + 2 <= j < i + 11 implies 48 <= (#[trigger] hash[j]) as int
            <= 57 by {}
        assert forall|j: int| i < j < hash.len() - 1 implies !(#[trigger] hash[j] == 'p' && hash[j
            + 1] == '=') by {
            assert(!lanes_at(hash, j));
        }
    }
    if exists|i: int|
        0 <= i && i + 11 <= hash.len() && #[trigger] hash[i] == 'p' && hash[i + 1] == '=' && (
        forall|j: int| i + 2 <= j < i + 11 ==> 48 <= (#[trigger] hash[j]) as int <= 57) && (
        forall|j: int| i < j < hash.len() - 1 ==> !(#[trigger] hash[j] == 'p' && hash[j + 1]
            == '=')) {
        let i = choose|i: int|
            0 <= i && i + 11 <= hash.len() && #[trigger] hash[i] == 'p' && hash[i + 1] == '=' && (
            forall|j: int| i + 2 <= j < i + 11 ==> 48 <= (#[trigger] hash[j]) as int <= 57) && (
            forall|j: int| i < j < hash.len() - 1 ==> !(#[trigger] hash[j] == 'p' && hash[j + 1]
                == '='));
        assert(lanes_at(hash, i));
        assert(overlong_at(hash, i + 2));
        assert forall|j: int| i < j implies !#[trigger] lanes_at(hash, j) by {}
    }
}

/// A hash accepts what Argon2 accepts under it, byte for byte of the whole text,
/// and nothing else. (Argon2 accepts nothing under a huge number of lanes.)
pub proof fn hashes_accept_what_argon2_accepts(hash: Seq<char>, text: Seq<char>)
    ensures
        accepts(hash, text) ==> argon2_accepts(hash, encode_utf8(text)),
        !has_huge_lanes(hash) ==> accepts(hash, text) == argon2_accepts(hash, encode_utf8(text)),
{
    if too_many_lanes(hash) {
        let i = choose|i: int| #[trigger]
            lanes_at(hash, i) && overlong_at(hash, i + 2) && forall|j: int|
                i < j ==> !#[trigger] lanes_at(hash, j);
        assert(hash[i] == 'p' && hash[i + 1] == '=');
        assert forall|j: int| i + 2 <= j < i + 11 implies 48 <= (#[trigger] hash[j]) as int
            <= 57 by {}
    }
}

/// The account's password is what its hash accepts under Argon2.
pub proof fn password_is_what_argon2_accepts(c: CredentialsView, password: Seq<char>)
    ensures
        c.password_is(password) ==> argon2_accepts(c.password_hash, encode_utf8(password)),
        !has_huge_lanes(c.password_hash) ==> c.password_is(password) == argon2_accepts(
            c.password_hash,
            encode_utf8(password),
        ),
{
    hashes_accept_what_argon2_accepts(c.password_hash, password);
}

/// A hash is made of the whole text and the salt.
pub proof fn hashes_are_made_of_the_whole_text(text: Seq<char>, salt: Seq<u8>, hash: Seq<char>)
    ensures
        hash_of(text, salt) == argon2_phc(encode_utf8(text), salt),
        is_hash_of(hash, text) ==> exists|s: Seq<u8>|
            s.len() == 16 && drawn_salt(s) && #[trigger] argon2_phc(encode_utf8(text), s) == Some(
                hash,
            ),
        hashable(text) <==> encode_utf8(text).len() <= 4294967295,
{
    if is_hash_of(hash, text) {
        let s = choose|s: Seq<u8>|
            s.len() == 16 && drawn_salt(s) && #[trigger] hash_of(text, s) == Some(hash);
        assert(argon2_phc(encode_utf8(text), s) == Some(hash));
    }
}

// Time.

/// What the clock shows is what the system gave, unless it has shown a later
/// moment before.
pub proof fn clock_shows_what_the_system_gave(clock: ClockView, now: u128)
    requires
        shown(clock, now),
    ensures
        exists|r: u128| #[trigger]
            reading(clock.start, r) && r <= now && clock.latest <= now && (now == r || now
                == clock.latest),
        clock.showing(now).start == clock.start,
        clock.showing(now).latest == now,
{
    let r = choose|r: u128| #[trigger] reading(clock.start, r) && now == later(clock.latest, r);
    assert(reading(clock.start, r) && r <= now);
}

/// Something is fresh as long as less than its lifetime has passed.
pub proof fn fresh_means_younger(then: u128, now: u128, lifetime: u128)
    requires
        lifetime > 0,
    ensures
        fresh(then, now, lifetime) <==> now - then < lifetime,
{
}

/// A session is live for fourteen days of 86400 seconds, to the nanosecond.
pub proof fn sessions_last_fourteen_days(v: AuthView, token: Seq<char>, now: u128)
    ensures
        v.session_live(token, now) <==> v.sessions.contains_key(token) && now - v.sessions[token]
            < 14 * 86400 * 1_000_000_000,
{
}

/// A login may wait for its second factor for five minutes.
pub proof fn pending_logins_last_five_minutes(v: AuthView, token: Seq<char>, now: u128)
    ensures
        v.pending_live(token, now) <==> v.pending.contains_key(token) && now - v.pending[token] < 5
            * 60 * 1_000_000_000,
{
}

/// A client is locked out after eight failures, for fifteen minutes from the
/// first of them.
pub proof fn eight_failures_in_fifteen_minutes(v: AuthView, client: Seq<char>, now: u128)
    ensures
        v.locked_out(client, now) <==> v.attempts.contains_key(client) && v.attempts[client].count
            >= 8 && now - v.attempts[client].first < 15 * 60 * 1_000_000_000,
        v.valid() <==> forall|c: Seq<char>| #[trigger]
            v.attempts.contains_key(c) ==> 1 <= v.attempts[c].count <= 8,
{
}

/// Whether a session is live is settled by the system's clock: one that the
/// clock puts at fourteen days or more is not, and is forgotten.
pub proof fn sessions_end_by_the_system_clock(
    clock: ClockView,
    now: u128,
    pre: AuthView,
    post: AuthView,
    token: Seq<char>,
    live: bool,
)
    requires
        shown(clock, now),
        validation_step(pre, post, token, now, live),
    ensures
        live <==> pre.sessions.contains_key(token) && now - pre.sessions[token] < 14 * 86400
            * 1_000_000_000,
        live ==> exists|r: u128| #[trigger]
            reading(clock.start, r) && r - pre.sessions[token] < 14 * 86400 * 1_000_000_000,
        live ==> post == pre,
        !live ==> !post.sessions.contains_key(token),
        forall|t: Seq<char>|
            t != token ==> #[trigger] post.sessions.contains_key(t) == pre.sessions.contains_key(t),
        forall|t: Seq<char>| #[trigger]
            post.sessions.contains_key(t) ==> post.sessions[t] == pre.sessions[t],
        post.credentials == pre.credentials,
        post.attempts == pre.attempts,
        post.pending == pre.pending,
{
    clock_shows_what_the_system_gave(clock, now);
    let r = choose|r: u128| #[trigger] reading(clock.start, r) && r <= now;
    assert(reading(clock.start, r));
}

// What is remembered.

/// Opening a session records it at its moment, keeps every session that is less
/// than fourteen days old at its own, and touches nothing else.
pub proof fn opened_sessions_are_recorded(
    v: AuthView,
    token: Seq<char>,
    now: u128,
    other: Seq<char>,
)
    ensures
        v.with_session(token, now).sessions.contains_key(token),
        v.with_session(token, now).sessions[token] == now,
        other != token ==> (v.with_session(token, now).sessions.contains_key(other)
            <==> v.sessions.contains_key(other) && now - v.sessions[other] < 14 * 86400
            * 1_000_000_000),
        other != token && v.with_session(token, now).sessions.contains_key(other)
            ==> v.with_session(token, now).sessions[other] == v.sessions[other],
        v.with_session(token, now).credentials == v.credentials,
        v.with_session(token, now).attempts == v.attempts,
        v.with_session(token, now).pending == v.pending,
{
}

/// A login that waits is recorded at its moment, every other that may still be
/// completed is kept at its own, and nothing else is touched.
pub proof fn waiting_logins_are_recorded(
    v: AuthView,
    token: Seq<char>,
    now: u128,
    other: Seq<char>,
)
    ensures
        v.with_pending(token, now).pending.contains_key(token),
        v.with_pending(token, now).pending[token] == now,
        other != token ==> (v.with_pending(token, now).pending.contains_key(other)
            <==> v.pending.contains_key(other) && now - v.pending[other] < 5 * 60 * 1_000_000_000),
        other != token && v.with_pending(token, now).pending.contains_key(other)
            ==> v.with_pending(token, now).pending[other] == v.pending[other],
        v.with_pending(token, now).credentials == v.credentials,
        v.with_pending(token, now).attempts == v.attempts,
        v.with_pending(token, now).sessions == v.sessions,
{
}

/// A failure is one more within fifteen minutes of the first, and else the first
/// of a new window. Open windows of others are kept, and nothing else is touched.
pub proof fn failures_are_recorded(v: AuthView, client: Seq<char>, now: u128, other: Seq<char>)
    requires
        v.valid(),
    ensures
        v.with_failure(client, now).attempts.contains_key(client),
        v.attempts.contains_key(client) && now - v.attempts[client].first < 15 * 60 * 1_000_000_000
            ==> v.with_failure(client, now).attempts[client].count == v.attempts[client].count + 1
            && v.with_failure(client, now).attempts[client].first == v.attempts[client].first,
        !(v.attempts.contains_key(client) && now - v.attempts[client].first < 15 * 60
            * 1_000_000_000) ==> v.with_failure(client, now).attempts[client].count == 1
            && v.with_failure(client, now).attempts[client].first == now,
        other != client ==> (v.with_failure(client, now).attempts.contains_key(other)
            <==> v.attempts.contains_key(other) && now - v.attempts[other].first < 15 * 60
            * 1_000_000_000),
        other != client && v.with_failure(client, now).attempts.contains_key(other)
            ==> v.with_failure(client, now).attempts[other] == v.attempts[other],
        v.with_failure(client, now).credentials == v.credentials,
        v.with_failure(client, now).sessions == v.sessions,
        v.with_failure(client, now).pending == v.pending,
{
}

/// Forgiving failures, closing a session and using up a pending token each take
/// out one entry and touch nothing else.
pub proof fn one_entry_is_taken_out(v: AuthView, key: Seq<char>)
    ensures
        v.without_attempts(key) == (AuthView { attempts: v.attempts.remove(key), ..v }),
        v.without_session(key) == (AuthView { sessions: v.sessions.remove(key), ..v }),
        v.without_pending(key) == (AuthView { pending: v.pending.remove(key), ..v }),
{
}

/// A change of the account puts another account in place. It closes every
/// session or none, and touches nothing else.
pub proof fn changes_take_effect(v: AuthView, change: ChangeView, token: Seq<char>)
    ensures
        v.with_change(change).credentials == change.credentials,
        change.ends_sessions ==> !v.with_change(change).sessions.contains_key(token),
        !change.ends_sessions ==> v.with_change(change).sessions == v.sessions,
        v.with_change(change).attempts == v.attempts,
        v.with_change(change).pending == v.pending,
        v.with_credentials(change.credentials).credentials == change.credentials,
        v.with_credentials(change.credentials).sessions == v.sessions,
        v.with_credentials(change.credentials).attempts == v.attempts,
        v.with_credentials(change.credentials).pending == v.pending,
{
}

/// An authenticator starts with its account, and with no sessions, failures or
/// waiting logins.
pub proof fn starts_with_nothing_but_the_account(c: CredentialsView, key: Seq<char>)
    ensures
        AuthView::started(c).credentials == c,
        !AuthView::started(c).sessions.contains_key(key),
        !AuthView::started(c).attempts.contains_key(key),
        !AuthView::started(c).pending.contains_key(key),
{
}

/// The account that contracts speak of is the one in memory, field for field.
pub proof fn accounts_are_what_they_hold(c: Credentials, i: int)
    ensures
        c@.username == c.username@,
        c@.password_hash == c.password_hash@,
        c@.two_factor.enabled == c.two_factor.enabled,
        c.two_factor.secret matches Some(s) ==> c@.two_factor.secret == Some(s@),
        c.two_factor.secret is None ==> c@.two_factor.secret is None,
        c.two_factor.confirmed_secret matches Some(s) ==> c@.two_factor.confirmed_secret == Some(
            s@,
        ),
        c.two_factor.confirmed_secret is None ==> c@.two_factor.confirmed_secret is None,
        c@.two_factor.backup_code_hashes.len() == c.two_factor.backup_code_hashes@.len(),
        0 <= i < c.two_factor.backup_code_hashes@.len() ==> c@.two_factor.backup_code_hashes[i]
            == c.two_factor.backup_code_hashes@[i]@,
{
}

/// Texts are taken as they are, one by one.
pub proof fn texts_are_what_they_hold(v: Seq<String>, s: Option<String>, i: int)
    ensures
        texts(v).len() == v.len(),
        0 <= i < v.len() ==> texts(v)[i] == v[i]@,
        s matches Some(t) ==> text_of(s) == Some(t@),
        s is None ==> text_of(s) is None,
{
}

// Logins.

/// What comes of the first step of a login, for each of the ways that it can go.
pub proof fn first_steps_go_one_of_four_ways(
    pre: AuthView,
    post: AuthView,
    client: Seq<char>,
    username: Seq<char>,
    password_right: bool,
    checked_at: u128,
    now: u128,
    token: Seq<char>,
    outcome: LoginOutcome,
    other: Seq<char>,
)
    requires
        login_step(
            pre,
            post,
            client,
            username,
            password_right,
            checked_at,
            now,
            token,
            outcome,
        ),
    ensures
        ({
            let locked = pre.attempts.contains_key(client) && pre.attempts[client].count >= 8
                && checked_at - pre.attempts[client].first < 15 * 60 * 1_000_000_000;
            let right = username == pre.credentials.username && password_right;
            &&& locked ==> outcome is Failed && post == pre
            &&& !locked && !right ==> outcome is Failed && post == pre.with_failure(client, now)
            &&& !locked && right && pre.credentials.two_factor.enabled ==> {
                &&& outcome matches LoginOutcome::NeedsTwoFactor(t) && t@ == token
                &&& post.pending.contains_key(token)
                &&& post.pending[token] == now
                &&& post.sessions == pre.sessions
            }
            &&& !locked && right && !pre.credentials.two_factor.enabled ==> {
                &&& outcome matches LoginOutcome::Success(t) && t@ == token
                &&& post.sessions.contains_key(token)
                &&& post.sessions[token] == now
                &&& post.pending == pre.pending
            }
            &&& !locked && right ==> {
                &&& !post.attempts.contains_key(client)
                &&& other != client ==> post.attempts.contains_key(other)
                    == pre.attempts.contains_key(other)
                &&& other != client && pre.attempts.contains_key(other) ==> post.attempts[other]
                    == pre.attempts[other]
            }
            &&& post.credentials == pre.credentials
        }),
{
    opened_sessions_are_recorded(pre.without_attempts(client), token, now, other);
    waiting_logins_are_recorded(pre.without_attempts(client), token, now, other);
}

/// What comes of the second step of a login, for each of the ways that it can
/// go.
pub proof fn second_steps_go_one_of_three_ways(
    pre: AuthView,
    post: AuthView,
    client: Seq<char>,
    pending_token: Seq<char>,
    factor: SecondFactor,
    checked_at: u128,
    now: u128,
    token: Seq<char>,
    outcome: TwoFactorLogin,
    other: Seq<char>,
)
    requires
        second_factor_step(
            pre,
            post,
            client,
            pending_token,
            factor,
            checked_at,
            now,
            token,
            outcome,
        ),
    ensures
        ({
            let locked = pre.attempts.contains_key(client) && pre.attempts[client].count >= 8
                && checked_at - pre.attempts[client].first < 15 * 60 * 1_000_000_000;
            let waits = pre.pending.contains_key(pending_token) && checked_at
                - pre.pending[pending_token] < 5 * 60 * 1_000_000_000;
            let good = waits && factor != SecondFactor::Rejected;
            &&& outcome.session is Some <==> !locked && good
            &&& outcome.credentials_changed <==> !locked && good && factor is BackupCode
            &&& locked ==> post == pre
            &&& !locked ==> post.pending == pre.pending.remove(pending_token)
            &&& !locked && !good ==> {
                &&& post.attempts == pre.with_failure(client, now).attempts
                &&& post.sessions == pre.sessions
                &&& post.credentials == pre.credentials
            }
            &&& !locked && good ==> {
                &&& outcome.session->0@ == token
                &&& post.sessions.contains_key(token)
                &&& post.sessions[token] == now
                &&& other != token ==> (post.sessions.contains_key(other)
                    <==> pre.sessions.contains_key(other) && now - pre.sessions[other] < 14 * 86400
                    * 1_000_000_000)
                &&& post.attempts == pre.attempts.remove(client)
                &&& post.credentials.username == pre.credentials.username
                &&& post.credentials.password_hash == pre.credentials.password_hash
                &&& post.credentials.two_factor.enabled == pre.credentials.two_factor.enabled
                &&& post.credentials.two_factor.secret == pre.credentials.two_factor.secret
                &&& post.credentials.two_factor.confirmed_secret
                    == pre.credentials.two_factor.confirmed_secret
            }
            &&& !locked && good && factor is Totp ==> post.credentials == pre.credentials
            &&& !locked && good && factor is BackupCode
                ==> post.credentials.two_factor.backup_code_hashes
                == pre.credentials.two_factor.backup_code_hashes.remove(
                factor->BackupCode_0 as int,
            )
        }),
{
    opened_sessions_are_recorded(
        pre.without_pending(pending_token).without_attempts(client),
        token,
        now,
        other,
    );
}

/// The code is that of one of the three steps of thirty seconds around `time`:
/// the current one, the one before and the one after.
pub open spec fn code_of_three_steps(secret: Seq<char>, code: Seq<char>, time: u64) -> bool {
    exists|k: int|
        time / 30 - 1 <= k <= time / 30 + 1 && code == #[trigger] totp_code(
            HashFunction::Sha1,
            6,
            30,
            base32_bytes(secret)->0,
            (k * 30) as u64,
        )
}

/// A code of an authenticator app is right exactly if it is that of the current
/// step, the one before or the one after, under a secret of sixteen bytes or more
/// and a name without a colon.
pub proof fn codes_are_right_in_three_steps(
    secret: Seq<char>,
    username: Seq<char>,
    code: Seq<char>,
    time: Option<u64>,
)
    ensures
        ({
            let usable = base32_bytes(secret) is Some && base32_bytes(secret)->0.len() >= 16
                && !username.contains(':');
            let verdict = code_verdict(secret, username, code, time);
            &&& verdict == CodeVerdict::Unusable <==> !usable
            &&& verdict == CodeVerdict::Right <==> usable && time is Some && 30 <= time->0
                <= u64::MAX - 60 && code_of_three_steps(secret, code, time->0)
        }),
{
}

/// A second factor is a right code of the authenticator app under the confirmed
/// secret, or a text that Argon2 accepts under a stored hash, and nothing else.
pub proof fn second_factors_are_codes(
    c: CredentialsView,
    code: Seq<char>,
    time: Option<u64>,
    factor: SecondFactor,
)
    requires
        is_second_factor(c, code, time, factor),
    ensures
        factor == SecondFactor::Totp ==> {
            &&& c.two_factor.confirmed_secret is Some
            &&& time is Some
            &&& code.len() == 6
            &&& code_of_three_steps(c.two_factor.confirmed_secret->0, code, time->0)
        },
        factor matches SecondFactor::BackupCode(i) ==> {
            &&& i < c.two_factor.backup_code_hashes.len()
            &&& argon2_accepts(c.two_factor.backup_code_hashes[i as int], encode_utf8(code))
            &&& forall|j: int|
                0 <= j < i ==> !accepts(#[trigger] c.two_factor.backup_code_hashes[j], code)
        },
        factor == SecondFactor::Rejected ==> forall|j: int|
            0 <= j < c.two_factor.backup_code_hashes.len() ==> !accepts(
                #[trigger] c.two_factor.backup_code_hashes[j],
                code,
            ),
        factor != SecondFactor::Totp ==> !(c.two_factor.confirmed_secret matches Some(s)
            && code_verdict(s, c.username, code, time) == CodeVerdict::Right),
{
    if c.two_factor.confirmed_secret is Some {
        codes_are_right_in_three_steps(
            c.two_factor.confirmed_secret->0,
            c.username,
            code,
            time,
        );
    }
}

/// A code that is neither that of one of the three steps around the time of the
/// attempt nor accepted under a stored hash opens no session, and counts as a
/// failure of a client that is not locked out. An old code of the app is such a
/// one.
pub proof fn other_codes_open_nothing(
    pre: AuthView,
    post: AuthView,
    client: Seq<char>,
    pending_token: Seq<char>,
    code: Seq<char>,
    time: Option<u64>,
    factor: SecondFactor,
    checked_at: u128,
    now: u128,
    token: Seq<char>,
    outcome: TwoFactorLogin,
)
    requires
        completion_step(
            pre,
            post,
            client,
            pending_token,
            code,
            time,
            factor,
            checked_at,
            now,
            token,
            outcome,
        ),
        !(time is Some && pre.credentials.two_factor.confirmed_secret is Some
            && code_of_three_steps(
            pre.credentials.two_factor.confirmed_secret->0,
            code,
            time->0,
        )),
        forall|j: int|
            0 <= j < pre.credentials.two_factor.backup_code_hashes.len() ==> !argon2_accepts(
                #[trigger] pre.credentials.two_factor.backup_code_hashes[j],
                encode_utf8(code),
            ),
    ensures
        outcome.session is None,
        post.sessions == pre.sessions,
        post.credentials == pre.credentials,
        !(pre.attempts.contains_key(client) && pre.attempts[client].count >= 8 && checked_at
            - pre.attempts[client].first < 15 * 60 * 1_000_000_000) ==> post.attempts
            == pre.with_failure(client, now).attempts,
{
    if factor_counts(pre, client, pending_token, checked_at) {
        second_factors_are_codes(pre.credentials, code, time, factor);
    }
    second_steps_go_one_of_three_ways(
        pre,
        post,
        client,
        pending_token,
        factor,
        checked_at,
        now,
        token,
        outcome,
        token,
    );
}

// Backup codes.

/// A backup code spells its eight bytes in an alphabet of thirty-two letters and
/// digits, one character to a byte, with a hyphen in the middle.
pub proof fn backup_codes_spell_their_bytes(raw: Seq<u8>, k: int)
    requires
        raw.len() == 8,
        0 <= k < 8,
    ensures
        code_text(raw).len() == 9,
        code_text(raw)[4] == '-',
        code_text(raw)[if k < 4 {
            k
        } else {
            k + 1
        }] == "ABCDEFGHJKLMNPQRSTUVWXYZ23456789"@[raw[k] as int % 32],
{
}

/// Two codes are the same only if their bytes agree in the five bits of each
/// that are spelled.
pub proof fn different_bytes_make_different_codes(a: Seq<u8>, b: Seq<u8>, k: int)
    requires
        a.len() == 8,
        b.len() == 8,
        0 <= k < 8,
        a[k] % 32 != b[k] % 32,
    ensures
        code_text(a) != code_text(b),
{
    reveal_strlit("ABCDEFGHJKLMNPQRSTUVWXYZ23456789");
    backup_codes_spell_their_bytes(a, k);
    backup_codes_spell_their_bytes(b, k);
}

/// The codes of a set are eight. They spell sixty-four bytes that the random
/// source gave in one draw, each of its own eight. What is kept of each is its
/// Argon2 hash under a salt that was drawn, which accepts it.
pub proof fn issued_codes_spell_drawn_bytes(
    codes: Seq<Seq<char>>,
    hashes: Seq<Seq<char>>,
    i: int,
)
    requires
        issued(codes, hashes),
        0 <= i < 8,
    ensures
        codes.len() == 8,
        hashes.len() == 8,
        exists|bytes: Seq<u8>| #[trigger]
            drawn(bytes) && bytes.len() == 64 && forall|j: int|
                0 <= j < 8 ==> #[trigger] codes[j] == code_text(
                    bytes.subrange(8 * j, 8 * j + 8),
                ),
        exists|salt: Seq<u8>|
            salt.len() == 16 && drawn_salt(salt) && #[trigger] argon2_phc(
                encode_utf8(codes[i]),
                salt,
            ) == Some(hashes[i]),
        argon2_accepts(hashes[i], encode_utf8(codes[i])),
{
    let bytes = choose|bytes: Seq<u8>| drawn(bytes) && #[trigger] made_of(codes, bytes);
    assert(drawn(bytes));
    assert forall|j: int| 0 <= j < 8 implies #[trigger] codes[j] == code_text(
        bytes.subrange(8 * j, 8 * j + 8),
    ) by {
        assert(codes[j] == code_text(bytes.subrange(j * 8, (j + 1) * 8)));
    }
    assert(is_hash_of(hashes[i], codes[i]));
    hashes_are_made_of_the_whole_text(codes[i], seq![], hashes[i]);
    assert(accepts(hashes[i], codes[i]));
}

// The account.

/// A change of name and password that succeeds takes the current password. It
/// gives the account exactly the new name and exactly the hash of the new
/// password, keeps whichever of them is not given and all of the second factor,
/// and closes every session.
pub proof fn changed_account_is_as_asked(
    c: CredentialsView,
    password: Seq<char>,
    new_username: Option<Seq<char>>,
    new_password: Option<Seq<char>>,
    salt: Seq<u8>,
    r: Result<CredentialChange, &'static str>,
)
    requires
        account_outcome(c, password, new_username, new_password, salt, r),
    ensures
        r is Ok <==> {
            &&& c.password_is(password)
            &&& new_password matches Some(p) ==> strong(p) && argon2_phc(encode_utf8(p), salt)
                is Some
        },
        r matches Ok(change) ==> {
            let after = change@.credentials;
            &&& change@.base == c
            &&& change@.ends_sessions
            &&& new_username matches Some(name) ==> after.username == name
            &&& new_username is None ==> after.username == c.username
            &&& new_password matches Some(p) ==> Some(after.password_hash) == argon2_phc(
                encode_utf8(p),
                salt,
            )
            &&& new_password is None ==> after.password_hash == c.password_hash
            &&& after.two_factor == c.two_factor
        },
        r matches Err(message) ==> message@ == (if !c.password_is(password) {
            "current password is incorrect"@
        } else if !strong(new_password->0) {
            weakness(new_password->0)
        } else {
            "failed to hash new password"@
        }),
{
}

/// After a change of name takes effect, a login under the new name, with a
/// password that the account accepts, gets past the first step, and one under
/// another name does not.
pub proof fn new_name_logs_in(
    v: AuthView,
    password: Seq<char>,
    name: Seq<char>,
    new_password: Option<Seq<char>>,
    salt: Seq<u8>,
    change: CredentialChange,
    post: AuthView,
    client: Seq<char>,
    tried: Seq<char>,
    tried_password: Seq<char>,
    checked_at: u128,
    now: u128,
    token: Seq<char>,
    outcome: LoginOutcome,
)
    requires
        account_outcome(v.credentials, password, Some(name), new_password, salt, Ok(change)),
        login_step(
            v.with_change(change@),
            post,
            client,
            tried,
            change@.credentials.password_is(tried_password),
            checked_at,
            now,
            token,
            outcome,
        ),
        change@.credentials.password_is(tried_password),
        !v.locked_out(client, checked_at),
    ensures
        outcome is Failed <==> tried != name,
        outcome is Success <==> tried == name && !v.credentials.two_factor.enabled,
{
}

/// A setup stores the secret that the app is told, and changes nothing else. The
/// app is told the secret, its address and a picture of the address.
pub proof fn started_setup_is_as_told(
    c: CredentialsView,
    secret: Seq<char>,
    r: Result<(CredentialChange, (String, String, String)), &'static str>,
)
    requires
        setup_outcome(c, secret, r),
    ensures
        ({
            let usable = base32_bytes(secret) is Some && base32_bytes(secret)->0.len() >= 16
                && !c.username.contains(':');
            let url = otpauth_url(
                HashFunction::Sha1,
                6,
                30,
                base32_bytes(secret)->0,
                Some("Claunote"@),
                c.username,
            );
            &&& r is Ok <==> usable && qr_base64(url) is Some
            &&& r matches Err(message) ==> message@ == (if !usable {
                "failed to build TOTP"@
            } else {
                "failed to generate QR code"@
            })
            &&& r matches Ok((change, told)) ==> {
                &&& told.0@ == secret
                &&& told.1@ == url
                &&& told.2@ == "data:image/png;base64,"@ + qr_base64(url)->0
                &&& change@.base == c
                &&& !change@.ends_sessions
                &&& change@.credentials.username == c.username
                &&& change@.credentials.password_hash == c.password_hash
                &&& change@.credentials.two_factor.enabled == c.two_factor.enabled
                &&& change@.credentials.two_factor.secret == Some(secret)
                &&& change@.credentials.two_factor.confirmed_secret
                    == c.two_factor.confirmed_secret
                &&& change@.credentials.two_factor.backup_code_hashes
                    == c.two_factor.backup_code_hashes
            }
        }),
{
}

/// A setup is confirmed exactly by a code that is right under its secret. That
/// switches the second factor on with that secret and a fresh set of codes, and
/// changes nothing else.
pub proof fn confirmed_setup_is_in_force(
    c: CredentialsView,
    code: Seq<char>,
    time: Option<u64>,
    r: Result<(CredentialChange, Vec<String>), &'static str>,
)
    requires
        confirmation_outcome(c, code, time, r),
    ensures
        r is Ok <==> c.two_factor.secret is Some && code_verdict(
            c.two_factor.secret->0,
            c.username,
            code,
            time,
        ) == CodeVerdict::Right,
        r matches Err(message) ==> message@ == (if c.two_factor.secret is None {
            "no 2FA setup in progress - start setup first"@
        } else if code_verdict(c.two_factor.secret->0, c.username, code, time)
            == CodeVerdict::Unusable {
            "failed to build TOTP"@
        } else {
            "that code didn't match - check your authenticator app's time is correct"@
        }),
        r matches Ok((change, shown)) ==> {
            &&& change@.base == c
            &&& !change@.ends_sessions
            &&& change@.credentials.username == c.username
            &&& change@.credentials.password_hash == c.password_hash
            &&& change@.credentials.two_factor.enabled
            &&& change@.credentials.two_factor.secret == c.two_factor.secret
            &&& change@.credentials.two_factor.confirmed_secret == c.two_factor.secret
            &&& issued(texts(shown@), change@.credentials.two_factor.backup_code_hashes)
        },
{
}

/// Backup codes are renewed exactly for the current password while the second
/// factor is on. A fresh set takes the place of all that there were, and nothing
/// else changes.
pub proof fn renewed_codes_replace_all(
    c: CredentialsView,
    password: Seq<char>,
    r: Result<(CredentialChange, Vec<String>), &'static str>,
)
    requires
        renewal_outcome(c, password, r),
    ensures
        r is Ok <==> c.password_is(password) && c.two_factor.enabled,
        r matches Err(message) ==> message@ == (if !c.password_is(password) {
            "current password is incorrect"@
        } else {
            "two-factor authentication isn't enabled"@
        }),
        r matches Ok((change, shown)) ==> {
            &&& change@.base == c
            &&& !change@.ends_sessions
            &&& change@.credentials.username == c.username
            &&& change@.credentials.password_hash == c.password_hash
            &&& change@.credentials.two_factor.enabled
            &&& change@.credentials.two_factor.secret == c.two_factor.secret
            &&& change@.credentials.two_factor.confirmed_secret == c.two_factor.confirmed_secret
            &&& issued(texts(shown@), change@.credentials.two_factor.backup_code_hashes)
        },
{
}

/// A code of an earlier set is refused once the codes are renewed, unless Argon2
/// accepts it under one of the new hashes.
pub proof fn old_codes_are_refused_after_renewal(
    c: CredentialsView,
    password: Seq<char>,
    change: CredentialChange,
    shown: Vec<String>,
    old_code: Seq<char>,
    time: Option<u64>,
    factor: SecondFactor,
)
    requires
        renewal_outcome(c, password, Ok((change, shown))),
        is_backup_code(old_code),
        forall|j: int|
            0 <= j < 8 ==> !argon2_accepts(
                #[trigger] change@.credentials.two_factor.backup_code_hashes[j],
                encode_utf8(old_code),
            ),
        is_second_factor(change@.credentials, old_code, time, factor),
    ensures
        factor == SecondFactor::Rejected,
{
    renewed_codes_replace_all(c, password, Ok((change, shown)));
    second_factors_are_codes(change@.credentials, old_code, time, factor);
}

/// Without a second factor there is nothing left of one, and switching it off
/// keeps the rest of the account.
pub proof fn disabled_means_gone(c: CredentialsView)
    ensures
        !no_second_factor().enabled,
        no_second_factor().secret is None,
        no_second_factor().confirmed_secret is None,
        no_second_factor().backup_code_hashes.len() == 0,
        c.with_two_factor(no_second_factor()).two_factor == no_second_factor(),
        c.with_two_factor(no_second_factor()).username == c.username,
        c.with_two_factor(no_second_factor()).password_hash == c.password_hash,
{
}

/// What each change of the second factor makes of an account.
pub proof fn second_factor_changes_are_small(
    c: CredentialsView,
    secret: Seq<char>,
    hashes: Seq<Seq<char>>,
)
    ensures
        c.with_secret(secret).two_factor.secret == Some(secret),
        c.with_secret(secret).two_factor.confirmed_secret == c.two_factor.confirmed_secret,
        c.with_secret(secret).two_factor.enabled == c.two_factor.enabled,
        c.with_secret(secret).two_factor.backup_code_hashes == c.two_factor.backup_code_hashes,
        c.with_secret(secret).username == c.username,
        c.with_secret(secret).password_hash == c.password_hash,
        c.with_backup_codes(hashes).two_factor.backup_code_hashes == hashes,
        c.with_backup_codes(hashes).two_factor.secret == c.two_factor.secret,
        c.with_backup_codes(hashes).two_factor.confirmed_secret == c.two_factor.confirmed_secret,
        c.with_backup_codes(hashes).two_factor.enabled == c.two_factor.enabled,
        c.with_backup_codes(hashes).username == c.username,
        c.with_backup_codes(hashes).password_hash == c.password_hash,
        c.with_two_factor_on(hashes).two_factor.enabled,
        c.with_two_factor_on(hashes).two_factor.backup_code_hashes == hashes,
        c.with_two_factor_on(hashes).two_factor.secret == c.two_factor.secret,
        c.with_two_factor_on(hashes).two_factor.confirmed_secret == c.two_factor.secret,
        c.with_two_factor_on(hashes).username == c.username,
        c.with_two_factor_on(hashes).password_hash == c.password_hash,
{
}

/// A stored account is taken as it is. Only where its second factor is on and no
/// confirmed secret was stored, its secret counts as confirmed.
pub proof fn stored_accounts_are_taken(c: CredentialsView)
    ensures
        c.restored().username == c.username,
        c.restored().password_hash == c.password_hash,
        c.restored().two_factor.enabled == c.two_factor.enabled,
        c.restored().two_factor.secret == c.two_factor.secret,
        c.restored().two_factor.backup_code_hashes == c.two_factor.backup_code_hashes,
        c.two_factor.enabled && c.two_factor.confirmed_secret is None
            ==> c.restored().two_factor.confirmed_secret == c.two_factor.secret,
        !c.two_factor.enabled || c.two_factor.confirmed_secret is Some
            ==> c.restored().two_factor.confirmed_secret == c.two_factor.confirmed_secret,
{
}

/// The first account has exactly the configured name and the hash of the
/// configured password, and no second factor. There is one exactly if the
/// password is strong and could be hashed.
pub proof fn first_account_is_as_configured(
    username: Seq<char>,
    password: Seq<char>,
    hash: Option<Seq<char>>,
    r: Result<CredentialsView, BootstrapError>,
)
    requires
        bootstrap_outcome(username, password, hash, r),
    ensures
        r is Ok <==> strong(password) && hash is Some,
        r matches Ok(c) ==> {
            &&& c.username == username
            &&& Some(c.password_hash) == hash
            &&& !c.two_factor.enabled
            &&& c.two_factor.secret is None
            &&& c.two_factor.confirmed_secret is None
            &&& c.two_factor.backup_code_hashes.len() == 0
        },
        !strong(password) ==> (r matches Err(BootstrapError::WeakPassword(message)) && message@
            == weakness(password)),
        strong(password) && hash is None ==> r matches Err(BootstrapError::NotHashed(_)),
{
}

/// The account that is spoken of at the start is the one that was made, or that
/// the authenticator has.
pub proof fn first_account_is_the_one_made(
    made: Result<Credentials, BootstrapError>,
    started: Result<(Auth, bool), BootstrapError>,
)
    ensures
        made matches Ok(c) ==> account_of(made) == Ok::<CredentialsView, BootstrapError>(c@),
        made matches Err(e) ==> account_of(made) == Err::<CredentialsView, BootstrapError>(e),
        started matches Ok((auth, _)) ==> first_account(started) == Ok::<
            CredentialsView,
            BootstrapError,
        >(auth@.credentials),
        started matches Err(e) ==> first_account(started) == Err::<CredentialsView, BootstrapError>(
            e,
        ),
{
}

/// What is answered to a change is settled by these facts alone, in this order.
pub proof fn refusals_are_these(
    c: CredentialsView,
    enrolment: Enrolment,
    verdict: CodeVerdict,
    password_right: bool,
    given: bool,
    new_password: Option<Seq<char>>,
)
    ensures
        setup_refusal(enrolment) is None <==> enrolment is Ready,
        enrolment is Unusable ==> setup_refusal(enrolment) == Some("failed to build TOTP"@),
        enrolment is NoPicture ==> setup_refusal(enrolment) == Some("failed to generate QR code"@),
        confirmation_refusal(c, verdict, given) is None <==> c.two_factor.secret is Some && verdict
            == CodeVerdict::Right && given,
        renewal_refusal(c, password_right, given) is None <==> password_right
            && c.two_factor.enabled && given,
        account_refusal(password_right, new_password, given) is None <==> password_right && (
        new_password matches Some(p) ==> strong(p) && given),
{
}

/// A new name and a new hash are taken exactly as they are, and what is not given
/// stays.
pub proof fn renaming_is_exact(
    c: CredentialsView,
    new_username: Option<Seq<char>>,
    new_hash: Option<Seq<char>>,
)
    ensures
        new_username matches Some(name) ==> renamed(c, new_username, new_hash).username == name,
        new_username is None ==> renamed(c, new_username, new_hash).username == c.username,
        new_hash matches Some(h) ==> renamed(c, new_username, new_hash).password_hash == h,
        new_hash is None ==> renamed(c, new_username, new_hash).password_hash == c.password_hash,
        renamed(c, new_username, new_hash).two_factor == c.two_factor,
{
}

// Cookies.

/// The cookie of a session, word for word.
pub proof fn session_cookies_read_like_this(token: Seq<char>, secure: bool)
    ensures
        cookie_text(token, decimal(SESSION_LIFETIME_SECS as nat), secure) == "claunote_session="@
            + token + "; HttpOnly; SameSite=Strict; Path=/; Max-Age=1209600"@ + (if secure {
            "; Secure"@
        } else {
            ""@
        }),
{
    reveal_strlit("claunote_session");
    reveal_strlit("=");
    reveal_strlit("claunote_session=");
    reveal_strlit("; HttpOnly; SameSite=Strict; Path=/; Max-Age=");
    reveal_strlit("; HttpOnly; SameSite=Strict; Path=/; Max-Age=1209600");
    reveal_with_fuel(decimal, 8);
    assert(cookie_prefix() =~= "claunote_session="@);
    assert("; HttpOnly; SameSite=Strict; Path=/; Max-Age="@ + decimal(1209600)
        =~= "; HttpOnly; SameSite=Strict; Path=/; Max-Age=1209600"@);
    assert(cookie_text(token, decimal(1209600), secure) =~= "claunote_session="@ + token
        + ("; HttpOnly; SameSite=Strict; Path=/; Max-Age="@ + decimal(1209600)) + secure_attribute(
        secure,
    ));
}

/// The cookie that ends a session, word for word.
pub proof fn logout_cookies_read_like_this(secure: bool)
    ensures
        cookie_text(""@, decimal(0), secure)
            == "claunote_session=; HttpOnly; SameSite=Strict; Path=/; Max-Age=0"@ + (if secure {
            "; Secure"@
        } else {
            ""@
        }),
{
    reveal_strlit("");
    reveal_strlit("claunote_session");
    reveal_strlit("=");
    reveal_strlit("; HttpOnly; SameSite=Strict; Path=/; Max-Age=");
    reveal_strlit("claunote_session=; HttpOnly; SameSite=Strict; Path=/; Max-Age=0");
    assert(cookie_text(""@, decimal(0), secure)
        =~= "claunote_session=; HttpOnly; SameSite=Strict; Path=/; Max-Age=0"@ + secure_attribute(
        secure,
    ));
}

/// Between `a` and `b` stands one piece of the header, set apart by semicolons.
/// Between `i` and `j` stands the cookie with the token `t` in it, and around it,
/// within the piece, only white space.
pub open spec fn carries(
    header: Seq<char>,
    a: int,
    i: int,
    j: int,
    b: int,
    t: Seq<char>,
) -> bool {
    &&& 0 <= a <= i <= j <= b <= header.len()
    &&& a == 0 || header[a - 1] == ';'
    &&& b == header.len() || header[b] == ';'
    &&& forall|k: int| a <= k < b ==> header[k] != ';'
    &&& forall|k: int| a <= k < i ==> white_space(#[trigger] header[k])
    &&& forall|k: int| j <= k < b ==> white_space(#[trigger] header[k])
    &&& header.subrange(i, j) == "claunote_session="@ + t
    &&& t.len() > 0
    &&& !white_space(t.last())
}

/// Trimming leaves a stretch of the text with no white space at its ends, and
/// takes off only white space.
proof fn lemma_trim_bounds(s: Seq<char>) -> (r: (int, int))
    ensures
        0 <= r.0 <= r.1 <= s.len(),
        trim(s) == s.subrange(r.0, r.1),
        forall|k: int| 0 <= k < r.0 ==> white_space(#[trigger] s[k]),
        forall|k: int| r.1 <= k < s.len() ==> white_space(#[trigger] s[k]),
        r.0 < r.1 ==> !white_space(s[r.0]) && !white_space(s[r.1 - 1]),
{
    let i = lemma_trim_start_bound(s);
    let t = s.skip(i);
    let n = lemma_trim_end_bound(t);
    assert(trim(s) == t.take(n));
    assert(t.take(n) =~= s.subrange(i, i + n));
    assert forall|k: int| i + n <= k < s.len() implies white_space(#[trigger] s[k]) by {
        assert(t[k - i] == s[k]);
    }
    if n > 0 {
        assert(t[0] == s[i]);
        assert(t[n - 1] == s[i + n - 1]);
    }
    (i, i + n)
}

proof fn lemma_trim_start_bound(s: Seq<char>) -> (i: int)
    ensures
        0 <= i <= s.len(),
        trim_start(s) == s.skip(i),
        forall|k: int| 0 <= k < i ==> white_space(#[trigger] s[k]),
        i < s.len() ==> !white_space(s[i]),
    decreases s.len(),
{
    if s.len() > 0 && white_space(s.first()) {
        let t = s.drop_first();
        let n = lemma_trim_start_bound(t);
        assert(t.skip(n) =~= s.skip(n + 1));
        assert forall|k: int| 0 <= k < n + 1 implies white_space(#[trigger] s[k]) by {
            if k > 0 {
                assert(t[k - 1] == s[k]);
            }
        }
        if n < t.len() {
            assert(t[n] == s[n + 1]);
        }
        n + 1
    } else {
        assert(s.skip(0) =~= s);
        0
    }
}

proof fn lemma_trim_end_bound(s: Seq<char>) -> (n: int)
    ensures
        0 <= n <= s.len(),
        trim_end(s) == s.take(n),
        forall|k: int| n <= k < s.len() ==> white_space(#[trigger] s[k]),
        n > 0 ==> !white_space(s[n - 1]),
    decreases s.len(),
{
    if s.len() > 0 && white_space(s.last()) {
        let t = s.drop_last();
        let n = lemma_trim_end_bound(t);
        assert(t.take(n) =~= s.take(n));
        assert forall|k: int| n <= k < s.len() implies white_space(#[trigger] s[k]) by {
            if k < t.len() {
                assert(t[k] == s[k]);
            }
        }
        n
    } else {
        assert(s.take(s.len() as int) =~= s);
        s.len() as int
    }
}

/// Where a text without semicolons carries a token, it carries it just so.
proof fn lemma_piece(s: Seq<char>, t: Seq<char>)
    requires
        token_in(s) == Some(t),
        forall|k: int| 0 <= k < s.len() ==> s[k] != ';',
    ensures
        exists|i: int, j: int| #[trigger] carries(s, 0, i, j, s.len() as int, t),
{
    reveal_strlit("claunote_session");
    reveal_strlit("=");
    reveal_strlit("claunote_session=");
    let (i, j) = lemma_trim_bounds(s);
    let whole = trim(s);
    let p = cookie_prefix();
    assert(p =~= "claunote_session="@);
    assert(whole =~= p + t);
    assert(t.last() == s[j - 1]);
    assert(carries(s, 0, i, j, s.len() as int, t));
}

/// What is found in a header as a session token stands in it as the value of the
/// session cookie, whole, in a piece of its own.
pub proof fn found_tokens_stand_in_the_header(header: Seq<char>, t: Seq<char>)
    requires
        session_token(header) == Some(t),
    ensures
        exists|a: int, i: int, j: int, b: int| #[trigger] carries(header, a, i, j, b, t),
    decreases header.len(),
{
    lemma_first_index_bounds(header, ';');
    let n = first_index(header, ';');
    let part = header.take(n);
    let parts = split(header, ';');
    assert(parts.first() =~= part);
    if token_in(part) is Some {
        lemma_piece(part, t);
        let (i, j) = choose|i: int, j: int| #[trigger] carries(part, 0, i, j, n, t);
        assert(header.subrange(i, j) =~= part.subrange(i, j));
        assert forall|k: int| 0 <= k < i implies white_space(#[trigger] header[k]) by {
            assert(part[k] == header[k]);
        }
        assert forall|k: int| j <= k < n implies white_space(#[trigger] header[k]) by {
            assert(part[k] == header[k]);
        }
        assert(carries(header, 0, i, j, n, t));
    } else if n < header.len() {
        let rest = header.skip(n + 1);
        assert(parts.drop_first() =~= split(rest, ';'));
        found_tokens_stand_in_the_header(rest, t);
        let (a, i, j, b) = choose|a: int, i: int, j: int, b: int| #[trigger]
            carries(rest, a, i, j, b, t);
        let o = n + 1;
        assert(header.subrange(i + o, j + o) =~= rest.subrange(i, j));
        assert forall|k: int| a + o <= k < b + o implies header[k] != ';' by {
            assert(rest[k - o] == header[k]);
        }
        assert forall|k: int| a + o <= k < i + o implies white_space(#[trigger] header[k]) by {
            assert(rest[k - o] == header[k]);
        }
        assert forall|k: int| j + o <= k < b + o implies white_space(#[trigger] header[k]) by {
            assert(rest[k - o] == header[k]);
        }
        if a > 0 {
            assert(rest[a - 1] == header[a + o - 1]);
        }
        if b < rest.len() {
            assert(rest[b] == header[b + o]);
        }
        assert(carries(header, a + o, i + o, j + o, b + o, t));
    } else {
        assert(parts.drop_first() =~= Seq::empty());
        assert(first_token(parts.drop_first()) is None);
    }
}

/// A session cookie on its own gives its token, whatever white space stands
/// around it.
proof fn lemma_piece_is_found(s: Seq<char>, i: int, j: int, t: Seq<char>)
    requires
        carries(s, 0, i, j, s.len() as int, t),
    ensures
        session_token(s) == Some(t),
{
    reveal_strlit("claunote_session");
    reveal_strlit("=");
    reveal_strlit("claunote_session=");
    let p = cookie_prefix();
    assert(p =~= "claunote_session="@);
    let (a, b) = lemma_trim_bounds(s);
    assert(s.subrange(i, j).len() == j - i == p.len() + t.len());
    assert(s.subrange(i, j)[0] == s[i]);
    assert(s.subrange(i, j)[j - i - 1] == s[j - 1]);
    assert((p + t)[0] == 'c');
    assert((p + t)[j - i - 1] == t.last());
    assert(!white_space(s[i]));
    assert(!white_space(s[j - 1]));
    assert(a == i && b == j);
    assert(trim(s) == p + t);
    assert((p + t).subrange(0, p.len() as int) =~= p);
    assert((p + t).skip(p.len() as int) =~= t);
    lemma_first_index(s, ';', s.len() as int);
    assert(split(s, ';') =~= seq![s]);
}

/// A header that carries a session cookie with a value gives a token; if no
/// earlier piece carries one, it is that value.
pub proof fn carried_tokens_are_found(
    header: Seq<char>,
    a: int,
    i: int,
    j: int,
    b: int,
    t: Seq<char>,
)
    requires
        carries(header, a, i, j, b, t),
    ensures
        session_token(header) is Some,
        a == 0 ==> session_token(header) == Some(t),
        a > 0 && session_token(header.take(a - 1)) is None ==> session_token(header) == Some(t),
{
    let piece = header.subrange(a, b);
    assert(piece.subrange(i - a, j - a) =~= header.subrange(i, j));
    assert forall|k: int| 0 <= k < i - a implies white_space(#[trigger] piece[k]) by {
        assert(piece[k] == header[a + k]);
    }
    assert forall|k: int| j - a <= k < piece.len() implies white_space(#[trigger] piece[k]) by {
        assert(piece[k] == header[a + k]);
    }
    assert(carries(piece, 0, i - a, j - a, piece.len() as int, t));
    lemma_piece_is_found(piece, i - a, j - a, t);
    let tail = header.skip(a);
    if b < header.len() {
        assert(tail =~= piece + seq![';'] + header.skip(b + 1));
        first_cookie_counts(piece, header.skip(b + 1));
    } else {
        assert(tail =~= piece);
    }
    if a > 0 {
        assert(header =~= header.take(a - 1) + seq![';'] + tail);
        first_cookie_counts(header.take(a - 1), tail);
    } else {
        assert(tail =~= header);
    }
}

} // verus!
