//! What holds of the authenticator as a whole, whatever is asked of it and in
//! whatever order.

use vstd::prelude::*;

#[allow(unused_imports)]
use crate::backup::{is_backup_code, texts};
#[allow(unused_imports)]
use crate::change::{
    account_outcome, confirmation_outcome, renewal_outcome, setup_outcome, CredentialChange,
};
#[allow(unused_imports)]
use crate::cookie::{
    cookie_prefix, cookie_text, decimal, first_token, secure_attribute, session_token, token_in,
};
#[allow(unused_imports)]
use crate::credentials::{is_second_factor, no_second_factor, CredentialsView, SecondFactor};
#[allow(unused_imports)]
use crate::policy::{
    elapsed, fresh, LOGIN_ATTEMPT_WINDOW, MAX_LOGIN_ATTEMPTS, PENDING_2FA_LIFETIME,
    SESSION_LIFETIME, SESSION_LIFETIME_SECS,
};
#[allow(unused_imports)]
use crate::secrets::{accepts, strong, PHC_PREFIX};
#[allow(unused_imports)]
use crate::state::{
    completion_step, factor_counts, login_step, second_factor_step, validation_step, AuthView,
    LoginOutcome, TwoFactorLogin,
};
#[allow(unused_imports)]
use crate::text::{
    first_index, lemma_first_index, lemma_first_index_bounds, split, trim, trim_end, trim_start,
    white_space,
};
#[allow(unused_imports)]
use crate::token::{base64_url, is_url_safe, lemma_token_shape, TOKEN_BYTES};
#[allow(unused_imports)]
use crate::totp::{
    base32_bytes, checkable, code_current, totp_code, HashFunction, TOTP_DIGITS, TOTP_STEP,
};

verus! {

// Sessions.

/// A session is live for exactly its lifetime, counted from when it was opened.
pub proof fn session_lives_its_lifetime(v: AuthView, token: Seq<char>, opened: u128, now: u128)
    ensures
        v.with_session(token, opened).session_live(token, now) <==> elapsed(opened, now)
            < SESSION_LIFETIME,
{
}

/// Opening a session neither closes nor revives another.
pub proof fn opening_a_session_leaves_others(
    v: AuthView,
    token: Seq<char>,
    opened: u128,
    other: Seq<char>,
    now: u128,
)
    requires
        other != token,
        opened <= now,
    ensures
        v.with_session(token, opened).session_live(other, now) == v.session_live(other, now),
{
}

/// After opening a session, no session is remembered that is past its lifetime.
pub proof fn opening_a_session_forgets_dead_ones(
    v: AuthView,
    token: Seq<char>,
    opened: u128,
    other: Seq<char>,
)
    requires
        v.with_session(token, opened).sessions.contains_key(other),
    ensures
        v.with_session(token, opened).session_live(other, opened),
{
}

/// After logging out a session is not live at any time, and no other session is
/// touched.
pub proof fn logging_out_closes_one_session(
    v: AuthView,
    token: Seq<char>,
    other: Seq<char>,
    now: u128,
)
    ensures
        !v.without_session(token).session_live(token, now),
        other != token ==> v.without_session(token).session_live(other, now) == v.session_live(
            other,
            now,
        ),
{
}

/// Asking about a session changes no later answer about any session.
pub proof fn asking_about_a_session_changes_nothing(
    pre: AuthView,
    post: AuthView,
    token: Seq<char>,
    now: u128,
    live: bool,
    other: Seq<char>,
    later: u128,
)
    requires
        validation_step(pre, post, token, now, live),
        now <= later,
    ensures
        post.session_live(other, later) == pre.session_live(other, later),
{
}

// Failed logins.

/// A client that is locked out is refused, whatever its credentials, and
/// nothing is remembered of it.
pub proof fn locked_out_login_is_refused(
    pre: AuthView,
    post: AuthView,
    client: Seq<char>,
    username: Seq<char>,
    password_right: bool,
    checked_at: u128,
    now: u128,
    token: Seq<char>,
    outcome: LoginOutcome,
)
    requires
        login_step(
            pre,
            post,
            client,
            username,
            password_right,
            checked_at,
            now,
            token,
            outcome,
        ),
        pre.locked_out(client, checked_at),
    ensures
        outcome is Failed,
        post == pre,
{
}

/// A client that is locked out gets no session from the second step either.
pub proof fn locked_out_second_step_is_refused(
    pre: AuthView,
    post: AuthView,
    client: Seq<char>,
    pending_token: Seq<char>,
    factor: SecondFactor,
    checked_at: u128,
    now: u128,
    token: Seq<char>,
    outcome: TwoFactorLogin,
)
    requires
        second_factor_step(
            pre,
            post,
            client,
            pending_token,
            factor,
            checked_at,
            now,
            token,
            outcome,
        ),
        pre.locked_out(client, checked_at),
    ensures
        outcome.session is None,
        post == pre,
{
}

/// The state after a client has failed at each of these moments.
pub open spec fn after_failures(v: AuthView, client: Seq<char>, times: Seq<u128>) -> AuthView
    decreases times.len(),
{
    if times.len() == 0 {
        v
    } else {
        after_failures(v, client, times.drop_last()).with_failure(client, times.last())
    }
}

/// How many failures are held against a client at this moment: those of its
/// window, if that is still open.
pub open spec fn failures_held(v: AuthView, client: Seq<char>, at: u128) -> nat {
    if window_open(v, client, at) {
        v.attempts[client].count as nat
    } else {
        0
    }
}

/// When the window began to which a failure at this moment belongs.
pub open spec fn window_start(v: AuthView, client: Seq<char>, at: u128) -> u128 {
    if window_open(v, client, at) {
        v.attempts[client].first
    } else {
        at
    }
}

/// The client has failed before, and its window is still open.
pub open spec fn window_open(v: AuthView, client: Seq<char>, at: u128) -> bool {
    v.attempts.contains_key(client) && fresh(v.attempts[client].first, at, LOGIN_ATTEMPT_WINDOW)
}

/// All these moments lie within the window that began at `start`.
pub open spec fn within_window(start: u128, times: Seq<u128>) -> bool {
    forall|i: int| 0 <= i < times.len() ==> fresh(start, #[trigger] times[i], LOGIN_ATTEMPT_WINDOW)
}

/// Failures within one window are added up, and the window stays where it is.
pub proof fn failures_are_counted(v: AuthView, client: Seq<char>, times: Seq<u128>)
    requires
        times.len() > 0,
        within_window(window_start(v, client, times[0]), times),
        failures_held(v, client, times[0]) + times.len() <= MAX_LOGIN_ATTEMPTS,
    ensures
        after_failures(v, client, times).attempts.contains_key(client),
        after_failures(v, client, times).attempts[client].count == failures_held(
            v,
            client,
            times[0],
        ) + times.len(),
        after_failures(v, client, times).attempts[client].first == window_start(
            v,
            client,
            times[0],
        ),
    decreases times.len(),
{
    let earlier = times.drop_last();
    if earlier.len() == 0 {
        assert(after_failures(v, client, earlier) == v);
    } else {
        assert forall|i: int| 0 <= i < earlier.len() implies fresh(
            window_start(v, client, times[0]),
            #[trigger] earlier[i],
            LOGIN_ATTEMPT_WINDOW,
        ) by {
            assert(times[i] == earlier[i]);
        }
        failures_are_counted(v, client, earlier);
        assert(times.last() == times[times.len() - 1]);
    }
}

/// A client is locked out once as many failures as are allowed fall into one
/// window, for the rest of that window, and no longer. Fewer do not lock it out.
pub proof fn too_many_failures_lock_a_client_out(
    v: AuthView,
    client: Seq<char>,
    times: Seq<u128>,
    now: u128,
)
    requires
        times.len() > 0,
        within_window(window_start(v, client, times[0]), times),
        failures_held(v, client, times[0]) + times.len() <= MAX_LOGIN_ATTEMPTS,
    ensures
        after_failures(v, client, times).locked_out(client, now) <==> failures_held(
            v,
            client,
            times[0],
        ) + times.len() == MAX_LOGIN_ATTEMPTS && fresh(
            window_start(v, client, times[0]),
            now,
            LOGIN_ATTEMPT_WINDOW,
        ),
{
    failures_are_counted(v, client, times);
}

/// A client tried to log in and failed.
pub open spec fn failed_login(
    pre: AuthView,
    post: AuthView,
    client: Seq<char>,
    checked_at: u128,
    now: u128,
) -> bool {
    exists|username: Seq<char>, password_right: bool, token: Seq<char>| #[trigger]
        login_step(
            pre,
            post,
            client,
            username,
            password_right,
            checked_at,
            now,
            token,
            LoginOutcome::Failed,
        )
}

/// Failed logins of one client, one after the other: `states` are the states
/// before, between and after them.
pub open spec fn failed_logins(
    states: Seq<AuthView>,
    client: Seq<char>,
    checked: Seq<u128>,
    times: Seq<u128>,
) -> bool {
    &&& checked.len() == times.len()
    &&& states.len() == times.len() + 1
    &&& forall|i: int|
        0 <= i < times.len() ==> #[trigger] failed_login(
            states[i],
            states[i + 1],
            client,
            checked[i],
            times[i],
        )
}

/// Each login that fails before the limit is reached counts as a failure.
proof fn lemma_failed_logins(
    states: Seq<AuthView>,
    client: Seq<char>,
    checked: Seq<u128>,
    times: Seq<u128>,
)
    requires
        times.len() > 0,
        failed_logins(states, client, checked, times),
        !states[0].locked_out(client, checked[0]),
        within_window(window_start(states[0], client, times[0]), times),
        failures_held(states[0], client, times[0]) + times.len() <= MAX_LOGIN_ATTEMPTS,
    ensures
        states.last() == after_failures(states[0], client, times),
    decreases times.len(),
{
    let n = times.len() - 1;
    let earlier = times.drop_last();
    assert(failed_login(states[n], states[n + 1], client, checked[n], times[n]));
    if n == 0 {
        assert(after_failures(states[0], client, earlier) == states[0]);
    } else {
        let before = states.drop_last();
        let looked = checked.drop_last();
        assert forall|i: int| 0 <= i < earlier.len() implies fresh(
            window_start(states[0], client, times[0]),
            #[trigger] earlier[i],
            LOGIN_ATTEMPT_WINDOW,
        ) by {
            assert(times[i] == earlier[i]);
        }
        assert forall|i: int| 0 <= i < earlier.len() implies #[trigger] failed_login(
            before[i],
            before[i + 1],
            client,
            looked[i],
            earlier[i],
        ) by {
            assert(failed_login(states[i], states[i + 1], client, checked[i], times[i]));
        }
        lemma_failed_logins(before, client, looked, earlier);
        failures_are_counted(states[0], client, earlier);
    }
}

/// A client whose logins fail until as many failures as are allowed fall into
/// one window is locked out from then on until the window closes.
pub proof fn failed_logins_lock_a_client_out(
    states: Seq<AuthView>,
    client: Seq<char>,
    checked: Seq<u128>,
    times: Seq<u128>,
    now: u128,
)
    requires
        times.len() > 0,
        failed_logins(states, client, checked, times),
        !states[0].locked_out(client, checked[0]),
        within_window(window_start(states[0], client, times[0]), times),
        failures_held(states[0], client, times[0]) + times.len() == MAX_LOGIN_ATTEMPTS,
    ensures
        states.last().locked_out(client, now) <==> fresh(
            window_start(states[0], client, times[0]),
            now,
            LOGIN_ATTEMPT_WINDOW,
        ),
{
    lemma_failed_logins(states, client, checked, times);
    too_many_failures_lock_a_client_out(states[0], client, times, now);
}

/// A client is locked out for no longer than its window is open.
pub proof fn lockout_ends_with_the_window(v: AuthView, client: Seq<char>, now: u128)
    requires
        v.attempts.contains_key(client),
        v.attempts[client].first + LOGIN_ATTEMPT_WINDOW <= now,
    ensures
        !v.locked_out(client, now),
{
}

/// The failures of one client are not held against another.
pub proof fn failures_are_held_against_one_client(
    v: AuthView,
    client: Seq<char>,
    at: u128,
    other: Seq<char>,
    now: u128,
)
    requires
        other != client,
        at <= now,
    ensures
        v.with_failure(client, at).locked_out(other, now) == v.locked_out(other, now),
{
}

/// A failure leaves only windows that are still open, so that what is
/// remembered of clients that never come back does not grow for ever.
pub proof fn failures_leave_only_open_windows(
    v: AuthView,
    client: Seq<char>,
    now: u128,
    other: Seq<char>,
)
    requires
        v.with_failure(client, now).attempts.contains_key(other),
    ensures
        fresh(v.with_failure(client, now).attempts[other].first, now, LOGIN_ATTEMPT_WINDOW),
{
}

/// A login that gets past the password forgives the client all its failures.
pub proof fn right_password_forgives_failures(
    pre: AuthView,
    post: AuthView,
    client: Seq<char>,
    username: Seq<char>,
    password_right: bool,
    checked_at: u128,
    now: u128,
    token: Seq<char>,
    outcome: LoginOutcome,
    later: u128,
)
    requires
        login_step(
            pre,
            post,
            client,
            username,
            password_right,
            checked_at,
            now,
            token,
            outcome,
        ),
        outcome !is Failed,
    ensures
        !post.attempts.contains_key(client),
        !post.locked_out(client, later),
{
}

/// A failure of a client that is not locked out keeps the state valid: no count
/// ever goes above what is allowed, so none can overflow.
pub proof fn failures_keep_the_state_valid(v: AuthView, client: Seq<char>, now: u128)
    requires
        v.valid(),
        !v.locked_out(client, now),
    ensures
        v.with_failure(client, now).valid(),
{
    let post = v.with_failure(client, now);
    assert forall|c: Seq<char>| #[trigger] post.attempts.contains_key(c) implies 1
        <= post.attempts[c].count <= MAX_LOGIN_ATTEMPTS by {
        assert(v.attempts.contains_key(c) || c == client);
    }
}

/// No login makes the state invalid: a client never has more failures to its
/// name than are allowed.
pub proof fn logins_keep_the_state_valid(
    pre: AuthView,
    post: AuthView,
    client: Seq<char>,
    username: Seq<char>,
    password_right: bool,
    checked_at: u128,
    now: u128,
    token: Seq<char>,
    outcome: LoginOutcome,
)
    requires
        pre.valid(),
        checked_at <= now,
        login_step(
            pre,
            post,
            client,
            username,
            password_right,
            checked_at,
            now,
            token,
            outcome,
        ),
    ensures
        post.valid(),
{
    assert forall|c: Seq<char>| #[trigger] post.attempts.contains_key(c) implies 1
        <= post.attempts[c].count <= MAX_LOGIN_ATTEMPTS by {
        assert(pre.attempts.contains_key(c) || c == client);
    }
}

/// No second step makes the state invalid.
pub proof fn second_steps_keep_the_state_valid(
    pre: AuthView,
    post: AuthView,
    client: Seq<char>,
    pending_token: Seq<char>,
    factor: SecondFactor,
    checked_at: u128,
    now: u128,
    token: Seq<char>,
    outcome: TwoFactorLogin,
)
    requires
        pre.valid(),
        checked_at <= now,
        second_factor_step(
            pre,
            post,
            client,
            pending_token,
            factor,
            checked_at,
            now,
            token,
            outcome,
        ),
    ensures
        post.valid(),
{
    assert forall|c: Seq<char>| #[trigger] post.attempts.contains_key(c) implies 1
        <= post.attempts[c].count <= MAX_LOGIN_ATTEMPTS by {
        assert(pre.attempts.contains_key(c) || c == client);
    }
}

// The second factor.

/// While the second factor is on, the right password alone opens no session.
pub proof fn password_alone_opens_no_session(
    pre: AuthView,
    post: AuthView,
    client: Seq<char>,
    username: Seq<char>,
    password_right: bool,
    checked_at: u128,
    now: u128,
    token: Seq<char>,
    outcome: LoginOutcome,
)
    requires
        login_step(
            pre,
            post,
            client,
            username,
            password_right,
            checked_at,
            now,
            token,
            outcome,
        ),
        pre.credentials.two_factor.enabled,
    ensures
        outcome !is Success,
        post.sessions == pre.sessions,
{
}

/// The second step opens a session only for a client that is not locked out,
/// with a token that still waits, and with a code that is good. Any other
/// attempt of a client that is not locked out counts as a failure.
pub proof fn second_step_takes_token_and_code(
    pre: AuthView,
    post: AuthView,
    client: Seq<char>,
    pending_token: Seq<char>,
    code: Seq<char>,
    time: Option<u64>,
    factor: SecondFactor,
    checked_at: u128,
    now: u128,
    token: Seq<char>,
    outcome: TwoFactorLogin,
)
    requires
        completion_step(
            pre,
            post,
            client,
            pending_token,
            code,
            time,
            factor,
            checked_at,
            now,
            token,
            outcome,
        ),
    ensures
        outcome.session is Some <==> {
            &&& !pre.locked_out(client, checked_at)
            &&& pre.pending_live(pending_token, checked_at)
            &&& factor != SecondFactor::Rejected
        },
        outcome.session is Some ==> is_second_factor(pre.credentials, code, time, factor)
            && post.session_live(token, now),
        outcome.session is None ==> post.sessions == pre.sessions,
        outcome.session is None && !pre.locked_out(client, checked_at) ==> post.attempts
            == pre.with_failure(client, now).attempts,
{
}

/// A pending token is good for exactly its lifetime.
pub proof fn pending_token_lives_its_lifetime(
    v: AuthView,
    token: Seq<char>,
    created: u128,
    now: u128,
)
    ensures
        v.with_pending(token, created).pending_live(token, now) <==> elapsed(created, now)
            < PENDING_2FA_LIFETIME,
{
}

/// A login that begins to wait leaves those that may still be completed, and
/// forgets all others.
pub proof fn waiting_logins_do_not_pile_up(
    v: AuthView,
    token: Seq<char>,
    created: u128,
    other: Seq<char>,
)
    requires
        other != token,
    ensures
        v.with_pending(token, created).pending.contains_key(other) <==> v.pending_live(
            other,
            created,
        ),
        v.pending_live(other, created) ==> v.with_pending(token, created).pending[other]
            == v.pending[other],
{
}

/// A pending token is used up by the first attempt with it, whether the code is
/// right or wrong, and no other pending token is touched. (A client that is
/// locked out makes no attempt.)
pub proof fn pending_token_is_good_for_one_attempt(
    pre: AuthView,
    post: AuthView,
    client: Seq<char>,
    pending_token: Seq<char>,
    factor: SecondFactor,
    checked_at: u128,
    now: u128,
    token: Seq<char>,
    outcome: TwoFactorLogin,
    later: u128,
)
    requires
        second_factor_step(
            pre,
            post,
            client,
            pending_token,
            factor,
            checked_at,
            now,
            token,
            outcome,
        ),
        !pre.locked_out(client, checked_at),
    ensures
        !post.pending_live(pending_token, later),
        forall|other: Seq<char>|
            other != pending_token ==> #[trigger] post.pending_live(other, later)
                == pre.pending_live(other, later),
{
}

/// Every backup code that is given out when a setup is confirmed, or when the
/// codes are renewed, is a good second factor once the change takes effect.
pub proof fn codes_given_out_are_good(
    c: CredentialsView,
    code: Seq<char>,
    time: Option<u64>,
    password: Seq<char>,
    change: CredentialChange,
    shown: Vec<String>,
    i: int,
    later: Option<u64>,
    factor: SecondFactor,
)
    requires
        confirmation_outcome(c, code, time, Ok((change, shown))) || renewal_outcome(
            c,
            password,
            Ok((change, shown)),
        ),
        0 <= i < shown@.len(),
        is_second_factor(change@.credentials, shown@[i]@, later, factor),
    ensures
        factor != SecondFactor::Rejected,
{
    assert(texts(shown@)[i] == shown@[i]@);
    assert(accepts(change@.credentials.two_factor.backup_code_hashes[i], shown@[i]@));
}

/// A backup code completes a login that may still be completed. It is not
/// accepted again, while every other code whose hash is stored is as good as
/// before. This is so of every code that no other stored hash accepts.
pub proof fn backup_code_works_once(
    pre: AuthView,
    post: AuthView,
    client: Seq<char>,
    pending_token: Seq<char>,
    code: Seq<char>,
    time: Option<u64>,
    at: int,
    factor: SecondFactor,
    checked_at: u128,
    now: u128,
    token: Seq<char>,
    outcome: TwoFactorLogin,
    later: Option<u64>,
    again: SecondFactor,
    other: Seq<char>,
    other_at: int,
    other_factor: SecondFactor,
)
    requires
        is_backup_code(code),
        0 <= at < pre.credentials.two_factor.backup_code_hashes.len(),
        accepts(pre.credentials.two_factor.backup_code_hashes[at], code),
        forall|j: int|
            0 <= j < pre.credentials.two_factor.backup_code_hashes.len() && j != at ==> !accepts(
                #[trigger] pre.credentials.two_factor.backup_code_hashes[j],
                code,
            ),
        factor_counts(pre, client, pending_token, checked_at),
        completion_step(
            pre,
            post,
            client,
            pending_token,
            code,
            time,
            factor,
            checked_at,
            now,
            token,
            outcome,
        ),
        is_second_factor(post.credentials, code, later, again),
        0 <= other_at < pre.credentials.two_factor.backup_code_hashes.len(),
        other_at != at,
        accepts(pre.credentials.two_factor.backup_code_hashes[other_at], other),
        is_second_factor(post.credentials, other, later, other_factor),
    ensures
        outcome.session is Some,
        factor == SecondFactor::BackupCode(at as usize),
        again == SecondFactor::Rejected,
        other_factor != SecondFactor::Rejected,
{
    let hashes = pre.credentials.two_factor.backup_code_hashes;
    let left = post.credentials.two_factor.backup_code_hashes;
    assert(hashes[at] == hashes[at]);
    assert forall|j: int| 0 <= j < left.len() implies !accepts(#[trigger] left[j], code) by {
        assert(left[j] == hashes[if j < at { j } else { j + 1 }]);
    }
    assert(left[if other_at < at { other_at } else { other_at - 1 }] == hashes[other_at]);
}

/// Of the codes that are given out when a setup is confirmed, or when the codes
/// are renewed, each works once, and using one leaves the others good. This is
/// so where each hash accepts no other code of the set than its own.
pub proof fn codes_given_out_work_once(
    c: CredentialsView,
    confirmation: Seq<char>,
    confirmed_at: Option<u64>,
    password: Seq<char>,
    change: CredentialChange,
    shown: Vec<String>,
    i: int,
    j: int,
    pre: AuthView,
    post: AuthView,
    client: Seq<char>,
    pending_token: Seq<char>,
    time: Option<u64>,
    factor: SecondFactor,
    checked_at: u128,
    now: u128,
    token: Seq<char>,
    outcome: TwoFactorLogin,
    later: Option<u64>,
    again: SecondFactor,
    other_factor: SecondFactor,
)
    requires
        confirmation_outcome(c, confirmation, confirmed_at, Ok((change, shown)))
            || renewal_outcome(c, password, Ok((change, shown))),
        pre.credentials == change@.credentials,
        0 <= i < shown@.len(),
        0 <= j < shown@.len(),
        i != j,
        forall|k: int|
            0 <= k < shown@.len() && k != i ==> !accepts(
                #[trigger] change@.credentials.two_factor.backup_code_hashes[k],
                shown@[i]@,
            ),
        factor_counts(pre, client, pending_token, checked_at),
        completion_step(
            pre,
            post,
            client,
            pending_token,
            shown@[i]@,
            time,
            factor,
            checked_at,
            now,
            token,
            outcome,
        ),
        is_second_factor(post.credentials, shown@[i]@, later, again),
        is_second_factor(post.credentials, shown@[j]@, later, other_factor),
    ensures
        outcome.session is Some,
        again == SecondFactor::Rejected,
        other_factor != SecondFactor::Rejected,
{
    assert(texts(shown@)[i] == shown@[i]@);
    assert(texts(shown@)[j] == shown@[j]@);
    backup_code_works_once(
        pre,
        post,
        client,
        pending_token,
        shown@[i]@,
        time,
        i,
        factor,
        checked_at,
        now,
        token,
        outcome,
        later,
        again,
        shown@[j]@,
        j,
        other_factor,
    );
}

/// Using up one backup code leaves all the others, in their order.
pub proof fn other_backup_codes_stay(c: CredentialsView, used: int, j: int)
    requires
        0 <= used < c.two_factor.backup_code_hashes.len(),
        0 <= j < c.two_factor.backup_code_hashes.len(),
        j != used,
    ensures
        c.without_backup_code(used).two_factor.backup_code_hashes.len()
            == c.two_factor.backup_code_hashes.len() - 1,
        c.without_backup_code(used).two_factor.backup_code_hashes[if j < used {
            j
        } else {
            j - 1
        }] == c.two_factor.backup_code_hashes[j],
{
}

/// A setup that is started and not confirmed has no effect on the first step of
/// a login.
pub proof fn abandoned_setup_does_not_affect_login(
    pre: AuthView,
    post: AuthView,
    secret: Seq<char>,
    client: Seq<char>,
    username: Seq<char>,
    password: Seq<char>,
    checked_at: u128,
    now: u128,
    token: Seq<char>,
    outcome: LoginOutcome,
)
    ensures
        pre.credentials.with_secret(secret).password_is(password) == pre.credentials.password_is(
            password,
        ),
        login_step(
            pre,
            post,
            client,
            username,
            pre.credentials.password_is(password),
            checked_at,
            now,
            token,
            outcome,
        ) ==> login_step(
            pre.with_credentials(pre.credentials.with_secret(secret)),
            post.with_credentials(pre.credentials.with_secret(secret)),
            client,
            username,
            pre.credentials.password_is(password),
            checked_at,
            now,
            token,
            outcome,
        ),
{
}

/// A setup that is started and not confirmed has no effect on what a code is
/// worth as a second factor.
pub proof fn abandoned_setup_leaves_second_factor(
    c: CredentialsView,
    secret: Seq<char>,
    code: Seq<char>,
    time: Option<u64>,
    factor: SecondFactor,
)
    ensures
        is_second_factor(c.with_secret(secret), code, time, factor) == is_second_factor(
            c,
            code,
            time,
            factor,
        ),
{
}

/// A setup that is started and not confirmed has no effect on the second step of
/// a login.
pub proof fn abandoned_setup_does_not_affect_second_step(
    pre: AuthView,
    post: AuthView,
    secret: Seq<char>,
    client: Seq<char>,
    pending_token: Seq<char>,
    code: Seq<char>,
    time: Option<u64>,
    factor: SecondFactor,
    checked_at: u128,
    now: u128,
    token: Seq<char>,
    outcome: TwoFactorLogin,
)
    ensures
        completion_step(
            pre,
            post,
            client,
            pending_token,
            code,
            time,
            factor,
            checked_at,
            now,
            token,
            outcome,
        ) ==> completion_step(
            pre.with_credentials(pre.credentials.with_secret(secret)),
            post.with_credentials(post.credentials.with_secret(secret)),
            client,
            pending_token,
            code,
            time,
            factor,
            checked_at,
            now,
            token,
            outcome,
        ),
{
    abandoned_setup_leaves_second_factor(pre.credentials, secret, code, time, factor);
}

/// Nothing but the confirmation of a setup switches the second factor on, or puts
/// another secret in the place of the confirmed one.
pub proof fn only_confirmation_switches_on(
    c: CredentialsView,
    secret: Seq<char>,
    setup: Result<(CredentialChange, (String, String, String)), &'static str>,
    password: Seq<char>,
    renewal: Result<(CredentialChange, Vec<String>), &'static str>,
    new_username: Option<Seq<char>>,
    new_password: Option<Seq<char>>,
    salt: Seq<u8>,
    account: Result<CredentialChange, &'static str>,
)
    requires
        setup_outcome(c, secret, setup),
        renewal_outcome(c, password, renewal),
        account_outcome(c, password, new_username, new_password, salt, account),
    ensures
        setup matches Ok((change, _)) ==> change@.credentials.two_factor.enabled
            == c.two_factor.enabled,
        renewal matches Ok((change, _)) ==> change@.credentials.two_factor.enabled
            == c.two_factor.enabled,
        setup matches Ok((change, _)) ==> change@.credentials.two_factor.confirmed_secret
            == c.two_factor.confirmed_secret,
        renewal matches Ok((change, _)) ==> change@.credentials.two_factor.confirmed_secret
            == c.two_factor.confirmed_secret,
        account matches Ok(change) ==> change@.credentials.two_factor == c.two_factor,
        !c.with_two_factor(no_second_factor()).two_factor.enabled,
{
}

/// No login, in its first step or its second, switches the second factor on or
/// off, or changes the name, the password or a secret.
pub proof fn logins_leave_the_account(
    pre: AuthView,
    mid: AuthView,
    post: AuthView,
    client: Seq<char>,
    username: Seq<char>,
    password_right: bool,
    checked_at: u128,
    now: u128,
    token: Seq<char>,
    first: LoginOutcome,
    second_client: Seq<char>,
    pending_token: Seq<char>,
    code: Seq<char>,
    time: Option<u64>,
    factor: SecondFactor,
    second_checked_at: u128,
    second_now: u128,
    second_token: Seq<char>,
    second: TwoFactorLogin,
)
    requires
        login_step(
            pre,
            mid,
            client,
            username,
            password_right,
            checked_at,
            now,
            token,
            first,
        ),
        completion_step(
            mid,
            post,
            second_client,
            pending_token,
            code,
            time,
            factor,
            second_checked_at,
            second_now,
            second_token,
            second,
        ),
    ensures
        mid.credentials == pre.credentials,
        post.credentials.username == pre.credentials.username,
        post.credentials.password_hash == pre.credentials.password_hash,
        post.credentials.two_factor.enabled == pre.credentials.two_factor.enabled,
        post.credentials.two_factor.secret == pre.credentials.two_factor.secret,
        post.credentials.two_factor.confirmed_secret
            == pre.credentials.two_factor.confirmed_secret,
        second.credentials_changed <==> post.credentials.two_factor.backup_code_hashes.len()
            != pre.credentials.two_factor.backup_code_hashes.len(),
{
}

/// Once the second factor is switched off, the right name and password alone
/// open a session again.
pub proof fn disabling_restores_plain_login(
    v: AuthView,
    post: AuthView,
    client: Seq<char>,
    username: Seq<char>,
    checked_at: u128,
    now: u128,
    token: Seq<char>,
    outcome: LoginOutcome,
)
    requires
        login_step(
            v.with_credentials(v.credentials.with_two_factor(no_second_factor())),
            post,
            client,
            username,
            true,
            checked_at,
            now,
            token,
            outcome,
        ),
        username == v.credentials.username,
        !v.locked_out(client, checked_at),
    ensures
        outcome is Success,
        post.session_live(token, now),
{
}

/// The code of a step is good throughout that step, the one before it and the
/// one after it.
pub proof fn code_is_good_in_adjacent_steps(secret: Seq<char>, step: int, time: u64)
    requires
        base32_bytes(secret) is Some,
        checkable(time),
        step - 1 <= time / TOTP_STEP <= step + 1,
    ensures
        code_current(
            secret,
            totp_code(
                HashFunction::Sha1,
                TOTP_DIGITS,
                TOTP_STEP,
                base32_bytes(secret)->0,
                (step * TOTP_STEP) as u64,
            ),
            time,
        ),
{
}

// The account.

/// A change of name or password that takes effect leaves no session, not even
/// that of whoever made it.
pub proof fn changed_account_has_no_sessions(
    v: AuthView,
    password: Seq<char>,
    new_username: Option<Seq<char>>,
    new_password: Option<Seq<char>>,
    salt: Seq<u8>,
    r: Result<CredentialChange, &'static str>,
    token: Seq<char>,
    now: u128,
)
    requires
        account_outcome(v.credentials, password, new_username, new_password, salt, r),
        r is Ok,
    ensures
        !v.with_change(r->Ok_0@).session_live(token, now),
{
}

/// Where what is kept begins as a hash does and a password does not, what is kept
/// is not the password.
pub proof fn password_itself_is_not_kept(c: CredentialsView, password: Seq<char>)
    requires
        PHC_PREFIX@.is_prefix_of(c.password_hash),
        !PHC_PREFIX@.is_prefix_of(password),
    ensures
        c.password_hash != password,
{
}

/// Neither name nor password changes without the current password, and no
/// password is set that is not strong.
pub proof fn account_changes_on_these_terms(
    c: CredentialsView,
    password: Seq<char>,
    new_username: Option<Seq<char>>,
    new_password: Option<Seq<char>>,
    salt: Seq<u8>,
    r: Result<CredentialChange, &'static str>,
)
    requires
        account_outcome(c, password, new_username, new_password, salt, r),
        r is Ok,
    ensures
        c.password_is(password),
        new_password matches Some(p) ==> strong(p),
        new_username is None ==> r->Ok_0@.credentials.username == c.username,
        new_password is None ==> r->Ok_0@.credentials.password_hash == c.password_hash,
{
}

/// Whoever knows the name and the password of an account, and is not locked
/// out, gets past the first step of a login.
pub proof fn right_credentials_get_in(
    pre: AuthView,
    post: AuthView,
    client: Seq<char>,
    password: Seq<char>,
    checked_at: u128,
    now: u128,
    token: Seq<char>,
    outcome: LoginOutcome,
)
    requires
        login_step(
            pre,
            post,
            client,
            pre.credentials.username,
            pre.credentials.password_is(password),
            checked_at,
            now,
            token,
            outcome,
        ),
        pre.credentials.password_is(password),
        !pre.locked_out(client, checked_at),
    ensures
        pre.credentials.two_factor.enabled ==> (outcome matches LoginOutcome::NeedsTwoFactor(t)
            && post.pending_live(t@, now)),
        !pre.credentials.two_factor.enabled ==> (outcome matches LoginOutcome::Success(t)
            && post.session_live(t@, now)),
{
}

/// The token of a successful login comes back from the browser as it was
/// handed out, and opens the door for exactly the lifetime of a session.
pub proof fn successful_login_lasts(
    pre: AuthView,
    post: AuthView,
    client: Seq<char>,
    username: Seq<char>,
    password_right: bool,
    checked_at: u128,
    now: u128,
    bytes: Seq<u8>,
    token: String,
    secure: bool,
    later: u128,
)
    requires
        bytes.len() == TOKEN_BYTES,
        login_step(
            pre,
            post,
            client,
            username,
            password_right,
            checked_at,
            now,
            base64_url(bytes),
            LoginOutcome::Success(token),
        ),
    ensures
        session_token(
            cookie_text(token@, decimal(SESSION_LIFETIME_SECS as nat), secure),
        ) == Some(token@),
        post.session_live(token@, later) <==> elapsed(now, later) < SESSION_LIFETIME,
{
    tokens_survive_their_cookies(bytes, decimal(SESSION_LIFETIME_SECS as nat), secure);
}

/// A wrong name or a wrong password opens nothing, and counts as a failure of a
/// client that is not locked out yet.
pub proof fn wrong_credentials_open_nothing(
    pre: AuthView,
    post: AuthView,
    client: Seq<char>,
    username: Seq<char>,
    password_right: bool,
    checked_at: u128,
    now: u128,
    token: Seq<char>,
    outcome: LoginOutcome,
)
    requires
        login_step(
            pre,
            post,
            client,
            username,
            password_right,
            checked_at,
            now,
            token,
            outcome,
        ),
        username != pre.credentials.username || !password_right,
    ensures
        outcome is Failed,
        post.sessions == pre.sessions,
        post.pending == pre.pending,
        !pre.locked_out(client, checked_at) ==> post == pre.with_failure(client, now),
{
}

// Cookies.

/// Splitting text with a separator in it splits what stands on either side.
proof fn lemma_split_at(a: Seq<char>, sep: char, b: Seq<char>)
    ensures
        split(a + seq![sep] + b, sep) == split(a, sep) + split(b, sep),
    decreases a.len(),
{
    let s = a + seq![sep] + b;
    let i = first_index(a, sep);
    lemma_first_index_bounds(a, sep);
    assert(s[a.len() as int] == sep);
    assert forall|j: int| 0 <= j < i implies s[j] != sep by {
        assert(s[j] == a[j]);
    }
    lemma_first_index(s, sep, i);
    assert(s.take(i) =~= a.take(i));
    if i < a.len() {
        assert(s.skip(i + 1) =~= a.skip(i + 1) + seq![sep] + b);
        lemma_split_at(a.skip(i + 1), sep, b);
        assert(split(s, sep) =~= split(a, sep) + split(b, sep));
    } else {
        assert(s.skip(i + 1) =~= b);
        assert(a.take(i) =~= a);
        assert(split(s, sep) =~= split(a, sep) + split(b, sep));
    }
}

proof fn lemma_first_token(p: Seq<Seq<char>>, q: Seq<Seq<char>>)
    ensures
        first_token(p + q) == if first_token(p) is Some {
            first_token(p)
        } else {
            first_token(q)
        },
    decreases p.len(),
{
    if p.len() == 0 {
        assert(p + q =~= q);
    } else {
        assert((p + q).drop_first() =~= p.drop_first() + q);
        lemma_first_token(p.drop_first(), q);
    }
}

/// In a `Cookie` header that names several cookies, the first one that carries
/// a session token counts, and the others do not matter.
pub proof fn first_cookie_counts(a: Seq<char>, b: Seq<char>)
    ensures
        session_token(a + seq![';'] + b) == if session_token(a) is Some {
            session_token(a)
        } else {
            session_token(b)
        },
{
    lemma_split_at(a, ';', b);
    lemma_first_token(split(a, ';'), split(b, ';'));
}

/// Text without a separator in it is all one piece.
proof fn lemma_one_piece(s: Seq<char>)
    requires
        !s.contains(';'),
    ensures
        session_token(s) == token_in(s),
{
    lemma_first_index(s, ';', s.len() as int);
    assert(split(s, ';') =~= seq![s]);
    assert(first_token(seq![s].drop_first()) is None) by {
        assert(seq![s].drop_first() =~= Seq::<Seq<char>>::empty());
    }
}

/// The name of the session cookie and the equals sign: no semicolon, and no
/// white space at either end.
proof fn lemma_prefix()
    ensures
        cookie_prefix().len() == 17,
        !cookie_prefix().contains(';'),
        !white_space(cookie_prefix()[0]),
        !white_space(cookie_prefix()[16]),
        cookie_prefix().contains('_'),
{
    reveal_strlit("claunote_session");
    reveal_strlit("=");
    assert(cookie_prefix()[8] == '_');
}

/// Where a cookie's value ends: with a semicolon, and the attributes behind it.
proof fn lemma_cookie_parts(value: Seq<char>, max_age: Seq<char>, secure: bool)
    ensures
        cookie_text(value, max_age, secure) == (cookie_prefix() + value) + seq![';']
            + cookie_attributes(max_age, secure),
{
    let fixed = "; HttpOnly; SameSite=Strict; Path=/; Max-Age="@;
    reveal_strlit("; HttpOnly; SameSite=Strict; Path=/; Max-Age=");
    assert(fixed =~= seq![';'] + fixed.skip(1));
    assert(cookie_text(value, max_age, secure) =~= (cookie_prefix() + value) + seq![';']
        + cookie_attributes(max_age, secure));
}

/// What stands behind the first semicolon of a session cookie.
spec fn cookie_attributes(max_age: Seq<char>, secure: bool) -> Seq<char> {
    "; HttpOnly; SameSite=Strict; Path=/; Max-Age="@.skip(1) + max_age + secure_attribute(secure)
}

/// A session cookie that comes back as it was set gives its token back, for
/// every token that is not empty, holds no semicolon and does not end in white
/// space.
pub proof fn cookie_gives_its_token_back(token: Seq<char>, max_age: Seq<char>, secure: bool)
    requires
        token.len() > 0,
        !token.contains(';'),
        !white_space(token.last()),
    ensures
        session_token(cookie_text(token, max_age, secure)) == Some(token),
        session_token(cookie_prefix() + token) == Some(token),
{
    let p = cookie_prefix();
    let s = p + token;
    lemma_prefix();
    lemma_cookie_parts(token, max_age, secure);
    first_cookie_counts(s, cookie_attributes(max_age, secure));
    assert(!s.contains(';')) by {
        if s.contains(';') {
            let j = choose|j: int| 0 <= j < s.len() && s[j] == ';';
            if j < p.len() {
                assert(p[j] == ';');
            } else {
                assert(token[j - p.len()] == ';');
            }
        }
    }
    lemma_one_piece(s);
    assert(s[0] == p[0]);
    assert(s.last() == token.last());
    assert(trim(s) == s);
    assert(s.subrange(0, p.len() as int) =~= p);
    assert(s.skip(p.len() as int) =~= token);
}

/// Every token that the authenticator hands out survives the way through a
/// browser.
pub proof fn tokens_survive_their_cookies(bytes: Seq<u8>, max_age: Seq<char>, secure: bool)
    requires
        bytes.len() == TOKEN_BYTES,
    ensures
        session_token(cookie_text(base64_url(bytes), max_age, secure)) == Some(base64_url(bytes)),
{
    let token = base64_url(bytes);
    lemma_token_shape(bytes);
    assert(is_url_safe(token[token.len() - 1]));
    cookie_gives_its_token_back(token, max_age, secure);
}

proof fn lemma_trim_avoids(s: Seq<char>, c: char)
    requires
        !s.contains(c),
    ensures
        !trim(s).contains(c),
{
    lemma_trim_start_avoids(s, c);
    lemma_trim_end_avoids(trim_start(s), c);
}

proof fn lemma_trim_start_avoids(s: Seq<char>, c: char)
    requires
        !s.contains(c),
    ensures
        !trim_start(s).contains(c),
    decreases s.len(),
{
    if s.len() > 0 && white_space(s.first()) {
        let t = s.drop_first();
        assert(!t.contains(c)) by {
            if t.contains(c) {
                let j = choose|j: int| 0 <= j < t.len() && t[j] == c;
                assert(s[j + 1] == c);
            }
        }
        lemma_trim_start_avoids(t, c);
    }
}

proof fn lemma_trim_end_avoids(s: Seq<char>, c: char)
    requires
        !s.contains(c),
    ensures
        !trim_end(s).contains(c),
    decreases s.len(),
{
    if s.len() > 0 && white_space(s.last()) {
        let t = s.drop_last();
        assert(!t.contains(c)) by {
            if t.contains(c) {
                let j = choose|j: int| 0 <= j < t.len() && t[j] == c;
                assert(s[j] == c);
            }
        }
        lemma_trim_end_avoids(t, c);
    }
}

/// Text that lacks a character of the cookie's name carries no token.
proof fn lemma_no_token(s: Seq<char>)
    requires
        !s.contains('_'),
    ensures
        session_token(s) is None,
    decreases s.len(),
{
    lemma_prefix();
    lemma_first_index_bounds(s, ';');
    let i = first_index(s, ';');
    let part = s.take(i);
    assert(!part.contains('_')) by {
        if part.contains('_') {
            let j = choose|j: int| 0 <= j < part.len() && part[j] == '_';
            assert(s[j] == '_');
        }
    }
    lemma_trim_avoids(part, '_');
    let p = cookie_prefix();
    let t = trim(part);
    assert(token_in(part) is None) by {
        if p.is_prefix_of(t) {
            let j = choose|j: int| 0 <= j < p.len() && p[j] == '_';
            assert(t[j] == t.subrange(0, p.len() as int)[j]);
            assert(t.contains('_'));
        }
    }
    if i < s.len() {
        let rest = s.skip(i + 1);
        assert(!rest.contains('_')) by {
            if rest.contains('_') {
                let j = choose|j: int| 0 <= j < rest.len() && rest[j] == '_';
                assert(s[j + i + 1] == '_');
            }
        }
        lemma_no_token(rest);
        assert(split(s, ';').drop_first() =~= split(rest, ';'));
    } else {
        assert(part =~= s);
        lemma_one_piece(s);
    }
}

/// The cookie that ends a session carries no token.
pub proof fn logout_cookie_carries_no_token(secure: bool)
    ensures
        session_token(cookie_text(""@, decimal(0), secure)) is None,
{
    let p = cookie_prefix();
    let attributes = cookie_attributes(decimal(0), secure);
    lemma_prefix();
    reveal_strlit("");
    lemma_cookie_parts(""@, decimal(0), secure);
    assert(p + ""@ =~= p);
    first_cookie_counts(p, attributes);
    lemma_one_piece(p);
    assert(trim(p) == p);
    assert(!attributes.contains('_')) by {
        reveal_strlit("; HttpOnly; SameSite=Strict; Path=/; Max-Age=");
        reveal_strlit("; Secure");
    }
    lemma_no_token(attributes);
}

} // verus!
