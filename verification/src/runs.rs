//! What holds of every run of requests, however many they are and in whatever
//! order they come.

use vstd::prelude::*;

#[allow(unused_imports)]
use crate::change::{
    account_outcome, confirmation_outcome, renewal_outcome, setup_outcome, CredentialChange,
};
#[allow(unused_imports)]
use crate::credentials::{is_second_factor, no_second_factor, SecondFactor};
#[allow(unused_imports)]
use crate::policy::{fresh, LOGIN_ATTEMPT_WINDOW, MAX_LOGIN_ATTEMPTS};
#[allow(unused_imports)]
use crate::secrets::accepts;
#[allow(unused_imports)]
use crate::state::{
    completion_step, login_step, validation_step, AuthView, LoginOutcome, TwoFactorLogin,
};
#[allow(unused_imports)]
use crate::totp::TOTP_DIGITS;

verus! {

/// A request and what came of it. A change of the account is one that was
/// written to disk and took effect.
pub enum Event {
    /// The first step of a login.
    Login {
        client: Seq<char>,
        username: Seq<char>,
        password: Seq<char>,
        checked_at: u128,
        now: u128,
        token: Seq<char>,
        outcome: LoginOutcome,
    },
    /// The second step of a login.
    SecondStep {
        client: Seq<char>,
        pending_token: Seq<char>,
        code: Seq<char>,
        time: Option<u64>,
        factor: SecondFactor,
        checked_at: u128,
        now: u128,
        token: Seq<char>,
        completion: TwoFactorLogin,
    },
    /// A session was asked about.
    Validation { token: Seq<char>, now: u128, live: bool },
    /// A session was closed.
    Logout { token: Seq<char> },
    /// A setup of the second factor was started.
    Setup { secret: Seq<char>, change: CredentialChange, told: (String, String, String) },
    /// A setup was confirmed.
    Confirmation {
        code: Seq<char>,
        time: Option<u64>,
        change: CredentialChange,
        shown: Vec<String>,
    },
    /// The second factor was switched off.
    Disabling { change: CredentialChange },
    /// The backup codes were renewed.
    Renewal { password: Seq<char>, change: CredentialChange, shown: Vec<String> },
    /// The name or the password was changed.
    AccountChange {
        password: Seq<char>,
        new_username: Option<Seq<char>>,
        new_password: Option<Seq<char>>,
        salt: Seq<u8>,
        change: CredentialChange,
    },
    /// A request that was refused, or that only looks: nothing changed.
    Nothing,
}

/// The event takes the authenticator from one state to the next.
pub open spec fn happens(pre: AuthView, post: AuthView, event: Event) -> bool {
    match event {
        Event::Login { client, username, password, checked_at, now, token, outcome } => {
            &&& checked_at <= now
            &&& login_step(
                pre,
                post,
                client,
                username,
                pre.credentials.password_is(password),
                checked_at,
                now,
                token,
                outcome,
            )
        },
        Event::SecondStep {
            client,
            pending_token,
            code,
            time,
            factor,
            checked_at,
            now,
            token,
            completion,
        } => {
            &&& checked_at <= now
            &&& completion_step(
                pre,
                post,
                client,
                pending_token,
                code,
                time,
                factor,
                checked_at,
                now,
                token,
                completion,
            )
        },
        Event::Validation { token, now, live } => validation_step(pre, post, token, now, live),
        Event::Logout { token } => post == pre.without_session(token),
        Event::Setup { secret, change, told } => {
            &&& setup_outcome(pre.credentials, secret, Ok((change, told)))
            &&& post == pre.with_change(change@)
        },
        Event::Confirmation { code, time, change, shown } => {
            &&& confirmation_outcome(pre.credentials, code, time, Ok((change, shown)))
            &&& post == pre.with_change(change@)
        },
        Event::Disabling { change } => {
            &&& change@.base == pre.credentials
            &&& change@.credentials == pre.credentials.with_two_factor(no_second_factor())
            &&& !change@.ends_sessions
            &&& post == pre.with_change(change@)
        },
        Event::Renewal { password, change, shown } => {
            &&& renewal_outcome(pre.credentials, password, Ok((change, shown)))
            &&& post == pre.with_change(change@)
        },
        Event::AccountChange { password, new_username, new_password, salt, change } => {
            &&& account_outcome(
                pre.credentials,
                password,
                new_username,
                new_password,
                salt,
                Ok(change),
            )
            &&& post == pre.with_change(change@)
        },
        Event::Nothing => post == pre,
    }
}

/// A run: each event takes the state before it to the state after it.
pub open spec fn run(states: Seq<AuthView>, events: Seq<Event>) -> bool {
    &&& states.len() == events.len() + 1
    &&& forall|i: int|
        0 <= i < events.len() ==> happens(states[i], states[i + 1], #[trigger] events[i])
}

/// A run without its last event.
proof fn lemma_shorter_run(states: Seq<AuthView>, events: Seq<Event>)
    requires
        run(states, events),
        events.len() > 0,
    ensures
        run(states.drop_last(), events.drop_last()),
        happens(states.drop_last().last(), states.last(), events.last()),
{
    let n = events.len() - 1;
    assert(happens(states[n], states[n + 1], events[n]));
    assert forall|i: int| 0 <= i < events.drop_last().len() implies happens(
        states.drop_last()[i],
        states.drop_last()[i + 1],
        #[trigger] events.drop_last()[i],
    ) by {
        assert(happens(states[i], states[i + 1], events[i]));
    }
}

/// In every run the state stays valid: no client ever has more failures to its
/// name than are allowed.
pub proof fn every_state_is_valid(states: Seq<AuthView>, events: Seq<Event>)
    requires
        run(states, events),
        states[0].valid(),
    ensures
        states.last().valid(),
    decreases events.len(),
{
    if events.len() > 0 {
        lemma_shorter_run(states, events);
        every_state_is_valid(states.drop_last(), events.drop_last());
        let pre = states.drop_last().last();
        let post = states.last();
        assert forall|c: Seq<char>| #[trigger] post.attempts.contains_key(c) implies 1
            <= post.attempts[c].count <= MAX_LOGIN_ATTEMPTS by {
            assert(pre.attempts.contains_key(c) ==> 1 <= pre.attempts[c].count
                <= MAX_LOGIN_ATTEMPTS);
        }
    }
}

/// A second factor that is off stays off, whatever happens, until a setup is
/// confirmed.
pub proof fn second_factor_stays_off_until_confirmed(states: Seq<AuthView>, events: Seq<Event>)
    requires
        run(states, events),
        !states[0].credentials.two_factor.enabled,
        forall|i: int| 0 <= i < events.len() ==> !(#[trigger] events[i] is Confirmation),
    ensures
        !states.last().credentials.two_factor.enabled,
    decreases events.len(),
{
    if events.len() > 0 {
        lemma_shorter_run(states, events);
        assert(!(events[events.len() - 1] is Confirmation));
        assert forall|i: int| 0 <= i < events.drop_last().len() implies !(
        #[trigger] events.drop_last()[i] is Confirmation) by {
            assert(!(events[i] is Confirmation));
        }
        second_factor_stays_off_until_confirmed(states.drop_last(), events.drop_last());
    }
}

/// The secret that logins go by stays the same, whatever setups are started,
/// until one is confirmed or the second factor is switched off.
pub proof fn confirmed_secret_stays(states: Seq<AuthView>, events: Seq<Event>)
    requires
        run(states, events),
        forall|i: int|
            0 <= i < events.len() ==> !(#[trigger] events[i] is Confirmation) && !(
            events[i] is Disabling),
    ensures
        states.last().credentials.two_factor.confirmed_secret
            == states[0].credentials.two_factor.confirmed_secret,
        states.last().credentials.two_factor.enabled == states[0].credentials.two_factor.enabled,
    decreases events.len(),
{
    if events.len() > 0 {
        lemma_shorter_run(states, events);
        assert(!(events[events.len() - 1] is Confirmation));
        assert forall|i: int| 0 <= i < events.drop_last().len() implies !(
        #[trigger] events.drop_last()[i] is Confirmation) && !(events.drop_last()[i]
            is Disabling) by {
            assert(!(events[i] is Confirmation));
        }
        confirmed_secret_stays(states.drop_last(), events.drop_last());
    }
}

/// An account whose second factor, if it is on, has a confirmed secret keeps to
/// that in every run, so that it is restored just as it was written to disk.
pub proof fn account_is_restored_as_written(states: Seq<AuthView>, events: Seq<Event>)
    requires
        run(states, events),
        states[0].credentials.two_factor.enabled
            ==> states[0].credentials.two_factor.confirmed_secret is Some,
    ensures
        states.last().credentials.two_factor.enabled
            ==> states.last().credentials.two_factor.confirmed_secret is Some,
        states.last().credentials.restored() == states.last().credentials,
    decreases events.len(),
{
    if events.len() > 0 {
        lemma_shorter_run(states, events);
        account_is_restored_as_written(states.drop_last(), events.drop_last());
    }
}

/// The event falls into the window of `client` that began at `start`: its own
/// attempts are checked, and those of others recorded, before the window closes.
pub open spec fn during(event: Event, client: Seq<char>, start: u128) -> bool {
    match event {
        Event::Login { client: who, checked_at, now, .. } => fresh(
            start,
            if who == client {
                checked_at
            } else {
                now
            },
            LOGIN_ATTEMPT_WINDOW,
        ),
        Event::SecondStep { client: who, checked_at, now, .. } => fresh(
            start,
            if who == client {
                checked_at
            } else {
                now
            },
            LOGIN_ATTEMPT_WINDOW,
        ),
        _ => true,
    }
}

/// Whatever happens during a lock-out, attempts of the client itself included,
/// the lock-out ends when it would have ended: it is neither extended nor cut
/// short.
pub proof fn lockout_is_never_extended(
    states: Seq<AuthView>,
    events: Seq<Event>,
    client: Seq<char>,
    now: u128,
)
    requires
        run(states, events),
        states[0].attempts.contains_key(client),
        states[0].attempts[client].count >= MAX_LOGIN_ATTEMPTS,
        forall|i: int|
            0 <= i < events.len() ==> during(
                #[trigger] events[i],
                client,
                states[0].attempts[client].first,
            ),
    ensures
        states.last().attempts.contains_key(client),
        states.last().attempts[client] == states[0].attempts[client],
        states.last().locked_out(client, now) == states[0].locked_out(client, now),
    decreases events.len(),
{
    if events.len() > 0 {
        let start = states[0].attempts[client].first;
        lemma_shorter_run(states, events);
        assert(during(events[events.len() - 1], client, start));
        assert forall|i: int| 0 <= i < events.drop_last().len() implies during(
            #[trigger] events.drop_last()[i],
            client,
            start,
        ) by {
            assert(during(events[i], client, start));
        }
        lockout_is_never_extended(states.drop_last(), events.drop_last(), client, now);
    }
}

/// The event does not close the session, and lies between `opened` and `until`.
pub open spec fn spares(event: Event, token: Seq<char>, opened: u128, until: u128) -> bool {
    match event {
        Event::Login { now, .. } => opened <= now <= until,
        Event::SecondStep { now, .. } => opened <= now <= until,
        Event::Validation { now, .. } => now <= until,
        Event::Logout { token: closed } => closed != token,
        Event::AccountChange { .. } => false,
        _ => true,
    }
}

/// Nothing ends a session before its time but logging out of it and a change of
/// the account's name or password.
pub proof fn session_is_not_ended_early(
    states: Seq<AuthView>,
    events: Seq<Event>,
    token: Seq<char>,
    until: u128,
)
    requires
        run(states, events),
        states[0].session_live(token, until),
        forall|i: int|
            0 <= i < events.len() ==> spares(
                #[trigger] events[i],
                token,
                states[0].sessions[token],
                until,
            ),
    ensures
        states.last().session_live(token, until),
    decreases events.len(),
{
    if events.len() > 0 {
        let opened = states[0].sessions[token];
        lemma_shorter_run(states, events);
        assert(spares(events[events.len() - 1], token, opened, until));
        assert forall|i: int| 0 <= i < events.drop_last().len() implies spares(
            #[trigger] events.drop_last()[i],
            token,
            opened,
            until,
        ) by {
            assert(spares(events[i], token, opened, until));
        }
        session_is_not_ended_early(states.drop_last(), events.drop_last(), token, until);
    }
}

/// No stored hash accepts the code.
pub open spec fn no_hash_accepts(v: AuthView, code: Seq<char>) -> bool {
    let hashes = v.credentials.two_factor.backup_code_hashes;
    forall|j: int| 0 <= j < hashes.len() ==> !accepts(#[trigger] hashes[j], code)
}

/// A backup code that no stored hash accepts, such as one that was used up, is
/// not accepted again, whatever happens, until new codes are issued.
pub proof fn used_code_stays_used(
    states: Seq<AuthView>,
    events: Seq<Event>,
    code: Seq<char>,
    time: Option<u64>,
    factor: SecondFactor,
)
    requires
        run(states, events),
        code.len() != TOTP_DIGITS,
        no_hash_accepts(states[0], code),
        forall|i: int|
            0 <= i < events.len() ==> !(#[trigger] events[i] is Confirmation) && !(
            events[i] is Renewal),
        is_second_factor(states.last().credentials, code, time, factor),
    ensures
        factor == SecondFactor::Rejected,
{
    lemma_no_hash_accepts(states, events, code);
}

proof fn lemma_no_hash_accepts(states: Seq<AuthView>, events: Seq<Event>, code: Seq<char>)
    requires
        run(states, events),
        no_hash_accepts(states[0], code),
        forall|i: int|
            0 <= i < events.len() ==> !(#[trigger] events[i] is Confirmation) && !(
            events[i] is Renewal),
    ensures
        no_hash_accepts(states.last(), code),
    decreases events.len(),
{
    if events.len() > 0 {
        lemma_shorter_run(states, events);
        assert(!(events[events.len() - 1] is Confirmation));
        assert forall|i: int| 0 <= i < events.drop_last().len() implies !(
        #[trigger] events.drop_last()[i] is Confirmation) && !(events.drop_last()[i]
            is Renewal) by {
            assert(!(events[i] is Confirmation));
        }
        lemma_no_hash_accepts(states.drop_last(), events.drop_last(), code);
        let had = states.drop_last().last().credentials.two_factor.backup_code_hashes;
        let left = states.last().credentials.two_factor.backup_code_hashes;
        assert forall|j: int| 0 <= j < left.len() implies !accepts(#[trigger] left[j], code) by {
            if left == had {
                assert(!accepts(had[j], code));
            } else {
                let used = events.last()->SecondStep_factor->BackupCode_0;
                assert(left[j] == had[if j < used { j } else { j + 1 }]);
            }
        }
    }
}

/// The event leaves this stored hash where it is: it does not replace or drop
/// the backup codes, and does not use up the code of this hash.
pub open spec fn leaves_hash(pre: AuthView, event: Event, hash: Seq<char>) -> bool {
    match event {
        Event::Confirmation { .. } => false,
        Event::Renewal { .. } => false,
        Event::Disabling { .. } => false,
        Event::SecondStep { factor: SecondFactor::BackupCode(i), completion, .. } => {
            completion.credentials_changed
                ==> pre.credentials.two_factor.backup_code_hashes[i as int] != hash
        },
        _ => true,
    }
}

/// A backup code whose hash is stored stays a good second factor, whatever
/// happens, until it is used, the codes are renewed, a setup is confirmed or the
/// second factor is switched off.
pub proof fn unused_code_stays_good(
    states: Seq<AuthView>,
    events: Seq<Event>,
    hash: Seq<char>,
    code: Seq<char>,
    time: Option<u64>,
    factor: SecondFactor,
)
    requires
        run(states, events),
        states[0].credentials.two_factor.backup_code_hashes.contains(hash),
        accepts(hash, code),
        forall|i: int|
            0 <= i < events.len() ==> leaves_hash(states[i], #[trigger] events[i], hash),
        is_second_factor(states.last().credentials, code, time, factor),
    ensures
        factor != SecondFactor::Rejected,
{
    lemma_hash_stays(states, events, hash);
    let hashes = states.last().credentials.two_factor.backup_code_hashes;
    let j = choose|j: int| 0 <= j < hashes.len() && hashes[j] == hash;
    assert(accepts(hashes[j], code));
}

proof fn lemma_hash_stays(states: Seq<AuthView>, events: Seq<Event>, hash: Seq<char>)
    requires
        run(states, events),
        states[0].credentials.two_factor.backup_code_hashes.contains(hash),
        forall|i: int|
            0 <= i < events.len() ==> leaves_hash(states[i], #[trigger] events[i], hash),
    ensures
        states.last().credentials.two_factor.backup_code_hashes.contains(hash),
    decreases events.len(),
{
    if events.len() > 0 {
        lemma_shorter_run(states, events);
        let n = events.len() - 1;
        assert(leaves_hash(states[n], events[n], hash));
        assert forall|i: int| 0 <= i < events.drop_last().len() implies leaves_hash(
            states.drop_last()[i],
            #[trigger] events.drop_last()[i],
            hash,
        ) by {
            assert(leaves_hash(states[i], events[i], hash));
        }
        lemma_hash_stays(states.drop_last(), events.drop_last(), hash);
        let had = states[n].credentials.two_factor.backup_code_hashes;
        let left = states.last().credentials.two_factor.backup_code_hashes;
        let j = choose|j: int| 0 <= j < had.len() && had[j] == hash;
        if left != had {
            let used = events.last()->SecondStep_factor->BackupCode_0;
            assert(left[if j < used { j } else { j - 1 }] == hash);
        }
    }
}

} // verus!
