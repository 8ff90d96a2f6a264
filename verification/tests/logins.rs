use claunote_auth::clock::not_before;
use claunote_auth::policy::{
    LOGIN_ATTEMPT_WINDOW, MAX_LOGIN_ATTEMPTS, PENDING_2FA_LIFETIME, SESSION_LIFETIME,
};
use claunote_auth::token::token_of;
use claunote_auth::{Auth, Credentials, LoginOutcome, SecondFactor, TwoFactor};

/// The hash of `password` under the salt `somesalt`, with little memory.
const SMALL_HASH: &str =
    "$argon2id$v=19$m=256,t=2,p=1$c29tZXNhbHQ$nf65EOgLrQMR/uIPnA4rEsF5h7TKyQwu9U1bMCHGi/4";

const SECOND: u128 = 1_000_000_000;

fn account(enabled: bool, hashes: &[&str]) -> Credentials {
    Credentials {
        username: "admin".to_string(),
        password_hash: SMALL_HASH.to_string(),
        two_factor: TwoFactor {
            enabled,
            secret: None,
            confirmed_secret: None,
            backup_code_hashes: hashes.iter().map(|h| h.to_string()).collect(),
        },
    }
}

fn failed(outcome: LoginOutcome) -> bool {
    matches!(outcome, LoginOutcome::Failed)
}

/// Opens a session at `now` and gives out its token.
fn session(auth: &mut Auth, now: u128, byte: u8) -> String {
    match auth.login_with("client", "admin", true, now, now, &[byte; 32]) {
        LoginOutcome::Success(token) => token,
        other => panic!("{other:?}"),
    }
}

/// Begins a login that waits for its second factor, and gives out its token.
fn pending(auth: &mut Auth, client: &str, now: u128, byte: u8) -> String {
    match auth.login_with(client, "admin", true, now, now, &[byte; 32]) {
        LoginOutcome::NeedsTwoFactor(token) => token,
        other => panic!("{other:?}"),
    }
}

fn fail(auth: &mut Auth, client: &str, now: u128) {
    assert!(failed(auth.login_with(client, "admin", false, now, now, &[0; 32])));
}

#[test]
fn limits_are_these() {
    assert_eq!(SESSION_LIFETIME, 14 * 24 * 60 * 60 * SECOND);
    assert_eq!(LOGIN_ATTEMPT_WINDOW, 15 * 60 * SECOND);
    assert_eq!(PENDING_2FA_LIFETIME, 5 * 60 * SECOND);
    assert_eq!(MAX_LOGIN_ATTEMPTS, 8);
}

#[test]
fn clock_does_not_run_backwards() {
    assert_eq!(not_before(5, 3), 5);
    assert_eq!(not_before(5, 5), 5);
    assert_eq!(not_before(5, 8), 8);
}

#[test]
fn right_name_and_password_open_a_session() {
    let mut auth = Auth::new(account(false, &[]));
    let token = match auth.login("client", "admin", "password") {
        LoginOutcome::Success(token) => token,
        other => panic!("{other:?}"),
    };
    assert_eq!(token.len(), 43);
    assert!(auth.validate_session(&token));
    assert!(auth.validate_session(&token));
}

#[test]
fn wrong_name_or_password_opens_nothing() {
    let mut auth = Auth::new(account(false, &[]));
    assert!(failed(auth.login("client", "admin", "passwore")));
    assert!(failed(auth.login("client", "Admin", "password")));
    assert!(failed(auth.login("client", "adminn", "password")));
    assert!(failed(auth.login("client", "", "")));
    assert!(!auth.is_locked_out("client"));
}

#[test]
fn unreadable_hash_lets_nobody_in() {
    let mut credentials = account(false, &[]);
    credentials.password_hash = "password".to_string();
    let mut auth = Auth::new(credentials);
    assert!(failed(auth.login("client", "admin", "password")));
}

#[test]
fn each_login_opens_a_session_of_its_own() {
    let mut auth = Auth::new(account(false, &[]));
    let mut tokens = Vec::new();
    for _ in 0..4 {
        match auth.login("client", "admin", "password") {
            LoginOutcome::Success(token) => tokens.push(token),
            other => panic!("{other:?}"),
        }
    }
    for i in 0..4 {
        assert!(auth.validate_session(&tokens[i]));
        for j in 0..i {
            assert_ne!(tokens[i], tokens[j]);
        }
    }
}

#[test]
fn token_of_a_session_comes_of_its_bytes() {
    let mut auth = Auth::new(account(false, &[]));
    assert_eq!(session(&mut auth, 0, 9), token_of(&[9; 32]));
}

#[test]
fn session_lasts_for_its_lifetime() {
    let mut auth = Auth::new(account(false, &[]));
    let token = session(&mut auth, 5, 1);
    assert!(auth.validate_session_at(&token, 5));
    assert!(auth.validate_session_at(&token, 5 + SESSION_LIFETIME - 1));
    assert!(!auth.validate_session_at(&token, 5 + SESSION_LIFETIME));
    // By now it is forgotten.
    assert!(!auth.validate_session_at(&token, 5));
}

#[test]
fn unknown_session_is_not_live() {
    let mut auth = Auth::new(account(false, &[]));
    assert!(!auth.validate_session(""));
    assert!(!auth.validate_session("nobody"));
}

#[test]
fn opening_a_session_forgets_dead_ones_only() {
    let mut auth = Auth::new(account(false, &[]));
    let old = session(&mut auth, 0, 1);
    let recent = session(&mut auth, SECOND, 2);
    let new = session(&mut auth, SESSION_LIFETIME, 3);
    assert!(!auth.validate_session_at(&old, 0));
    assert!(auth.validate_session_at(&recent, SESSION_LIFETIME));
    assert!(auth.validate_session_at(&new, SESSION_LIFETIME));
}

#[test]
fn logout_closes_one_session() {
    let mut auth = Auth::new(account(false, &[]));
    let one = session(&mut auth, 0, 1);
    let other = session(&mut auth, 0, 2);
    auth.logout(&one);
    assert!(!auth.validate_session_at(&one, 0));
    assert!(auth.validate_session_at(&other, 0));
    auth.logout(&one);
    auth.logout("nobody");
    assert!(auth.validate_session_at(&other, 0));
}

#[test]
fn eighth_failure_locks_a_client_out() {
    let mut auth = Auth::new(account(false, &[]));
    for i in 0..8 {
        assert!(!auth.is_locked_out_at("client", i));
        fail(&mut auth, "client", i);
    }
    assert!(auth.is_locked_out_at("client", 8));
    // The right password does not help, and opens nothing.
    assert!(failed(auth.login_with("client", "admin", true, 8, 8, &[1; 32])));
    assert!(!auth.validate_session_at(&token_of(&[1; 32]), 8));
}

#[test]
fn failed_logins_lock_out_in_real_time() {
    let mut auth = Auth::new(account(false, &[]));
    for _ in 0..8 {
        assert!(!auth.is_locked_out("client"));
        assert!(failed(auth.login("client", "admin", "wrong")));
    }
    assert!(auth.is_locked_out("client"));
    assert!(failed(auth.login("client", "admin", "password")));
    assert!(matches!(auth.login("other", "admin", "password"), LoginOutcome::Success(_)));
}

#[test]
fn lockout_ends_with_the_window() {
    let mut auth = Auth::new(account(false, &[]));
    for i in 0..8 {
        fail(&mut auth, "client", 10 + i);
    }
    assert!(auth.is_locked_out_at("client", 10 + LOGIN_ATTEMPT_WINDOW - 1));
    assert!(!auth.is_locked_out_at("client", 10 + LOGIN_ATTEMPT_WINDOW));
    let end = 10 + LOGIN_ATTEMPT_WINDOW;
    assert!(matches!(
        auth.login_with("client", "admin", true, end, end, &[1; 32]),
        LoginOutcome::Success(_)
    ));
}

#[test]
fn attempts_do_not_extend_a_lockout() {
    let mut auth = Auth::new(account(true, &[]));
    for i in 0..8 {
        fail(&mut auth, "client", i);
    }
    for i in 1..50 {
        let now = i * 10 * SECOND;
        fail(&mut auth, "client", now);
        fail(&mut auth, "other", now);
        let refused = auth.verify_two_factor_login_with(
            "client",
            "nobody",
            SecondFactor::Totp,
            now,
            now,
            &[1; 32],
        );
        assert_eq!(refused.session, None);
    }
    assert!(auth.is_locked_out_at("client", LOGIN_ATTEMPT_WINDOW - 1));
    assert!(!auth.is_locked_out_at("client", LOGIN_ATTEMPT_WINDOW));
}

#[test]
fn session_outlives_other_requests() {
    let mut auth = Auth::new(account(false, &[]));
    let kept = session(&mut auth, 0, 1);
    for i in 1..20u8 {
        let now = i as u128 * SECOND;
        let other = session(&mut auth, now, i + 1);
        fail(&mut auth, "client", now);
        assert!(auth.validate_session_at(&other, now));
        auth.logout(&other);
    }
    assert!(auth.validate_session_at(&kept, SESSION_LIFETIME - 1));
}

#[test]
fn failures_count_within_one_window() {
    let mut auth = Auth::new(account(false, &[]));
    for i in 0..7 {
        fail(&mut auth, "client", i);
    }
    // The window has closed, so this is the first failure of a new one.
    let later = LOGIN_ATTEMPT_WINDOW;
    for i in 0..7 {
        fail(&mut auth, "client", later + i);
    }
    assert!(!auth.is_locked_out_at("client", later + 7));
    fail(&mut auth, "client", later + 7);
    assert!(auth.is_locked_out_at("client", later + 8));
}

#[test]
fn window_that_closes_during_a_lockout_check_starts_anew() {
    let mut auth = Auth::new(account(false, &[]));
    for i in 0..7 {
        fail(&mut auth, "client", i);
    }
    let end = LOGIN_ATTEMPT_WINDOW;
    assert!(failed(auth.login_with("client", "admin", false, end - 1, end, &[0; 32])));
    assert!(!auth.is_locked_out_at("client", end));
}

#[test]
fn failures_are_held_against_one_client() {
    let mut auth = Auth::new(account(false, &[]));
    for i in 0..8 {
        fail(&mut auth, "one", i);
    }
    fail(&mut auth, "two", 8);
    assert!(auth.is_locked_out_at("one", 8));
    assert!(!auth.is_locked_out_at("two", 8));
    assert!(!auth.is_locked_out_at("three", 8));
}

#[test]
fn success_forgives_failures() {
    let mut auth = Auth::new(account(false, &[]));
    for i in 0..7 {
        fail(&mut auth, "client", i);
    }
    session(&mut auth, 7, 1);
    for i in 0..7 {
        fail(&mut auth, "client", 8 + i);
    }
    assert!(!auth.is_locked_out_at("client", 15));
}

#[test]
fn second_factor_is_asked_for() {
    let mut auth = Auth::new(account(true, &[]));
    assert!(auth.two_factor_enabled());
    let token = pending(&mut auth, "client", 0, 1);
    assert_eq!(token, token_of(&[1; 32]));
    assert!(!auth.validate_session_at(&token, 0));
}

#[test]
fn second_factor_opens_the_session() {
    let mut auth = Auth::new(account(true, &[]));
    let token = pending(&mut auth, "client", 0, 1);
    let done = auth.verify_two_factor_login_with("client", &token, SecondFactor::Totp, 1, 1, &[2; 32]);
    assert!(!done.credentials_changed);
    let session = done.session.unwrap();
    assert_eq!(session, token_of(&[2; 32]));
    assert!(auth.validate_session_at(&session, 1));
    assert!(!auth.validate_session_at(&token, 1));
}

#[test]
fn pending_token_is_good_for_one_attempt() {
    for factor in [SecondFactor::Totp, SecondFactor::Rejected] {
        let mut auth = Auth::new(account(true, &[]));
        let token = pending(&mut auth, "client", 0, 1);
        let first = auth.verify_two_factor_login_with("client", &token, factor, 1, 1, &[2; 32]);
        assert_eq!(first.session.is_some(), factor == SecondFactor::Totp);
        let again =
            auth.verify_two_factor_login_with("client", &token, SecondFactor::Totp, 2, 2, &[3; 32]);
        assert_eq!(again.session, None);
        assert!(!again.credentials_changed);
    }
}

#[test]
fn pending_token_lasts_for_its_lifetime() {
    for (age, good) in [(PENDING_2FA_LIFETIME - 1, true), (PENDING_2FA_LIFETIME, false)] {
        let mut auth = Auth::new(account(true, &[]));
        let token = pending(&mut auth, "client", 7, 1);
        let at = 7 + age;
        let done =
            auth.verify_two_factor_login_with("client", &token, SecondFactor::Totp, at, at, &[2; 32]);
        assert_eq!(done.session.is_some(), good);
    }
}

#[test]
fn waiting_logins_do_not_disturb_each_other() {
    let mut auth = Auth::new(account(true, &[]));
    let one = pending(&mut auth, "client", 0, 1);
    let two = pending(&mut auth, "client", 1, 2);
    for token in [one, two] {
        let done =
            auth.verify_two_factor_login_with("client", &token, SecondFactor::Totp, 2, 2, &[3; 32]);
        assert!(done.session.is_some());
    }
}

#[test]
fn failed_second_steps_count_as_failures() {
    let mut auth = Auth::new(account(true, &[]));
    for i in 0..8u8 {
        // Once with a token that waits, then with one that does not.
        let token = if i == 0 { pending(&mut auth, "client", 0, 1) } else { "nobody".to_string() };
        let now = i as u128;
        let done = auth.verify_two_factor_login_with(
            "client",
            &token,
            SecondFactor::Rejected,
            now,
            now,
            &[2; 32],
        );
        assert_eq!(done.session, None);
    }
    assert!(auth.is_locked_out_at("client", 8));
}

#[test]
fn locked_out_client_keeps_its_pending_token() {
    let mut auth = Auth::new(account(true, &[]));
    let token = pending(&mut auth, "client", 0, 1);
    for i in 0..8 {
        fail(&mut auth, "client", i);
    }
    let refused =
        auth.verify_two_factor_login_with("client", &token, SecondFactor::Totp, 8, 8, &[2; 32]);
    assert_eq!(refused.session, None);
    let done =
        auth.verify_two_factor_login_with("other", &token, SecondFactor::Totp, 9, 9, &[2; 32]);
    assert!(done.session.is_some());
}

#[test]
fn used_backup_code_is_taken_out() {
    let mut auth = Auth::new(account(true, &["a", "b", "c"]));
    let token = pending(&mut auth, "client", 0, 1);
    let done = auth.verify_two_factor_login_with(
        "client",
        &token,
        SecondFactor::BackupCode(1),
        1,
        1,
        &[2; 32],
    );
    assert!(done.session.is_some());
    assert!(done.credentials_changed);
    assert_eq!(auth.credentials().two_factor.backup_code_hashes, ["a", "c"]);
}

#[test]
fn backup_code_counts_only_with_a_pending_token() {
    let mut auth = Auth::new(account(true, &["a", "b"]));
    let done = auth.verify_two_factor_login_with(
        "client",
        "nobody",
        SecondFactor::BackupCode(0),
        1,
        1,
        &[2; 32],
    );
    assert_eq!(done.session, None);
    assert!(!done.credentials_changed);
    assert_eq!(auth.credentials().two_factor.backup_code_hashes, ["a", "b"]);
}

#[test]
fn backup_code_completes_a_login_once() {
    // The hash of `password` stands in for that of a backup code.
    let mut auth = Auth::new(account(true, &["unreadable", SMALL_HASH]));
    let token = match auth.login("client", "admin", "password") {
        LoginOutcome::NeedsTwoFactor(token) => token,
        other => panic!("{other:?}"),
    };
    let done = auth.verify_two_factor_login("client", &token, "password");
    assert!(done.credentials_changed);
    assert!(auth.validate_session(&done.session.unwrap()));
    assert_eq!(auth.credentials().two_factor.backup_code_hashes, ["unreadable"]);

    let token = match auth.login("client", "admin", "password") {
        LoginOutcome::NeedsTwoFactor(token) => token,
        other => panic!("{other:?}"),
    };
    assert!(!auth.is_locked_out("client"));
    let again = auth.verify_two_factor_login("client", &token, "password");
    assert_eq!(again.session, None);
    assert!(!again.credentials_changed);
}

#[test]
fn first_backup_code_that_fits_is_used() {
    let credentials = account(true, &["unreadable", SMALL_HASH, SMALL_HASH]);
    assert_eq!(credentials.check_second_factor("password", None), SecondFactor::BackupCode(1));
    assert_eq!(credentials.check_second_factor("passwore", None), SecondFactor::Rejected);
}

#[test]
fn app_code_comes_before_backup_codes() {
    let mut credentials = account(true, &[SMALL_HASH]);
    credentials.two_factor.secret = Some("GEZDGNBVGY3TQOJQGEZDGNBVGY3TQOJR".to_string());
    credentials.two_factor.confirmed_secret = Some("GEZDGNBVGY3TQOJQGEZDGNBVGY3TQOJQ".to_string());
    assert_eq!(credentials.check_second_factor("287082", Some(59)), SecondFactor::Totp);
    assert_eq!(credentials.check_second_factor("287082", Some(590)), SecondFactor::Rejected);
    assert_eq!(credentials.check_second_factor("287082", None), SecondFactor::Rejected);
    assert_eq!(credentials.check_second_factor("password", Some(59)), SecondFactor::BackupCode(0));
}

#[test]
fn unusable_secret_leaves_the_backup_codes() {
    let mut credentials = account(true, &[SMALL_HASH]);
    credentials.two_factor.confirmed_secret = Some("!".to_string());
    assert_eq!(credentials.check_second_factor("password", Some(59)), SecondFactor::BackupCode(0));
}
