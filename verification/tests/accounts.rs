use std::time::SystemTime;
use std::time::UNIX_EPOCH;

use claunote_auth::backup::CODE_NOT_HASHED;
use claunote_auth::change::{
    CODE_MISMATCH, NOT_ENABLED, NOT_SERIALIZED, NOT_WRITTEN, NO_SETUP, PASSWORD_NOT_HASHED,
    QR_NOT_DRAWN, TOTP_NOT_BUILT, WRONG_PASSWORD,
};
use claunote_auth::secrets::{hash_accepts, PASSWORD_TOO_PLAIN, PASSWORD_TOO_SHORT};
use claunote_auth::totp::{judge_code, CodeVerdict, Enrolment};
use claunote_auth::auth::bootstrap_account;
use claunote_auth::{
    Auth, BootstrapError, Credentials, LoginOutcome, StoredAccount, TwoFactor, Written,
};
use argon2::password_hash::Error as HashError;
use totp_rs::{Algorithm, Secret, TOTP};

/// The hash of `password` under the salt `somesalt`, with little memory.
const SMALL_HASH: &str =
    "$argon2id$v=19$m=256,t=2,p=1$c29tZXNhbHQ$nf65EOgLrQMR/uIPnA4rEsF5h7TKyQwu9U1bMCHGi/4";

const SECRET: &str = "GEZDGNBVGY3TQOJQGEZDGNBVGY3TQOJQ";

fn account() -> Credentials {
    Credentials {
        username: "admin".to_string(),
        password_hash: SMALL_HASH.to_string(),
        two_factor: TwoFactor::default(),
    }
}

fn enrolled() -> Credentials {
    Credentials {
        two_factor: TwoFactor {
            enabled: true,
            secret: Some(SECRET.to_string()),
            confirmed_secret: Some(SECRET.to_string()),
            backup_code_hashes: vec!["old".to_string()],
        },
        ..account()
    }
}

fn login(auth: &mut Auth) -> String {
    match auth.login("client", "admin", "password") {
        LoginOutcome::Success(token) => token,
        other => panic!("{other:?}"),
    }
}

/// The code that an authenticator app with this secret shows now.
fn app_code(secret: &str) -> String {
    let bytes = Secret::Encoded(secret.to_string()).to_bytes().unwrap();
    let totp = TOTP::new(
        Algorithm::SHA1,
        6,
        1,
        30,
        bytes,
        Some("Claunote".to_string()),
        "admin".to_string(),
    )
    .unwrap();
    let now = SystemTime::now().duration_since(UNIX_EPOCH).unwrap().as_secs();
    totp.generate(now)
}

/// A text of six digits that is not good now.
fn bad_code(secret: &str) -> String {
    let now = SystemTime::now().duration_since(UNIX_EPOCH).unwrap().as_secs();
    (0..1000)
        .map(|n| format!("{n:06}"))
        .find(|code| {
            (0..3).all(|k| {
                judge_code(secret, "admin", code, Some(now + 30 * k)) != CodeVerdict::Right
            })
        })
        .unwrap()
}

#[test]
fn stored_account_is_taken_as_it_is() {
    let (auth, first_run) =
        Auth::load_or_bootstrap(StoredAccount::Found(enrolled()), "other".to_string(), "weak").unwrap();
    assert!(!first_run);
    assert_eq!(auth.username(), "admin");
    assert!(auth.two_factor_enabled());
    assert_eq!(auth.credentials().password_hash, SMALL_HASH);
    assert_eq!(auth.credentials().two_factor.backup_code_hashes, ["old"]);
}

#[test]
fn stored_account_is_restored() {
    let mut stored = enrolled();
    stored.two_factor.confirmed_secret = None;
    let (auth, _) =
        Auth::load_or_bootstrap(StoredAccount::Found(stored), "a".to_string(), "weak").unwrap();
    assert_eq!(auth.credentials().two_factor.confirmed_secret.as_deref(), Some(SECRET));
    // What is written after that is read back as it is.
    let written = auth.credentials().clone();
    let (again, _) =
        Auth::load_or_bootstrap(StoredAccount::Found(written), "b".to_string(), "x").unwrap();
    assert_eq!(again.credentials().username, "admin");
    assert_eq!(again.credentials().two_factor.confirmed_secret.as_deref(), Some(SECRET));
}

#[test]
fn account_that_cannot_be_read_is_refused() {
    let r = Auth::load_or_bootstrap(StoredAccount::Unreadable, "a".to_string(), "Abcdefgh1!");
    assert!(matches!(r, Err(BootstrapError::Unreadable)));
}

#[test]
fn stored_second_factor_without_a_confirmed_secret_goes_by_its_secret() {
    let stored = |enabled, confirmed: Option<&str>| {
        TwoFactor {
            enabled,
            secret: Some("NEW".to_string()),
            confirmed_secret: confirmed.map(str::to_string),
            backup_code_hashes: vec!["old".to_string()],
        }
        .restored()
    };
    assert_eq!(stored(true, None).confirmed_secret.as_deref(), Some("NEW"));
    assert_eq!(stored(true, Some("OLD")).confirmed_secret.as_deref(), Some("OLD"));
    assert_eq!(stored(false, None).confirmed_secret, None);
    assert_eq!(stored(true, None).secret.as_deref(), Some("NEW"));
    assert_eq!(stored(true, None).backup_code_hashes, ["old"]);
    assert_eq!(TwoFactor { enabled: true, ..TwoFactor::default() }.restored().confirmed_secret, None);
}

#[test]
fn first_run_makes_the_account() {
    let (mut auth, first_run) =
        Auth::load_or_bootstrap(StoredAccount::Missing, "alice".to_string(), "Abcdefgh1!").unwrap();
    assert!(first_run);
    assert_eq!(auth.username(), "alice");
    assert!(!auth.two_factor_enabled());
    assert_eq!(auth.credentials().two_factor.secret, None);
    assert!(auth.credentials().two_factor.backup_code_hashes.is_empty());
    assert!(auth.credentials().password_hash.starts_with("$argon2id$v=19$m=19456,t=2,p=1$"));
    assert_ne!(auth.credentials().password_hash, "Abcdefgh1!");
    assert!(matches!(auth.login("client", "alice", "Abcdefgh1!"), LoginOutcome::Success(_)));
    assert!(matches!(auth.login("client", "alice", "Abcdefgh1?"), LoginOutcome::Failed));
}

#[test]
fn salts_differ_from_run_to_run() {
    let (one, _) = Auth::load_or_bootstrap(StoredAccount::Missing, "a".to_string(), "Abcdefgh1!").unwrap();
    let (two, _) = Auth::load_or_bootstrap(StoredAccount::Missing, "a".to_string(), "Abcdefgh1!").unwrap();
    assert_ne!(one.credentials().password_hash, two.credentials().password_hash);
}

#[test]
fn first_run_refuses_a_weak_password() {
    match Auth::load_or_bootstrap(StoredAccount::Missing, "alice".to_string(), "Abc1!") {
        Err(BootstrapError::WeakPassword(message)) => assert_eq!(message, PASSWORD_TOO_SHORT),
        _ => panic!("taken"),
    }
    match Auth::load_or_bootstrap(StoredAccount::Missing, "alice".to_string(), "abcdefghijkl") {
        Err(BootstrapError::WeakPassword(message)) => assert_eq!(message, PASSWORD_TOO_PLAIN),
        _ => panic!("taken"),
    }
}

#[test]
fn account_without_a_hash_is_refused() {
    assert!(matches!(
        bootstrap_account("alice".to_string(), "Abcdefgh1!", Err(HashError::Crypto)),
        Err(BootstrapError::NotHashed(HashError::Crypto))
    ));
    assert!(matches!(
        bootstrap_account("alice".to_string(), "weak", Err(HashError::Crypto)),
        Err(BootstrapError::WeakPassword(PASSWORD_TOO_SHORT))
    ));
    let made =
        bootstrap_account("alice".to_string(), "Abcdefgh1!", Ok("hash".to_string())).unwrap();
    assert_eq!(made.username, "alice");
    assert_eq!(made.password_hash, "hash");
    assert!(!made.two_factor.enabled);
}

#[test]
fn clone_is_the_same_account() {
    let copy = enrolled().clone();
    assert_eq!(copy.username, "admin");
    assert_eq!(copy.password_hash, SMALL_HASH);
    assert!(copy.two_factor.enabled);
    assert_eq!(copy.two_factor.secret.as_deref(), Some(SECRET));
    assert_eq!(copy.two_factor.confirmed_secret.as_deref(), Some(SECRET));
    assert_eq!(copy.two_factor.backup_code_hashes, ["old"]);
}

#[test]
fn setup_stores_a_fresh_secret_and_nothing_else() {
    let mut auth = Auth::new(account());
    let (change, (secret, url, picture)) = auth.start_two_factor_setup().unwrap();
    assert_eq!(secret.len(), 32);
    assert!(secret.chars().all(|c| c.is_ascii_uppercase() || ('2'..='7').contains(&c)));
    assert_eq!(url, format!("otpauth://totp/Claunote:admin?secret={secret}&issuer=Claunote"));
    assert!(picture.starts_with("data:image/png;base64,iVBORw0KGgo"));
    // Nothing has changed until the change is written.
    assert_eq!(auth.credentials().two_factor.secret, None);
    assert_eq!(change.credentials().two_factor.secret, Some(secret.clone()));
    assert_eq!(auth.finish_change(change, Written::Done), Ok(()));
    assert_eq!(auth.credentials().two_factor.secret, Some(secret));
    assert!(!auth.two_factor_enabled());
}

#[test]
fn each_setup_has_a_secret_of_its_own() {
    let auth = Auth::new(account());
    let (_, (one, _, _)) = auth.start_two_factor_setup().unwrap();
    let (_, (two, _, _)) = auth.start_two_factor_setup().unwrap();
    assert_ne!(one, two);
}

#[test]
fn abandoned_setup_does_not_affect_login() {
    let mut auth = Auth::new(account());
    let token = login(&mut auth);
    let (change, _) = auth.start_two_factor_setup().unwrap();
    assert_eq!(auth.finish_change(change, Written::Done), Ok(()));
    assert!(auth.validate_session(&token));
    let token = login(&mut auth);
    assert!(auth.validate_session(&token));
}

/// Begins a login that waits for its second factor.
fn pending(auth: &mut Auth) -> String {
    match auth.login("client", "admin", "password") {
        LoginOutcome::NeedsTwoFactor(token) => token,
        other => panic!("{other:?}"),
    }
}

#[test]
fn abandoned_setup_does_not_affect_the_second_step() {
    let mut auth = Auth::new(enrolled());
    let waiting = pending(&mut auth);
    let (change, (fresh, _, _)) = auth.start_two_factor_setup().unwrap();
    assert_eq!(auth.finish_change(change, Written::Done), Ok(()));
    assert_eq!(auth.credentials().two_factor.secret.as_deref(), Some(fresh.as_str()));
    assert_eq!(auth.credentials().two_factor.confirmed_secret.as_deref(), Some(SECRET));
    // The login that waited, and a new one, both go by the confirmed secret.
    let done = auth.verify_two_factor_login("client", &waiting, &app_code(SECRET));
    assert!(auth.validate_session(&done.session.unwrap()));
    let waiting = pending(&mut auth);
    let done = auth.verify_two_factor_login("client", &waiting, &app_code(SECRET));
    assert!(done.session.is_some());
    let time = SystemTime::now().duration_since(UNIX_EPOCH).unwrap().as_secs();
    let code = app_code(&fresh);
    if judge_code(SECRET, "admin", &code, Some(time)) != CodeVerdict::Right {
        let waiting = pending(&mut auth);
        let refused = auth.verify_two_factor_login("client", &waiting, &code);
        assert_eq!(refused.session, None);
    }
}

#[test]
fn confirmed_setup_replaces_the_secret() {
    let mut auth = Auth::new(enrolled());
    let (change, (fresh, _, _)) = auth.start_two_factor_setup().unwrap();
    assert_eq!(auth.finish_change(change, Written::Done), Ok(()));
    let (change, _) = auth.confirm_two_factor_setup(&app_code(&fresh)).unwrap();
    assert_eq!(auth.finish_change(change, Written::Done), Ok(()));
    assert_eq!(auth.credentials().two_factor.confirmed_secret.as_deref(), Some(fresh.as_str()));
    let waiting = pending(&mut auth);
    let done = auth.verify_two_factor_login("client", &waiting, &app_code(&fresh));
    assert!(done.session.is_some());
}

#[test]
fn setup_is_refused_for_a_name_with_a_colon() {
    let auth = Auth::new(Credentials { username: "ad:min".to_string(), ..account() });
    assert_eq!(auth.start_two_factor_setup().err(), Some("failed to build TOTP"));
}

#[test]
fn setup_is_refused_for_a_name_that_fits_no_picture() {
    let auth = Auth::new(Credentials { username: "a".repeat(5000), ..account() });
    assert_eq!(auth.start_two_factor_setup().err(), Some("failed to generate QR code"));
}

#[test]
fn setup_change_goes_by_the_enrolment() {
    let credentials = enrolled();
    let refused = credentials.setup_change("NEW".to_string(), Enrolment::Unusable);
    assert_eq!(refused.err(), Some(TOTP_NOT_BUILT));
    let refused = credentials.setup_change("NEW".to_string(), Enrolment::NoPicture);
    assert_eq!(refused.err(), Some(QR_NOT_DRAWN));
    let ready = Enrolment::Ready { url: "url".to_string(), picture: "QQ".to_string() };
    let (change, told) = credentials.setup_change("NEW".to_string(), ready).unwrap();
    assert_eq!(
        told,
        ("NEW".to_string(), "url".to_string(), "data:image/png;base64,QQ".to_string())
    );
    let (after, ends_sessions) = change.into_parts();
    assert!(!ends_sessions);
    assert!(after.two_factor.enabled);
    assert_eq!(after.two_factor.secret.as_deref(), Some("NEW"));
    assert_eq!(after.two_factor.confirmed_secret.as_deref(), Some(SECRET));
    assert_eq!(after.two_factor.backup_code_hashes, ["old"]);
}

#[test]
fn confirmation_switches_the_second_factor_on() {
    let mut auth = Auth::new(account());
    let (change, (secret, _, _)) = auth.start_two_factor_setup().unwrap();
    assert_eq!(auth.finish_change(change, Written::Done), Ok(()));

    assert_eq!(auth.confirm_two_factor_setup(&bad_code(&secret)).err(), Some(CODE_MISMATCH));
    assert!(!auth.two_factor_enabled());

    let (change, codes) = auth.confirm_two_factor_setup(&app_code(&secret)).unwrap();
    assert!(!auth.two_factor_enabled());
    assert_eq!(auth.finish_change(change, Written::Done), Ok(()));
    assert!(auth.two_factor_enabled());
    assert_eq!(codes.len(), 8);
    assert_eq!(auth.credentials().two_factor.backup_code_hashes.len(), 8);
    assert_eq!(auth.credentials().two_factor.secret.as_deref(), Some(secret.as_str()));

    let pending = match auth.login("client", "admin", "password") {
        LoginOutcome::NeedsTwoFactor(token) => token,
        other => panic!("{other:?}"),
    };
    let done = auth.verify_two_factor_login("client", &pending, &app_code(&secret));
    assert!(!done.credentials_changed);
    assert!(auth.validate_session(&done.session.unwrap()));

    let pending = match auth.login("client", "admin", "password") {
        LoginOutcome::NeedsTwoFactor(token) => token,
        other => panic!("{other:?}"),
    };
    let done = auth.verify_two_factor_login("client", &pending, &codes[0]);
    assert!(done.credentials_changed);
    assert!(auth.validate_session(&done.session.unwrap()));
    assert_eq!(auth.credentials().two_factor.backup_code_hashes.len(), 7);
}

#[test]
fn confirmation_needs_a_setup() {
    let auth = Auth::new(account());
    assert_eq!(
        auth.confirm_two_factor_setup("000000").err(),
        Some("no 2FA setup in progress - start setup first")
    );
}

#[test]
fn confirmation_needs_usable_parameters() {
    let mut credentials = account();
    credentials.two_factor.secret = Some("!".to_string());
    let auth = Auth::new(credentials);
    assert_eq!(auth.confirm_two_factor_setup("000000").err(), Some("failed to build TOTP"));
}

#[test]
fn confirmation_change_goes_by_verdict_and_codes() {
    let codes = || Some((vec!["shown".to_string()], vec!["kept".to_string()]));
    let err = |credentials: &Credentials, verdict, codes| {
        credentials.confirmation_change(verdict, codes).err()
    };
    assert_eq!(err(&account(), CodeVerdict::Right, codes()), Some(NO_SETUP));
    assert_eq!(err(&enrolled(), CodeVerdict::Unusable, codes()), Some(TOTP_NOT_BUILT));
    assert_eq!(err(&enrolled(), CodeVerdict::Wrong, codes()), Some(CODE_MISMATCH));
    assert_eq!(err(&enrolled(), CodeVerdict::Right, None), Some(CODE_NOT_HASHED));
    assert_eq!(CODE_NOT_HASHED, "failed to hash backup code");
    assert_eq!(
        CODE_MISMATCH,
        "that code didn't match - check your authenticator app's time is correct"
    );
    let mut credentials = account();
    credentials.two_factor.secret = Some(SECRET.to_string());
    let (change, shown) = credentials.confirmation_change(CodeVerdict::Right, codes()).unwrap();
    assert_eq!(shown, ["shown"]);
    assert!(change.credentials().two_factor.enabled);
    assert_eq!(change.credentials().two_factor.backup_code_hashes, ["kept"]);
    assert_eq!(change.credentials().two_factor.secret.as_deref(), Some(SECRET));
    assert_eq!(change.credentials().two_factor.confirmed_secret.as_deref(), Some(SECRET));
}

#[test]
fn disabling_leaves_nothing_of_the_second_factor() {
    let mut auth = Auth::new(enrolled());
    assert_eq!(auth.disable_two_factor("wrong").err(), Some("current password is incorrect"));
    let change = auth.disable_two_factor("password").unwrap();
    assert!(auth.two_factor_enabled());
    assert_eq!(auth.finish_change(change, Written::Done), Ok(()));
    assert!(!auth.two_factor_enabled());
    assert_eq!(auth.credentials().two_factor.secret, None);
    assert_eq!(auth.credentials().two_factor.confirmed_secret, None);
    assert!(auth.credentials().two_factor.backup_code_hashes.is_empty());
    let token = login(&mut auth);
    assert!(auth.validate_session(&token));
}

#[test]
fn renewal_replaces_every_backup_code() {
    let auth = Auth::new(enrolled());
    assert_eq!(auth.regenerate_backup_codes("wrong").err(), Some(WRONG_PASSWORD));
    let (change, codes) = auth.regenerate_backup_codes("password").unwrap();
    assert_eq!(codes.len(), 8);
    let after = change.credentials();
    assert_eq!(after.two_factor.backup_code_hashes.len(), 8);
    assert!(!after.two_factor.backup_code_hashes.contains(&"old".to_string()));
    assert!(hash_accepts(&after.two_factor.backup_code_hashes[3], &codes[3]));
    assert!(after.two_factor.enabled);
    assert_eq!(after.two_factor.secret.as_deref(), Some(SECRET));
}

#[test]
fn renewal_needs_a_second_factor() {
    let auth = Auth::new(account());
    assert_eq!(
        auth.regenerate_backup_codes("password").err(),
        Some("two-factor authentication isn't enabled")
    );
    // A wrong password is what is found first.
    assert_eq!(auth.regenerate_backup_codes("wrong").err(), Some(WRONG_PASSWORD));
}

#[test]
fn renewal_change_goes_by_password_and_codes() {
    let codes = || Some((vec!["shown".to_string()], vec!["kept".to_string()]));
    assert_eq!(enrolled().renewal_change(false, codes()).err(), Some(WRONG_PASSWORD));
    assert_eq!(account().renewal_change(true, codes()).err(), Some(NOT_ENABLED));
    assert_eq!(enrolled().renewal_change(true, None).err(), Some(CODE_NOT_HASHED));
    let (change, shown) = enrolled().renewal_change(true, codes()).unwrap();
    assert_eq!(shown, ["shown"]);
    assert_eq!(change.credentials().two_factor.backup_code_hashes, ["kept"]);
}

#[test]
fn changed_password_logs_in_and_ends_every_session() {
    let mut auth = Auth::new(account());
    let one = login(&mut auth);
    let two = login(&mut auth);
    let change = auth
        .change_credentials("password", Some("bob".to_string()), Some("Zyxwvuts9?".to_string()))
        .unwrap();
    assert!(auth.validate_session(&one));
    assert_eq!(auth.finish_change(change, Written::Done), Ok(()));
    assert!(!auth.validate_session(&one));
    assert!(!auth.validate_session(&two));
    assert_eq!(auth.username(), "bob");
    assert!(matches!(auth.login("client", "admin", "password"), LoginOutcome::Failed));
    assert!(matches!(auth.login("client", "bob", "password"), LoginOutcome::Failed));
    assert!(matches!(auth.login("client", "bob", "Zyxwvuts9?"), LoginOutcome::Success(_)));
}

#[test]
fn name_alone_can_be_changed() {
    let mut auth = Auth::new(enrolled());
    let change = auth.change_credentials("password", Some("bob".to_string()), None).unwrap();
    assert_eq!(auth.finish_change(change, Written::Done), Ok(()));
    assert_eq!(auth.username(), "bob");
    assert_eq!(auth.credentials().password_hash, SMALL_HASH);
    assert!(auth.two_factor_enabled());
}

#[test]
fn change_of_nothing_still_ends_every_session() {
    let mut auth = Auth::new(account());
    let token = login(&mut auth);
    let change = auth.change_credentials("password", None, None).unwrap();
    assert_eq!(auth.finish_change(change, Written::Done), Ok(()));
    assert!(!auth.validate_session(&token));
    assert_eq!(auth.username(), "admin");
}

#[test]
fn account_change_is_refused_on_these_grounds() {
    let auth = Auth::new(account());
    let err = |current: &str, new: &str| {
        auth.change_credentials(current, Some("bob".to_string()), Some(new.to_string())).err()
    };
    assert_eq!(err("wrong", "Zyxwvuts9?"), Some("current password is incorrect"));
    assert_eq!(err("wrong", "weak"), Some(WRONG_PASSWORD));
    assert_eq!(err("password", "Abc1!"), Some(PASSWORD_TOO_SHORT));
    assert_eq!(err("password", "abcdefghijkl"), Some(PASSWORD_TOO_PLAIN));
    assert_eq!(auth.username(), "admin");
}

#[test]
fn account_change_goes_by_the_hash() {
    let strong = || Some("Zyxwvuts9?".to_string());
    let refused = account().account_change(true, None, strong(), None);
    assert_eq!(refused.err(), Some(PASSWORD_NOT_HASHED));
    assert_eq!(PASSWORD_NOT_HASHED, "failed to hash new password");
    let refused = account().account_change(false, None, strong(), Some("hash".to_string()));
    assert_eq!(refused.err(), Some(WRONG_PASSWORD));
    let change = account().account_change(true, None, strong(), Some("hash".to_string())).unwrap();
    let (after, ends_sessions) = change.into_parts();
    assert!(ends_sessions);
    assert_eq!(after.username, "admin");
    assert_eq!(after.password_hash, "hash");
    // Without a new password the hash does not count.
    let change = account().account_change(true, None, None, Some("hash".to_string())).unwrap();
    assert_eq!(change.credentials().password_hash, SMALL_HASH);
}

#[test]
fn change_that_is_not_written_has_no_effect() {
    let mut auth = Auth::new(account());
    let token = login(&mut auth);
    for (written, message) in [
        (Written::NotSerialized, "failed to serialize credentials"),
        (Written::NotWritten, "failed to persist credentials"),
    ] {
        let change = auth.change_credentials("password", Some("bob".to_string()), None).unwrap();
        assert_eq!(auth.finish_change(change, written), Err(message));
        assert_eq!(auth.username(), "admin");
        assert!(auth.validate_session(&token));
    }
    assert_eq!(NOT_SERIALIZED, "failed to serialize credentials");
    assert_eq!(NOT_WRITTEN, "failed to persist credentials");
}
