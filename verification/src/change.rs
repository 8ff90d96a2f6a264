//! Changes of the account: what may be changed, on what terms, and into what.
//!
//! A change is worked out first and takes effect later, once it has been
//! written to disk. Each function here is given what the clock, chance and the
//! hashing of passwords have to say.

use vstd::prelude::*;
use vstd::string::*;

#[allow(unused_imports)]
use crate::backup::{issued, texts};
use crate::backup::CODE_NOT_HASHED;
#[allow(unused_imports)]
use crate::credentials::{no_second_factor, CredentialsView};
use crate::credentials::{Credentials, TwoFactor};
use crate::secrets::validate_password_strength;
#[allow(unused_imports)]
use crate::secrets::{hash_of, strong, weakness};
#[allow(unused_imports)]
use crate::totp::{
    code_verdict, enrolment_url, qr_base64, text_of, totp_usable, OTPAUTH_PREFIX,
};
use crate::totp::{CodeVerdict, Enrolment};

verus! {

/// The answer to a wrong current password.
pub const WRONG_PASSWORD: &'static str = "current password is incorrect";

/// The answer when a secret and a username make no usable parameters.
pub const TOTP_NOT_BUILT: &'static str = "failed to build TOTP";

/// The answer when no QR code can be drawn.
pub const QR_NOT_DRAWN: &'static str = "failed to generate QR code";

/// The answer to a confirmation without a setup before it.
pub const NO_SETUP: &'static str = "no 2FA setup in progress - start setup first";

/// The answer to a confirmation with a code that is not good.
pub const CODE_MISMATCH: &'static str =
    "that code didn't match - check your authenticator app's time is correct";

/// The answer to a request for backup codes without a second factor.
pub const NOT_ENABLED: &'static str = "two-factor authentication isn't enabled";

/// The answer when a new password cannot be hashed.
pub const PASSWORD_NOT_HASHED: &'static str = "failed to hash new password";

/// The answer when the account cannot be put into the form that is written.
pub const NOT_SERIALIZED: &'static str = "failed to serialize credentials";

/// The answer when the account cannot be written to disk.
pub const NOT_WRITTEN: &'static str = "failed to persist credentials";

/// How the picture of a QR code begins when it is put into a web page.
pub const PICTURE_PREFIX: &'static str = "data:image/png;base64,";

/// A change of the account that has yet to be written to disk.
pub struct CredentialChange {
    base: Ghost<CredentialsView>,
    credentials: Credentials,
    ends_sessions: bool,
}

/// What a `CredentialChange` stands for.
#[verifier::ext_equal]
pub struct ChangeView {
    /// The account that the change was worked out from.
    pub base: CredentialsView,
    /// The account after the change.
    pub credentials: CredentialsView,
    /// Whether the change closes every session.
    pub ends_sessions: bool,
}

impl View for CredentialChange {
    type V = ChangeView;

    closed spec fn view(&self) -> ChangeView {
        ChangeView {
            base: self.base@,
            credentials: self.credentials@,
            ends_sessions: self.ends_sessions,
        }
    }
}

/// What came of writing a change to disk.
#[derive(Clone, Copy, PartialEq, Eq, Structural, Debug)]
pub enum Written {
    /// It was written.
    Done,
    /// The account could not be put into the form that is written.
    NotSerialized,
    /// The file could not be written.
    NotWritten,
}

impl CredentialChange {
    /// The account after the change, as it is to be written to disk.
    pub fn credentials(&self) -> (c: &Credentials)
        ensures
            c@ == self@.credentials,
    {
        &self.credentials
    }

    /// Takes the change apart: the account after it, and whether it closes
    /// every session.
    pub fn into_parts(self) -> (parts: (Credentials, bool))
        ensures
            parts.0@ == self@.credentials,
            parts.1 == self@.ends_sessions,
    {
        (self.credentials, self.ends_sessions)
    }
}

/// A set of backup codes, and their hashes.
pub type CodeSet = (Vec<String>, Vec<String>);

/// Why enrolling an app is refused, if it is.
pub open spec fn setup_refusal(enrolment: Enrolment) -> Option<Seq<char>> {
    match enrolment {
        Enrolment::Unusable => Some(TOTP_NOT_BUILT@),
        Enrolment::NoPicture => Some(QR_NOT_DRAWN@),
        Enrolment::Ready { url, picture } => None,
    }
}

/// Why confirming a setup is refused, if it is.
pub open spec fn confirmation_refusal(
    c: CredentialsView,
    verdict: CodeVerdict,
    has_codes: bool,
) -> Option<Seq<char>> {
    if c.two_factor.secret is None {
        Some(NO_SETUP@)
    } else if verdict == CodeVerdict::Unusable {
        Some(TOTP_NOT_BUILT@)
    } else if verdict == CodeVerdict::Wrong {
        Some(CODE_MISMATCH@)
    } else if !has_codes {
        Some(CODE_NOT_HASHED@)
    } else {
        None
    }
}

/// Why issuing new backup codes is refused, if it is.
pub open spec fn renewal_refusal(
    c: CredentialsView,
    password_right: bool,
    has_codes: bool,
) -> Option<Seq<char>> {
    if !password_right {
        Some(WRONG_PASSWORD@)
    } else if !c.two_factor.enabled {
        Some(NOT_ENABLED@)
    } else if !has_codes {
        Some(CODE_NOT_HASHED@)
    } else {
        None
    }
}

/// Why changing the account's name or password is refused, if it is.
pub open spec fn account_refusal(
    password_right: bool,
    new_password: Option<Seq<char>>,
    has_hash: bool,
) -> Option<Seq<char>> {
    if !password_right {
        Some(WRONG_PASSWORD@)
    } else if new_password is Some && !strong(new_password->0) {
        Some(weakness(new_password->0))
    } else if new_password is Some && !has_hash {
        Some(PASSWORD_NOT_HASHED@)
    } else {
        None
    }
}

/// The account under its new name, if there is one, and with its new hash, if
/// there is one.
pub open spec fn renamed(
    c: CredentialsView,
    new_username: Option<Seq<char>>,
    new_hash: Option<Seq<char>>,
) -> CredentialsView {
    CredentialsView {
        username: if new_username is Some {
            new_username->0
        } else {
            c.username
        },
        password_hash: if new_hash is Some {
            new_hash->0
        } else {
            c.password_hash
        },
        ..c
    }
}

/// An app was to be enrolled with this secret, with this outcome.
pub open spec fn setup_outcome(
    c: CredentialsView,
    secret: Seq<char>,
    r: Result<(CredentialChange, (String, String, String)), &'static str>,
) -> bool {
    let url = enrolment_url(secret, c.username);
    if !totp_usable(secret, c.username) {
        r matches Err(message) && message@ == TOTP_NOT_BUILT@
    } else {
        match qr_base64(url) {
            None => r matches Err(message) && message@ == QR_NOT_DRAWN@,
            Some(picture) => r matches Ok((change, told)) && {
                &&& change@.base == c
                &&& change@.credentials == c.with_secret(secret)
                &&& !change@.ends_sessions
                &&& told.0@ == secret
                &&& told.1@ == url
                &&& OTPAUTH_PREFIX@.is_prefix_of(told.1@)
                &&& told.2@ == PICTURE_PREFIX@ + picture
            },
        }
    }
}

/// A setup was to be confirmed with this code at this time, with this outcome.
/// The codes given out are a full set, and the hashes of just these are kept.
pub open spec fn confirmation_outcome(
    c: CredentialsView,
    code: Seq<char>,
    time: Option<u64>,
    r: Result<(CredentialChange, Vec<String>), &'static str>,
) -> bool {
    let verdict = code_verdict(c.two_factor.secret->0, c.username, code, time);
    match confirmation_refusal(c, verdict, true) {
        Some(reason) => r matches Err(message) && message@ == reason,
        None => r matches Ok((change, shown)) && {
            let hashes = change@.credentials.two_factor.backup_code_hashes;
            &&& issued(texts(shown@), hashes)
            &&& change@.base == c
            &&& change@.credentials == c.with_two_factor_on(hashes)
            &&& !change@.ends_sessions
        },
    }
}

/// New backup codes were asked for with this password, with this outcome. The
/// codes given out are a full set, and the hashes of just these are kept.
pub open spec fn renewal_outcome(
    c: CredentialsView,
    password: Seq<char>,
    r: Result<(CredentialChange, Vec<String>), &'static str>,
) -> bool {
    match renewal_refusal(c, c.password_is(password), true) {
        Some(reason) => r matches Err(message) && message@ == reason,
        None => r matches Ok((change, shown)) && {
            let hashes = change@.credentials.two_factor.backup_code_hashes;
            &&& issued(texts(shown@), hashes)
            &&& change@.base == c
            &&& change@.credentials == c.with_backup_codes(hashes)
            &&& !change@.ends_sessions
        },
    }
}

/// The account's name and password were to be changed with this current
/// password, with this outcome. `salt` went into the hash of the new password.
pub open spec fn account_outcome(
    c: CredentialsView,
    password: Seq<char>,
    new_username: Option<Seq<char>>,
    new_password: Option<Seq<char>>,
    salt: Seq<u8>,
    r: Result<CredentialChange, &'static str>,
) -> bool {
    let new_hash = if new_password is Some {
        hash_of(new_password->0, salt)
    } else {
        None
    };
    match account_refusal(c.password_is(password), new_password, new_hash is Some) {
        Some(reason) => r matches Err(message) && message@ == reason,
        None => r matches Ok(change) && {
            &&& change@.base == c
            &&& change@.credentials == renamed(c, new_username, new_hash)
            &&& change@.ends_sessions
        },
    }
}

impl Credentials {
    /// Stores a secret for an authenticator app that is being enrolled, and
    /// leaves everything else as it is, the confirmed secret too. Gives out what
    /// the app has to be told: the secret, the address, and the picture in a form
    /// for a web page.
    pub fn setup_change(&self, secret_b32: String, enrolment: Enrolment) -> (r: Result<
        (CredentialChange, (String, String, String)),
        &'static str,
    >)
        ensures
            match setup_refusal(enrolment) {
                Some(reason) => r matches Err(message) && message@ == reason,
                None => r matches Ok((change, told)) && {
                    &&& change@.base == self@
                    &&& change@.credentials == self@.with_secret(secret_b32@)
                    &&& !change@.ends_sessions
                    &&& told.0@ == secret_b32@
                    &&& told.1@ == enrolment->url@
                    &&& told.2@ == PICTURE_PREFIX@ + enrolment->picture@
                },
            },
    {
        let (url, picture) = match enrolment {
            Enrolment::Unusable => {
                return Err(TOTP_NOT_BUILT);
            },
            Enrolment::NoPicture => {
                return Err(QR_NOT_DRAWN);
            },
            Enrolment::Ready { url, picture } => (url, picture),
        };
        let mut data_uri = PICTURE_PREFIX.to_owned();
        data_uri.append(picture.as_str());
        let mut updated = self.clone();
        updated.two_factor.secret = Some(secret_b32.clone());
        assert(updated@ =~= self@.with_secret(secret_b32@));
        let change = CredentialChange {
            base: Ghost(self@),
            credentials: updated,
            ends_sessions: false,
        };
        Ok((change, (secret_b32, url, data_uri)))
    }

    /// Switches the second factor on, with a fresh set of backup codes, once a
    /// code has shown that the app has the secret. Logins go by it from then on.
    pub fn confirmation_change(&self, verdict: CodeVerdict, codes: Option<CodeSet>) -> (r: Result<
        (CredentialChange, Vec<String>),
        &'static str,
    >)
        ensures
            match confirmation_refusal(self@, verdict, codes is Some) {
                Some(reason) => r matches Err(message) && message@ == reason,
                None => r matches Ok((change, shown)) && {
                    &&& change@.base == self@
                    &&& change@.credentials == self@.with_two_factor_on(texts((codes->0).1@))
                    &&& !change@.ends_sessions
                    &&& shown@ == (codes->0).0@
                },
            },
    {
        if self.two_factor.secret.is_none() {
            return Err(NO_SETUP);
        }
        match verdict {
            CodeVerdict::Unusable => {
                return Err(TOTP_NOT_BUILT);
            },
            CodeVerdict::Wrong => {
                return Err(CODE_MISMATCH);
            },
            CodeVerdict::Right => {},
        }
        let (shown, hashes) = match codes {
            Some(codes) => codes,
            None => {
                return Err(CODE_NOT_HASHED);
            },
        };
        let mut updated = self.clone();
        updated.two_factor.enabled = true;
        updated.two_factor.confirmed_secret = match &self.two_factor.secret {
            Some(secret) => Some(secret.clone()),
            None => None,
        };
        updated.two_factor.backup_code_hashes = hashes;
        assert(updated@ =~= self@.with_two_factor_on(texts(hashes@)));
        let change = CredentialChange {
            base: Ghost(self@),
            credentials: updated,
            ends_sessions: false,
        };
        Ok((change, shown))
    }

    /// Switches the second factor off, and forgets its secrets and its backup
    /// codes.
    pub fn disabling_change(&self, password_right: bool) -> (r: Result<
        CredentialChange,
        &'static str,
    >)
        ensures
            if password_right {
                r matches Ok(change) && {
                    &&& change@.base == self@
                    &&& change@.credentials == self@.with_two_factor(no_second_factor())
                    &&& !change@.ends_sessions
                }
            } else {
                r matches Err(message) && message@ == WRONG_PASSWORD@
            },
    {
        if !password_right {
            return Err(WRONG_PASSWORD);
        }
        let mut updated = self.clone();
        updated.two_factor = TwoFactor::default();
        assert(updated@ =~= self@.with_two_factor(no_second_factor()));
        Ok(CredentialChange { base: Ghost(self@), credentials: updated, ends_sessions: false })
    }

    /// Puts a fresh set of backup codes in place of all that there were.
    pub fn renewal_change(&self, password_right: bool, codes: Option<CodeSet>) -> (r: Result<
        (CredentialChange, Vec<String>),
        &'static str,
    >)
        ensures
            match renewal_refusal(self@, password_right, codes is Some) {
                Some(reason) => r matches Err(message) && message@ == reason,
                None => r matches Ok((change, shown)) && {
                    &&& change@.base == self@
                    &&& change@.credentials == self@.with_backup_codes(texts((codes->0).1@))
                    &&& !change@.ends_sessions
                    &&& shown@ == (codes->0).0@
                },
            },
    {
        if !password_right {
            return Err(WRONG_PASSWORD);
        }
        if !self.two_factor.enabled {
            return Err(NOT_ENABLED);
        }
        let (shown, hashes) = match codes {
            Some(codes) => codes,
            None => {
                return Err(CODE_NOT_HASHED);
            },
        };
        let mut updated = self.clone();
        updated.two_factor.backup_code_hashes = hashes;
        assert(updated@ =~= self@.with_backup_codes(texts(hashes@)));
        let change = CredentialChange {
            base: Ghost(self@),
            credentials: updated,
            ends_sessions: false,
        };
        Ok((change, shown))
    }

    /// Gives the account another name or another password, or both, and closes
    /// every session. `new_hash` is the hash of the new password; it is looked
    /// at only if there is a new password.
    pub fn account_change(
        &self,
        password_right: bool,
        new_username: Option<String>,
        new_password: Option<String>,
        new_hash: Option<String>,
    ) -> (r: Result<CredentialChange, &'static str>)
        ensures
            match account_refusal(password_right, text_of(new_password), new_hash is Some) {
                Some(reason) => r matches Err(message) && message@ == reason,
                None => r matches Ok(change) && {
                    &&& change@.base == self@
                    &&& change@.credentials == renamed(
                        self@,
                        text_of(new_username),
                        if new_password is Some {
                            text_of(new_hash)
                        } else {
                            None
                        },
                    )
                    &&& change@.ends_sessions
                },
            },
    {
        if !password_right {
            return Err(WRONG_PASSWORD);
        }
        let mut updated = self.clone();
        if let Some(username) = new_username {
            updated.username = username;
        }
        if let Some(password) = new_password {
            match validate_password_strength(password.as_str()) {
                Ok(_) => {},
                Err(message) => {
                    return Err(message);
                },
            }
            match new_hash {
                Some(hash) => {
                    updated.password_hash = hash;
                },
                None => {
                    return Err(PASSWORD_NOT_HASHED);
                },
            }
        }
        Ok(CredentialChange { base: Ghost(self@), credentials: updated, ends_sessions: true })
    }
}

} // verus!
