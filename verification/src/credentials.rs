//! The account: its name, its password's hash, and its second factor.

use vstd::prelude::*;

#[allow(unused_imports)]
use crate::backup::texts;
#[allow(unused_imports)]
use crate::secrets::accepts;
use crate::secrets::hash_accepts;
#[allow(unused_imports)]
use crate::totp::{code_verdict, text_of, TOTP_DIGITS};
use crate::totp::{judge_code, CodeVerdict};

verus! {

/// The second factor of the account.
#[derive(Debug)]
pub struct TwoFactor {
    /// Whether logging in takes a second factor.
    pub enabled: bool,
    /// The shared secret of the setup that was started last, in Base32. It is
    /// there as soon as a setup is started, and has no say in a login.
    pub secret: Option<String>,
    /// The shared secret that was confirmed last, in Base32. Logins go by it.
    pub confirmed_secret: Option<String>,
    /// The hashes of the backup codes that have not been used yet.
    pub backup_code_hashes: Vec<String>,
}

/// The account.
#[derive(Debug)]
pub struct Credentials {
    /// The name to log in with.
    pub username: String,
    /// The hash of the password.
    pub password_hash: String,
    /// The second factor.
    pub two_factor: TwoFactor,
}

/// What a `TwoFactor` stands for.
#[verifier::ext_equal]
pub struct TwoFactorView {
    pub enabled: bool,
    pub secret: Option<Seq<char>>,
    pub confirmed_secret: Option<Seq<char>>,
    pub backup_code_hashes: Seq<Seq<char>>,
}

/// What `Credentials` stand for.
#[verifier::ext_equal]
pub struct CredentialsView {
    pub username: Seq<char>,
    pub password_hash: Seq<char>,
    pub two_factor: TwoFactorView,
}

impl View for TwoFactor {
    type V = TwoFactorView;

    open spec fn view(&self) -> TwoFactorView {
        TwoFactorView {
            enabled: self.enabled,
            secret: text_of(self.secret),
            confirmed_secret: text_of(self.confirmed_secret),
            backup_code_hashes: texts(self.backup_code_hashes@),
        }
    }
}

impl View for Credentials {
    type V = CredentialsView;

    open spec fn view(&self) -> CredentialsView {
        CredentialsView {
            username: self.username@,
            password_hash: self.password_hash@,
            two_factor: self.two_factor@,
        }
    }
}

/// No second factor: switched off, without secrets or backup codes.
pub open spec fn no_second_factor() -> TwoFactorView {
    TwoFactorView {
        enabled: false,
        secret: None,
        confirmed_secret: None,
        backup_code_hashes: Seq::empty(),
    }
}

impl TwoFactorView {
    /// The second factor with its confirmed secret made good. Where it is on
    /// and none is recorded, it was confirmed with the one secret there is.
    pub open spec fn restored(self) -> TwoFactorView {
        TwoFactorView {
            confirmed_secret: if self.enabled && self.confirmed_secret is None {
                self.secret
            } else {
                self.confirmed_secret
            },
            ..self
        }
    }
}

impl CredentialsView {
    /// The account with the confirmed secret of its second factor made good.
    pub open spec fn restored(self) -> CredentialsView {
        self.with_two_factor(self.two_factor.restored())
    }
}

impl TwoFactor {
    /// A second factor as it was stored. Where it is on and no confirmed secret
    /// was stored with it, it was confirmed with the one secret there is.
    pub fn restored(self) -> (t: TwoFactor)
        ensures
            t@ == self@.restored(),
    {
        let mut t = self;
        if t.enabled && t.confirmed_secret.is_none() {
            t.confirmed_secret = match &t.secret {
                Some(secret) => Some(secret.clone()),
                None => None,
            };
        }
        t
    }
}

impl Default for TwoFactor {
    fn default() -> (t: TwoFactor)
        ensures
            t@ == no_second_factor(),
    {
        let t = TwoFactor {
            enabled: false,
            secret: None,
            confirmed_secret: None,
            backup_code_hashes: Vec::new(),
        };
        assert(t@ =~= no_second_factor());
        t
    }
}

impl Clone for TwoFactor {
    fn clone(&self) -> (t: TwoFactor)
        ensures
            t@ == self@,
    {
        let mut hashes: Vec<String> = Vec::new();
        for i in 0..self.backup_code_hashes.len()
            invariant
                hashes@.len() == i,
                forall|j: int| 0 <= j < i ==> (#[trigger] hashes@[j])@ == self.backup_code_hashes@[j]@,
        {
            hashes.push(self.backup_code_hashes[i].clone());
        }
        let secret = match &self.secret {
            Some(secret) => Some(secret.clone()),
            None => None,
        };
        let confirmed_secret = match &self.confirmed_secret {
            Some(secret) => Some(secret.clone()),
            None => None,
        };
        let t = TwoFactor {
            enabled: self.enabled,
            secret,
            confirmed_secret,
            backup_code_hashes: hashes,
        };
        assert(t@.backup_code_hashes =~= self@.backup_code_hashes);
        t
    }
}

impl Clone for Credentials {
    fn clone(&self) -> (c: Credentials)
        ensures
            c@ == self@,
    {
        Credentials {
            username: self.username.clone(),
            password_hash: self.password_hash.clone(),
            two_factor: self.two_factor.clone(),
        }
    }
}

impl CredentialsView {
    /// The account's password is `password`, as far as its hash can tell.
    pub open spec fn password_is(self, password: Seq<char>) -> bool {
        accepts(self.password_hash, password)
    }

    /// The code is good for the account's confirmed secret at this time.
    pub open spec fn totp_right(self, code: Seq<char>, time: Option<u64>) -> bool {
        self.two_factor.confirmed_secret matches Some(secret) && code_verdict(
            secret,
            self.username,
            code,
            time,
        ) == CodeVerdict::Right
    }

    /// The account with its second factor replaced.
    pub open spec fn with_two_factor(self, two_factor: TwoFactorView) -> CredentialsView {
        CredentialsView { two_factor, ..self }
    }

    /// The account with another secret that waits to be confirmed.
    pub open spec fn with_secret(self, secret: Seq<char>) -> CredentialsView {
        self.with_two_factor(TwoFactorView { secret: Some(secret), ..self.two_factor })
    }

    /// The account with other backup codes.
    pub open spec fn with_backup_codes(self, hashes: Seq<Seq<char>>) -> CredentialsView {
        self.with_two_factor(TwoFactorView { backup_code_hashes: hashes, ..self.two_factor })
    }

    /// The account with its second factor switched on, its secret confirmed, and
    /// these backup codes.
    pub open spec fn with_two_factor_on(self, hashes: Seq<Seq<char>>) -> CredentialsView {
        self.with_two_factor(
            TwoFactorView {
                enabled: true,
                confirmed_secret: self.two_factor.secret,
                backup_code_hashes: hashes,
                ..self.two_factor
            },
        )
    }

    /// The account once backup code `i` is used up.
    pub open spec fn without_backup_code(self, i: int) -> CredentialsView {
        self.with_backup_codes(self.two_factor.backup_code_hashes.remove(i))
    }
}

/// What a code, given as a second factor, turned out to be.
#[derive(Clone, Copy, PartialEq, Eq, Structural, Debug)]
pub enum SecondFactor {
    /// A code of the authenticator app.
    Totp,
    /// The backup code whose hash stands at this place.
    BackupCode(usize),
    /// Neither.
    Rejected,
}

/// `code` at `time` is this second factor of the account: a code of the
/// authenticator app, as long as such codes are, if it is good for one, else
/// the first backup code that accepts it.
pub open spec fn is_second_factor(
    c: CredentialsView,
    code: Seq<char>,
    time: Option<u64>,
    factor: SecondFactor,
) -> bool {
    let hashes = c.two_factor.backup_code_hashes;
    match factor {
        SecondFactor::Totp => c.totp_right(code, time) && code.len() == TOTP_DIGITS,
        SecondFactor::BackupCode(i) => {
            &&& !c.totp_right(code, time)
            &&& i < hashes.len()
            &&& accepts(hashes[i as int], code)
            &&& forall|j: int| 0 <= j < i ==> !accepts(#[trigger] hashes[j], code)
        },
        SecondFactor::Rejected => {
            &&& !c.totp_right(code, time)
            &&& forall|j: int| 0 <= j < hashes.len() ==> !accepts(#[trigger] hashes[j], code)
        },
    }
}

impl Credentials {
    /// Whether this is the account's password. A hash that cannot be read
    /// matches no password.
    pub fn password_matches(&self, password: &str) -> (b: bool)
        ensures
            b == self@.password_is(password@),
    {
        hash_accepts(self.password_hash.as_str(), password)
    }

    /// What `code` is as a second factor of this account at `time`, given in
    /// seconds of Unix time.
    pub fn check_second_factor(&self, code: &str, time: Option<u64>) -> (factor: SecondFactor)
        ensures
            is_second_factor(self@, code@, time, factor),
    {
        match &self.two_factor.confirmed_secret {
            Some(secret) => {
                let verdict = judge_code(secret.as_str(), self.username.as_str(), code, time);
                if verdict == CodeVerdict::Right {
                    return SecondFactor::Totp;
                }
            },
            None => {},
        }
        let ghost hashes = self@.two_factor.backup_code_hashes;
        let n = self.two_factor.backup_code_hashes.len();
        for i in 0..n
            invariant
                n == self.two_factor.backup_code_hashes@.len(),
                hashes == self@.two_factor.backup_code_hashes,
                !self@.totp_right(code@, time),
                forall|j: int| 0 <= j < i ==> !accepts(#[trigger] hashes[j], code@),
        {
            assert(hashes[i as int] == self.two_factor.backup_code_hashes@[i as int]@);
            if hash_accepts(self.two_factor.backup_code_hashes[i].as_str(), code) {
                return SecondFactor::BackupCode(i);
            }
        }
        SecondFactor::Rejected
    }
}

} // verus!
