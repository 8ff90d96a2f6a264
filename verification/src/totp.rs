//! Time-based one-time passwords: the parameters that an authenticator app and
//! the server share, the codes they give at a time, and how an app is enrolled.

use totp_rs::{Algorithm, Secret, TOTP};
use vstd::prelude::*;
use vstd::string::*;

verus! {

/// The service name that an authenticator app shows.
pub const TOTP_ISSUER: &'static str = "Claunote";

/// How many digits a code has.
pub const TOTP_DIGITS: usize = 6;

/// How many steps of clock drift are forgiven in either direction.
pub const TOTP_SKEW: u8 = 1;

/// How many seconds a code is current for.
pub const TOTP_STEP: u64 = 30;

/// The fewest bytes that a shared secret may have.
pub const MIN_SECRET_BYTES: usize = 16;

/// How many bytes a fresh shared secret has.
pub const FRESH_SECRET_BYTES: usize = 20;

/// How the address begins that tells an authenticator app its parameters.
pub const OTPAUTH_PREFIX: &'static str = "otpauth://totp/";

/// The hash function that a one-time password scheme is built on.
#[derive(Clone, Copy, PartialEq, Eq, Structural, Debug)]
pub enum HashFunction {
    Sha1,
    Sha256,
    Sha512,
}

/// The parameters of a one-time password scheme.
pub struct Totp {
    /// The hash function.
    pub algorithm: HashFunction,
    /// How many digits a code has.
    pub digits: usize,
    /// How many steps of clock drift are forgiven in either direction.
    pub skew: u8,
    /// How many seconds a code is current for.
    pub step: u64,
    /// The shared secret.
    pub secret: Vec<u8>,
    /// The name of the service.
    pub issuer: Option<String>,
    /// The name of the account.
    pub account_name: String,
}

/// The text of an optional string.
pub open spec fn text_of(s: Option<String>) -> Option<Seq<char>> {
    match s {
        Some(s) => Some(s@),
        None => None,
    }
}

/// The errors of the outside crate's secret decoder.
#[verifier::external_type_specification]
#[verifier::external_body]
pub struct ExSecretParseError(totp_rs::SecretParseError);

/// The errors of the outside crate's parameter check.
#[verifier::external_type_specification]
#[verifier::external_body]
pub struct ExTotpUrlError(totp_rs::TotpUrlError);

/// The number below 32 that a character stands for in the Base32 alphabet, or
/// -1 if it is not in the alphabet.
pub open spec fn base32_value(c: char) -> int {
    if 'A' <= c <= 'Z' {
        c as int - 'A' as int
    } else if '2' <= c <= '7' {
        c as int - '2' as int + 26
    } else {
        -1
    }
}

/// The `i`th byte of what a Base32 text stands for: its bits are those from the
/// eight-fold of `i` on, where each character holds five.
pub open spec fn base32_byte(text: Seq<char>, i: int) -> int {
    let v = |n: int| base32_value(text[8 * (i / 5) + n]);
    if i % 5 == 0 {
        v(0) * 8 + v(1) / 4
    } else if i % 5 == 1 {
        v(1) % 4 * 64 + v(2) * 2 + v(3) / 16
    } else if i % 5 == 2 {
        v(3) % 16 * 16 + v(4) / 2
    } else if i % 5 == 3 {
        v(4) % 2 * 128 + v(5) * 4 + v(6) / 8
    } else {
        v(6) % 8 * 32 + v(7)
    }
}

/// The bytes that a Base32 text without padding stands for: as many as its bits
/// fill. A text with a character outside the alphabet stands for none.
pub open spec fn base32_bytes(text: Seq<char>) -> Option<Seq<u8>> {
    if forall|i: int| 0 <= i < text.len() ==> base32_value(#[trigger] text[i]) >= 0 {
        Some(Seq::new((text.len() * 5 / 8) as nat, |i: int| base32_byte(text, i) as u8))
    } else {
        None
    }
}

/// The code that the scheme with these parameters gives at `time`, in seconds.
pub uninterp spec fn totp_code(
    algorithm: HashFunction,
    digits: usize,
    step: u64,
    secret: Seq<u8>,
    time: u64,
) -> Seq<char>;

/// The `otpauth` address that tells an authenticator app these parameters.
pub uninterp spec fn otpauth_url(
    algorithm: HashFunction,
    digits: usize,
    step: u64,
    secret: Seq<u8>,
    issuer: Option<Seq<char>>,
    account_name: Seq<char>,
) -> Seq<char>;

/// A picture of a QR code for a text, as Base64; none if the text does not fit.
pub uninterp spec fn qr_base64(text: Seq<char>) -> Option<Seq<char>>;

/// Calls `Secret::to_bytes` of `totp_rs` on a Base32 text. Taken on trust: that
/// it reads the Base32 of RFC 4648, in capitals and without padding.
#[verifier::external_body]
fn decode_secret(text: &str) -> (r: Result<Vec<u8>, totp_rs::SecretParseError>)
    ensures
        match r {
            Ok(bytes) => base32_bytes(text@) == Some(bytes@),
            Err(_) => base32_bytes(text@) is None,
        },
{
    Secret::Encoded(text.to_string()).to_bytes()
}

/// Calls `Secret::generate_secret` of `totp_rs` and writes the secret in
/// Base32. The text decodes to as many bytes as a fresh secret has. Not proved:
/// that it does, nor anything of what the bytes are. Panics if the system has
/// no random bytes to give.
#[verifier::external_body]
pub(crate) fn fresh_secret() -> (text: String)
    ensures
        base32_bytes(text@) is Some,
        base32_bytes(text@)->0.len() == FRESH_SECRET_BYTES,
{
    Secret::generate_secret().to_encoded().to_string()
}

/// Parameters that the outside crate takes: six to eight digits, a secret of
/// enough bytes, and no colon in either name.
pub open spec fn acceptable(
    digits: usize,
    secret: Seq<u8>,
    issuer: Option<Seq<char>>,
    account_name: Seq<char>,
) -> bool {
    &&& 6 <= digits <= 8
    &&& secret.len() >= MIN_SECRET_BYTES
    &&& issuer matches Some(name) ==> !name.contains(':')
    &&& !account_name.contains(':')
}

/// Calls `TOTP::new` of `totp_rs`. Taken on trust: that it refuses
/// the parameters that are not acceptable, and keeps the others as they are.
#[verifier::external_body]
fn checked_totp(
    algorithm: HashFunction,
    digits: usize,
    skew: u8,
    step: u64,
    secret: Vec<u8>,
    issuer: Option<String>,
    account_name: String,
) -> (r: Result<Totp, totp_rs::TotpUrlError>)
    ensures
        r is Ok <==> acceptable(digits, secret@, text_of(issuer), account_name@),
        r matches Ok(t) ==> {
            &&& t.algorithm == algorithm
            &&& t.digits == digits
            &&& t.skew == skew
            &&& t.step == step
            &&& t.secret@ == secret@
            &&& text_of(t.issuer) == text_of(issuer)
            &&& t.account_name@ == account_name@
        },
{
    let function = match algorithm {
        HashFunction::Sha1 => Algorithm::SHA1,
        HashFunction::Sha256 => Algorithm::SHA256,
        HashFunction::Sha512 => Algorithm::SHA512,
    };
    let t = TOTP::new(function, digits, skew, step, secret, issuer, account_name)?;
    let TOTP { digits, skew, step, secret, issuer, account_name, .. } = t;
    Ok(Totp { algorithm, digits, skew, step, secret, issuer, account_name })
}

/// Some step no further than `skew` from the one at `time` has `code` for its
/// code.
pub open spec fn code_near(
    algorithm: HashFunction,
    digits: usize,
    skew: u8,
    step: u64,
    secret: Seq<u8>,
    code: Seq<char>,
    time: u64,
) -> bool {
    exists|k: int|
        time / step - skew <= k <= time / step + skew && code == #[trigger] totp_code(
            algorithm,
            digits,
            step,
            secret,
            (k * step) as u64,
        )
}

/// Calls `TOTP::check` of `totp_rs`. Taken on trust: that it accepts
/// exactly the codes of the steps within the skew, and that what it accepts has
/// as many characters as a code has digits. Not proved: what a step's code is.
/// Times at which the outside arithmetic would overflow are left out.
#[verifier::external_body]
fn totp_check(totp: &Totp, code: &str, time: u64) -> (b: bool)
    requires
        6 <= totp.digits <= 8,
        totp.step > 0,
        totp.skew <= time / totp.step,
        (time / totp.step + totp.skew) * totp.step <= u64::MAX,
    ensures
        b == (exists|k: int|
            time / totp.step - totp.skew <= k <= time / totp.step + totp.skew && code@
                == #[trigger] totp_code(
                totp.algorithm,
                totp.digits,
                totp.step,
                totp.secret@,
                (k * totp.step) as u64,
            )),
        b ==> code@.len() == totp.digits,
{
    let function = match totp.algorithm {
        HashFunction::Sha1 => Algorithm::SHA1,
        HashFunction::Sha256 => Algorithm::SHA256,
        HashFunction::Sha512 => Algorithm::SHA512,
    };
    let (digits, skew, step) = (totp.digits, totp.skew, totp.step);
    let (secret, issuer) = (totp.secret.clone(), totp.issuer.clone());
    let account_name = totp.account_name.clone();
    TOTP::new_unchecked(function, digits, skew, step, secret, issuer, account_name).check(code, time)
}

/// Calls `TOTP::get_url` of `totp_rs`. The address is a function of the
/// parameters, and begins as such addresses do. Not proved: how the rest of it
/// is spelled.
#[verifier::external_body]
fn totp_url(totp: &Totp) -> (url: String)
    ensures
        url@ == otpauth_url(
            totp.algorithm,
            totp.digits,
            totp.step,
            totp.secret@,
            text_of(totp.issuer),
            totp.account_name@,
        ),
        OTPAUTH_PREFIX@.is_prefix_of(url@),
{
    let function = match totp.algorithm {
        HashFunction::Sha1 => Algorithm::SHA1,
        HashFunction::Sha256 => Algorithm::SHA256,
        HashFunction::Sha512 => Algorithm::SHA512,
    };
    let (digits, skew, step) = (totp.digits, totp.skew, totp.step);
    let (secret, issuer) = (totp.secret.clone(), totp.issuer.clone());
    let account_name = totp.account_name.clone();
    TOTP::new_unchecked(function, digits, skew, step, secret, issuer, account_name).get_url()
}

/// Calls `TOTP::get_qr_base64` of `totp_rs`. The picture is a
/// function of the address that `TOTP::get_url` gives for the same parameters.
/// Not proved: what it shows, and which addresses are too long for one.
#[verifier::external_body]
fn totp_qr(totp: &Totp) -> (r: Result<String, String>)
    ensures
        match r {
            Ok(picture) => qr_base64(
                otpauth_url(
                    totp.algorithm,
                    totp.digits,
                    totp.step,
                    totp.secret@,
                    text_of(totp.issuer),
                    totp.account_name@,
                ),
            ) == Some(picture@),
            Err(_) => qr_base64(
                otpauth_url(
                    totp.algorithm,
                    totp.digits,
                    totp.step,
                    totp.secret@,
                    text_of(totp.issuer),
                    totp.account_name@,
                ),
            ) is None,
        },
{
    let function = match totp.algorithm {
        HashFunction::Sha1 => Algorithm::SHA1,
        HashFunction::Sha256 => Algorithm::SHA256,
        HashFunction::Sha512 => Algorithm::SHA512,
    };
    let (digits, skew, step) = (totp.digits, totp.skew, totp.step);
    let (secret, issuer) = (totp.secret.clone(), totp.issuer.clone());
    let account_name = totp.account_name.clone();
    TOTP::new_unchecked(function, digits, skew, step, secret, issuer, account_name).get_qr_base64()
}

/// Calls `SystemTime::elapsed` on the start of Unix time: the seconds since
/// then, or nothing if the system's clock stands before it. Nothing is claimed
/// of the result.
#[verifier::external_body]
pub(crate) fn unix_seconds() -> (t: Option<u64>) {
    match std::time::UNIX_EPOCH.elapsed() {
        Ok(since) => Some(since.as_secs()),
        Err(_) => None,
    }
}

/// The random source gave this secret for an authenticator app.
pub closed spec fn drawn_secret(text: Seq<char>) -> bool {
    exists|s: String| #[trigger] call_ensures(fresh_secret, (), s) && s@ == text
}

/// Secrets are drawn only by asking for a fresh one.
pub(crate) proof fn secrets_are_drawn_from_the_source(text: Seq<char>)
    requires
        drawn_secret(text),
    ensures
        exists|s: String| #[trigger] call_ensures(fresh_secret, (), s) && s@ == text,
{
}

/// Draws a fresh secret.
pub(crate) fn draw_secret() -> (text: String)
    ensures
        base32_bytes(text@) is Some,
        base32_bytes(text@)->0.len() == FRESH_SECRET_BYTES,
        drawn_secret(text@),
{
    let text = fresh_secret();
    assert(call_ensures(fresh_secret, (), text));
    text
}

/// The system's clock gave this as Unix time when it was asked.
pub closed spec fn told_time(t: Option<u64>) -> bool {
    call_ensures(unix_seconds, (), t)
}

/// The time is told only by the system's clock.
pub(crate) proof fn time_is_told_by_the_system(t: Option<u64>)
    requires
        told_time(t),
    ensures
        call_ensures(unix_seconds, (), t),
{
}

/// Asks the system's clock for Unix time.
pub(crate) fn tell_time() -> (t: Option<u64>)
    ensures
        told_time(t),
{
    unix_seconds()
}

/// The stored secret and the username make usable parameters: the secret is
/// Base32 for enough bytes, and the username has no colon.
pub open spec fn totp_usable(secret: Seq<char>, username: Seq<char>) -> bool {
    &&& base32_bytes(secret) matches Some(bytes) && bytes.len() >= MIN_SECRET_BYTES
    &&& !username.contains(':')
}

/// The parameters for a stored secret and a username.
pub fn build_totp(secret_b32: &str, username: &str) -> (totp: Option<Totp>)
    ensures
        totp is Some <==> totp_usable(secret_b32@, username@),
        totp matches Some(t) ==> {
            &&& t.algorithm == HashFunction::Sha1
            &&& t.digits == TOTP_DIGITS
            &&& t.skew == TOTP_SKEW
            &&& t.step == TOTP_STEP
            &&& Some(t.secret@) == base32_bytes(secret_b32@)
            &&& text_of(t.issuer) == Some(TOTP_ISSUER@)
            &&& t.account_name@ == username@
        },
{
    let secret = match decode_secret(secret_b32) {
        Ok(secret) => secret,
        Err(_) => {
            return None;
        },
    };
    proof {
        reveal_strlit("Claunote");
    }
    match checked_totp(
        HashFunction::Sha1,
        TOTP_DIGITS,
        TOTP_SKEW,
        TOTP_STEP,
        secret,
        Some(TOTP_ISSUER.to_owned()),
        username.to_owned(),
    ) {
        Ok(totp) => Some(totp),
        Err(_) => None,
    }
}

/// A time at which codes can be checked: not in the first step of Unix time,
/// nor in the last two that can be counted.
pub open spec fn checkable(time: u64) -> bool {
    TOTP_STEP <= time <= u64::MAX - 2 * TOTP_STEP
}

/// At `time`, `code` is the current code for the secret, or the one before or
/// after it.
pub open spec fn code_current(secret: Seq<char>, code: Seq<char>, time: u64) -> bool {
    checkable(time) && code_near(
        HashFunction::Sha1,
        TOTP_DIGITS,
        TOTP_SKEW,
        TOTP_STEP,
        base32_bytes(secret)->0,
        code,
        time,
    )
}

/// What comes of holding a code against a secret.
#[derive(Clone, Copy, PartialEq, Eq, Structural, Debug)]
pub enum CodeVerdict {
    /// The secret and the username make no usable parameters.
    Unusable,
    /// The code is not one that is good now.
    Wrong,
    /// The code is good now.
    Right,
}

/// What comes of holding `code` against the secret at `time`; without a time no
/// code is right.
pub open spec fn code_verdict(
    secret: Seq<char>,
    username: Seq<char>,
    code: Seq<char>,
    time: Option<u64>,
) -> CodeVerdict {
    if !totp_usable(secret, username) {
        CodeVerdict::Unusable
    } else if time is Some && code_current(secret, code, time->0) {
        CodeVerdict::Right
    } else {
        CodeVerdict::Wrong
    }
}

/// Holds `code` against the secret at `time`, given in seconds of Unix time. A
/// code that is right has as many characters as codes have digits.
pub fn judge_code(secret_b32: &str, username: &str, code: &str, time: Option<u64>) -> (v:
    CodeVerdict)
    ensures
        v == code_verdict(secret_b32@, username@, code@, time),
        v == CodeVerdict::Right ==> code@.len() == TOTP_DIGITS,
{
    let totp = match build_totp(secret_b32, username) {
        Some(totp) => totp,
        None => {
            return CodeVerdict::Unusable;
        },
    };
    let time = match time {
        Some(time) => time,
        None => {
            return CodeVerdict::Wrong;
        },
    };
    if time < TOTP_STEP || time > u64::MAX - 2 * TOTP_STEP {
        return CodeVerdict::Wrong;
    }
    if totp_check(&totp, code, time) {
        CodeVerdict::Right
    } else {
        CodeVerdict::Wrong
    }
}

/// What an authenticator app needs to be told, in the forms that it can take.
pub enum Enrolment {
    /// The secret and the username make no usable parameters.
    Unusable,
    /// The address does not fit into a QR code.
    NoPicture,
    /// The `otpauth` address, and a picture of it as Base64.
    Ready { url: String, picture: String },
}

/// The address for a stored secret and a username.
pub open spec fn enrolment_url(secret: Seq<char>, username: Seq<char>) -> Seq<char> {
    otpauth_url(
        HashFunction::Sha1,
        TOTP_DIGITS,
        TOTP_STEP,
        base32_bytes(secret)->0,
        Some(TOTP_ISSUER@),
        username,
    )
}

/// What an authenticator app needs to be told to share this secret.
pub fn enrol(secret_b32: &str, username: &str) -> (e: Enrolment)
    ensures
        match e {
            Enrolment::Unusable => !totp_usable(secret_b32@, username@),
            Enrolment::NoPicture => totp_usable(secret_b32@, username@) && qr_base64(
                enrolment_url(secret_b32@, username@),
            ) is None,
            Enrolment::Ready { url, picture } => totp_usable(secret_b32@, username@) && url@
                == enrolment_url(secret_b32@, username@) && qr_base64(
                enrolment_url(secret_b32@, username@),
            ) == Some(picture@) && OTPAUTH_PREFIX@.is_prefix_of(url@),
        },
{
    let totp = match build_totp(secret_b32, username) {
        Some(totp) => totp,
        None => {
            return Enrolment::Unusable;
        },
    };
    let url = totp_url(&totp);
    match totp_qr(&totp) {
        Ok(picture) => Enrolment::Ready { url, picture },
        Err(_) => Enrolment::NoPicture,
    }
}

} // verus!
