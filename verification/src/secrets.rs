//! Comparing secrets, judging new passwords, and Argon2id hashes.

use argon2::password_hash::{PasswordHash, PasswordHasher, PasswordVerifier, SaltString};
use argon2::Argon2;
use rand::rngs::OsRng;
use vstd::prelude::*;
#[allow(unused_imports)]
use vstd::string::*;
#[allow(unused_imports)]
use vstd::utf8::encode_utf8;

use crate::text::chars_of;

verus! {

/// The fewest characters that a new password may have.
pub const MIN_PASSWORD_CHARS: usize = 10;

/// The answer to a password with too few characters.
pub const PASSWORD_TOO_SHORT: &'static str = "password must be at least 10 characters";

/// The answer to a password that lacks one of the four kinds of character.
pub const PASSWORD_TOO_PLAIN: &'static str =
    "password must include at least one uppercase letter, one lowercase letter, one number, and one symbol";

/// How every hash begins that is made here: with the name of the scheme.
pub const PHC_PREFIX: &'static str = "$argon2id$";

/// How many bytes of salt go into a hash.
pub const SALT_LEN: usize = 16;

/// With how many digits, or more, the number of lanes in a hash is certain to be
/// above the limit of Argon2.
pub const TOO_MANY_LANES_DIGITS: usize = 9;

/// The longest password, in bytes, that Argon2 takes.
pub const MAX_PASSWORD_BYTES: u32 = 0xffff_ffff;

proof fn lemma_or_xor_zero(d: u8, x: u8, y: u8)
    by (bit_vector)
    ensures
        (d | (x ^ y)) == 0 <==> d == 0 && x == y,
{
}

/// Whether two byte strings are equal, found without stopping at the first
/// difference.
pub fn constant_time_eq(a: &[u8], b: &[u8]) -> (equal: bool)
    ensures
        equal == (a@ == b@),
{
    if a.len() != b.len() {
        // Walk all of `a` here too, so that this answer takes as long as the other.
        let filler = vec![0u8; a.len()];
        let mut _diff: u8 = 0;
        for i in 0..a.len()
            invariant
                filler@.len() == a@.len(),
        {
            _diff = _diff | (a[i] ^ filler[i]);
        }
        return false;
    }
    let mut diff: u8 = 0;
    for i in 0..a.len()
        invariant
            a@.len() == b@.len(),
            diff == 0 <==> forall|j: int| 0 <= j < i ==> a@[j] == b@[j],
    {
        proof {
            lemma_or_xor_zero(diff, a@[i as int], b@[i as int]);
        }
        diff = diff | (a[i] ^ b[i]);
    }
    proof {
        if diff == 0 {
            assert(a@ =~= b@);
        }
    }
    diff == 0
}

/// An uppercase letter of ASCII.
pub open spec fn is_upper(c: char) -> bool {
    'A' <= c <= 'Z'
}

/// A lowercase letter of ASCII.
pub open spec fn is_lower(c: char) -> bool {
    'a' <= c <= 'z'
}

/// A digit of ASCII.
pub open spec fn is_digit(c: char) -> bool {
    '0' <= c <= '9'
}

/// A visible character of ASCII that is neither a letter nor a digit.
pub open spec fn is_symbol(c: char) -> bool {
    '!' <= c <= '~' && !is_upper(c) && !is_lower(c) && !is_digit(c)
}

/// Some character of `s` satisfies `kind`.
pub open spec fn has(s: Seq<char>, kind: spec_fn(char) -> bool) -> bool {
    exists|i: int| 0 <= i < s.len() && kind(#[trigger] s[i])
}

/// All four kinds of character occur in `s`.
pub open spec fn mixed(s: Seq<char>) -> bool {
    &&& has(s, |c: char| is_upper(c))
    &&& has(s, |c: char| is_lower(c))
    &&& has(s, |c: char| is_digit(c))
    &&& has(s, |c: char| is_symbol(c))
}

/// A password that may be set: long enough, and with all kinds of character.
pub open spec fn strong(password: Seq<char>) -> bool {
    password.len() >= MIN_PASSWORD_CHARS && mixed(password)
}

/// Why a password that is not strong is turned down.
pub open spec fn weakness(password: Seq<char>) -> Seq<char> {
    if password.len() < MIN_PASSWORD_CHARS {
        PASSWORD_TOO_SHORT@
    } else {
        PASSWORD_TOO_PLAIN@
    }
}

/// Whether `password` may be set as a new password; if not, why.
pub fn validate_password_strength(password: &str) -> (r: Result<(), &'static str>)
    ensures
        r is Ok <==> strong(password@),
        r matches Err(message) ==> message@ == weakness(password@),
{
    let chars = chars_of(password);
    if chars.len() < MIN_PASSWORD_CHARS {
        return Err(PASSWORD_TOO_SHORT);
    }
    let mut has_upper = false;
    let mut has_lower = false;
    let mut has_digit = false;
    let mut has_symbol = false;
    for i in 0..chars.len()
        invariant
            chars@ == password@,
            has_upper == has(chars@.take(i as int), |c: char| is_upper(c)),
            has_lower == has(chars@.take(i as int), |c: char| is_lower(c)),
            has_digit == has(chars@.take(i as int), |c: char| is_digit(c)),
            has_symbol == has(chars@.take(i as int), |c: char| is_symbol(c)),
    {
        let c = chars[i];
        let upper = 'A' <= c && c <= 'Z';
        let lower = 'a' <= c && c <= 'z';
        let digit = '0' <= c && c <= '9';
        let symbol = '!' <= c && c <= '~' && !upper && !lower && !digit;
        proof {
            lemma_has_next(chars@, i as int, |c: char| is_upper(c));
            lemma_has_next(chars@, i as int, |c: char| is_lower(c));
            lemma_has_next(chars@, i as int, |c: char| is_digit(c));
            lemma_has_next(chars@, i as int, |c: char| is_symbol(c));
        }
        has_upper = has_upper || upper;
        has_lower = has_lower || lower;
        has_digit = has_digit || digit;
        has_symbol = has_symbol || symbol;
    }
    assert(chars@.take(chars@.len() as int) =~= chars@);
    if !has_upper || !has_lower || !has_digit || !has_symbol {
        return Err(PASSWORD_TOO_PLAIN);
    }
    Ok(())
}

proof fn lemma_has_next(s: Seq<char>, i: int, kind: spec_fn(char) -> bool)
    requires
        0 <= i < s.len(),
    ensures
        has(s.take(i + 1), kind) == (has(s.take(i), kind) || kind(s[i])),
{
    let longer = s.take(i + 1);
    let shorter = s.take(i);
    assert(longer[i] == s[i]);
    if has(shorter, kind) {
        let j = choose|j: int| 0 <= j < shorter.len() && kind(#[trigger] shorter[j]);
        assert(kind(longer[j]));
    }
    if has(longer, kind) && !kind(s[i]) {
        let j = choose|j: int| 0 <= j < longer.len() && kind(#[trigger] longer[j]);
        assert(kind(shorter[j]));
    }
}

/// The errors of the outside hashing crate.
#[verifier::external_type_specification]
#[verifier::external_body]
pub struct ExPasswordHashError(argon2::password_hash::Error);

/// Whether `hash` is a hash in PHC string format under which Argon2 accepts
/// `password`.
pub uninterp spec fn argon2_accepts(hash: Seq<char>, password: Seq<u8>) -> bool;

/// The PHC string that Argon2, with its default parameters, makes of a password
/// and a salt; none if it refuses them.
pub uninterp spec fn argon2_phc(password: Seq<u8>, salt: Seq<u8>) -> Option<Seq<char>>;

/// The name and the equals sign of a number of lanes stand at `i`.
pub open spec fn lanes_at(hash: Seq<char>, i: int) -> bool {
    0 <= i && i + 1 < hash.len() && hash[i] == 'p' && hash[i + 1] == '='
}

/// The text goes on at `i` with so many digits that a number of lanes would be
/// above the limit.
pub open spec fn overlong_at(hash: Seq<char>, i: int) -> bool {
    &&& i + TOO_MANY_LANES_DIGITS <= hash.len()
    &&& forall|j: int| i <= j < i + TOO_MANY_LANES_DIGITS ==> is_digit(#[trigger] hash[j])
}

/// The last number of lanes in the text, which is the one that counts, has so
/// many digits that it is above the limit. Argon2 accepts nothing under such a
/// hash.
pub open spec fn too_many_lanes(hash: Seq<char>) -> bool {
    exists|i: int| #[trigger]
        lanes_at(hash, i) && overlong_at(hash, i + 2) && forall|j: int|
            i < j ==> !#[trigger] lanes_at(hash, j)
}

/// Whether the last number of lanes in the text is so long that it is above the
/// limit of Argon2.
pub fn has_too_many_lanes(hash: &str) -> (b: bool)
    ensures
        b == too_many_lanes(hash@),
{
    let chars = chars_of(hash);
    let n = chars.len();
    let mut i: usize = n;
    while i > 0
        invariant
            i <= n,
            n == chars@.len(),
            chars@ == hash@,
            forall|j: int| i <= j ==> !#[trigger] lanes_at(hash@, j),
        decreases i,
    {
        i = i - 1;
        if n - i >= 2 && chars[i] == 'p' && chars[i + 1] == '=' {
            assert(lanes_at(hash@, i as int));
            if n - i < 2 + TOO_MANY_LANES_DIGITS {
                assert(!overlong_at(hash@, i + 2));
                return false;
            }
            for k in 0..TOO_MANY_LANES_DIGITS
                invariant
                    i + 2 + TOO_MANY_LANES_DIGITS <= n,
                    n == chars@.len(),
                    chars@ == hash@,
                    lanes_at(hash@, i as int),
                    forall|j: int| i < j ==> !#[trigger] lanes_at(hash@, j),
                    forall|j: int| i + 2 <= j < i + 2 + k ==> is_digit(#[trigger] hash@[j]),
            {
                let c = chars[i + 2 + k];
                if c < '0' || c > '9' {
                    assert(!is_digit(hash@[i + 2 + k]));
                    assert(!overlong_at(hash@, i + 2));
                    return false;
                }
            }
            assert(overlong_at(hash@, i + 2));
            return true;
        }
    }
    false
}

/// Calls `PasswordHash::new` and `Argon2::verify_password`. The answer is `Ok`
/// exactly where the hash parses and accepts the password, which depends on the
/// two texts alone. Not proved: that this is so, and how it is worked out. The
/// memory that the call takes is set by the hash itself. Left out are hashes
/// with a number of lanes at which the outside arithmetic could overflow.
#[verifier::external_body]
fn argon2_verify(hash: &str, password: &[u8]) -> (r: Result<(), argon2::password_hash::Error>)
    requires
        !too_many_lanes(hash@),
    ensures
        r is Ok <==> argon2_accepts(hash@, password@),
{
    Argon2::default().verify_password(password, &PasswordHash::new(hash)?)
}

/// Calls `Argon2::hash_password` on a `SaltString` with the given salt bytes.
/// The result is a function of the password and the salt; it accepts the
/// password that it was made of; it begins with the name of Argon2id; its number
/// of lanes is a short one; and there is a result for every password that is not
/// longer than Argon2's limit. Not proved: that this is so, and what the rest of
/// the hash looks like.
#[verifier::external_body]
fn argon2_hash(password: &[u8], salt: &[u8]) -> (r: Result<String, argon2::password_hash::Error>)
    requires
        salt@.len() == SALT_LEN,
    ensures
        match r {
            Ok(hash) => argon2_phc(password@, salt@) == Some(hash@) && argon2_accepts(
                hash@,
                password@,
            ) && !too_many_lanes(hash@) && PHC_PREFIX@.is_prefix_of(hash@),
            Err(_) => argon2_phc(password@, salt@) is None,
        },
        password@.len() <= MAX_PASSWORD_BYTES ==> r is Ok,
{
    let salt = SaltString::encode_b64(salt)?;
    Ok(Argon2::default().hash_password(password, &salt)?.to_string())
}

/// Calls `SaltString::generate` on the operating system's random source, and
/// hands out the bytes that the salt stands for. Not proved: that there are
/// always as many, nor anything of what they are. Panics if the system has no
/// random bytes to give.
#[verifier::external_body]
pub(crate) fn fresh_salt() -> (salt: Vec<u8>)
    ensures
        salt@.len() == SALT_LEN,
{
    let salt = SaltString::generate(&mut OsRng);
    let mut raw = [0u8; SALT_LEN];
    salt.decode_b64(&mut raw).unwrap().to_vec()
}

/// The system's random source gave these bytes for a salt.
pub closed spec fn drawn_salt(salt: Seq<u8>) -> bool {
    exists|v: Vec<u8>| #[trigger] call_ensures(fresh_salt, (), v) && v@ == salt
}

/// Salts are drawn only by asking for a fresh one.
pub(crate) proof fn salts_are_drawn_from_the_source(salt: Seq<u8>)
    requires
        drawn_salt(salt),
    ensures
        exists|v: Vec<u8>| #[trigger] call_ensures(fresh_salt, (), v) && v@ == salt,
{
}

/// Draws a fresh salt.
pub(crate) fn draw_salt() -> (salt: Vec<u8>)
    ensures
        salt@.len() == SALT_LEN,
        drawn_salt(salt@),
{
    let salt = fresh_salt();
    assert(call_ensures(fresh_salt, (), salt));
    salt
}

/// Whether the stored hash accepts this text. A hash that cannot be read, or
/// with too many lanes, accepts nothing.
pub open spec fn accepts(hash: Seq<char>, text: Seq<char>) -> bool {
    !too_many_lanes(hash) && argon2_accepts(hash, encode_utf8(text))
}

/// The hash of a text under a salt.
pub open spec fn hash_of(text: Seq<char>, salt: Seq<u8>) -> Option<Seq<char>> {
    argon2_phc(encode_utf8(text), salt)
}

/// `hash` is the hash of `text` under some salt that was drawn.
pub open spec fn is_hash_of(hash: Seq<char>, text: Seq<char>) -> bool {
    exists|salt: Seq<u8>|
        salt.len() == SALT_LEN && drawn_salt(salt) && #[trigger] hash_of(text, salt) == Some(hash)
}

/// The text is short enough to be hashed.
pub open spec fn hashable(text: Seq<char>) -> bool {
    encode_utf8(text).len() <= MAX_PASSWORD_BYTES
}

/// Whether the stored hash accepts this text.
pub fn hash_accepts(hash: &str, text: &str) -> (b: bool)
    ensures
        b == accepts(hash@, text@),
{
    if has_too_many_lanes(hash) {
        return false;
    }
    match argon2_verify(hash, text.as_bytes()) {
        Ok(_) => true,
        Err(_) => false,
    }
}

/// The hash of a text under a salt, if it can be made. What it makes accepts
/// the text, and begins with the name of Argon2id.
pub fn hash_with_salt(text: &str, salt: &[u8]) -> (r: Result<
    String,
    argon2::password_hash::Error,
>)
    requires
        salt@.len() == SALT_LEN,
    ensures
        match r {
            Ok(hash) => hash_of(text@, salt@) == Some(hash@) && accepts(hash@, text@)
                && PHC_PREFIX@.is_prefix_of(hash@),
            Err(_) => hash_of(text@, salt@) is None,
        },
        hashable(text@) ==> r is Ok,
{
    argon2_hash(text.as_bytes(), salt)
}

} // verus!
