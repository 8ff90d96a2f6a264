//! Backup codes: one-time codes that stand in for an authenticator app.

use vstd::prelude::*;
use vstd::string::*;
#[allow(unused_imports)]
use vstd::utf8::{is_ascii_chars, is_ascii_chars_encode_utf8};

use crate::policy::BACKUP_CODE_COUNT;
#[allow(unused_imports)]
use crate::secrets::{accepts, drawn_salt, hash_of, hashable, is_hash_of, PHC_PREFIX};
use crate::secrets::{draw_salt, hash_with_salt, SALT_LEN};
use crate::token::draw;
#[allow(unused_imports)]
use crate::token::drawn;

verus! {

/// The characters of backup codes. None of them is easily taken for another:
/// there is no zero and no one, no capital I and no capital O.
pub const CODE_ALPHABET: &'static str = "ABCDEFGHJKLMNPQRSTUVWXYZ23456789";

/// How many random bytes make a backup code.
pub const CODE_BYTES: usize = 8;

/// How many random bytes make a set of backup codes.
pub const SET_BYTES: usize = 64;

/// The answer when a backup code cannot be hashed.
pub const CODE_NOT_HASHED: &'static str = "failed to hash backup code";

/// The character that a random byte stands for.
pub open spec fn code_char(b: u8) -> char {
    CODE_ALPHABET@[(b % 32) as int]
}

/// The backup code that eight bytes make: two groups of four characters with a
/// hyphen in between.
pub open spec fn code_text(raw: Seq<u8>) -> Seq<char> {
    Seq::new(
        9,
        |i: int|
            if i < 4 {
                code_char(raw[i])
            } else if i == 4 {
                '-'
            } else {
                code_char(raw[i - 1])
            },
    )
}

/// A text of the form that backup codes have.
pub open spec fn is_backup_code(s: Seq<char>) -> bool {
    &&& s.len() == 9
    &&& forall|i: int|
        0 <= i < 9 ==> if i == 4 {
            s[i] == '-'
        } else {
            CODE_ALPHABET@.contains(#[trigger] s[i])
        }
}

/// The alphabet has thirty-two characters, all of them ASCII.
proof fn lemma_alphabet()
    ensures
        CODE_ALPHABET@.len() == 32,
        is_ascii_chars(CODE_ALPHABET@),
{
    reveal_strlit("ABCDEFGHJKLMNPQRSTUVWXYZ23456789");
}

/// What eight bytes make has the form of a backup code, and can be hashed.
proof fn lemma_code_text(raw: Seq<u8>)
    requires
        raw.len() == CODE_BYTES,
    ensures
        is_backup_code(code_text(raw)),
        hashable(code_text(raw)),
{
    lemma_alphabet();
    let s = code_text(raw);
    assert forall|i: int| 0 <= i < 9 && i != 4 implies CODE_ALPHABET@.contains(
        #[trigger] s[i],
    ) by {
        let b = if i < 4 {
            raw[i]
        } else {
            raw[i - 1]
        };
        assert(CODE_ALPHABET@[(b % 32) as int] == s[i]);
    }
    assert(s[4] == '-');
    assert(is_ascii_chars(s));
    is_ascii_chars_encode_utf8(s);
}

/// The backup code that eight bytes make.
pub fn backup_code(raw: &[u8]) -> (code: String)
    requires
        raw@.len() == CODE_BYTES,
    ensures
        code@ == code_text(raw@),
        is_backup_code(code@),
{
    let mut code = String::new();
    proof {
        lemma_alphabet();
        reveal_strlit("-");
    }
    for i in 0..CODE_BYTES
        invariant
            raw@.len() == CODE_BYTES,
            CODE_ALPHABET@.len() == 32,
            is_ascii_chars(CODE_ALPHABET@),
            "-"@ == seq!['-'],
            code@ == code_text(raw@).take(
                if i <= 4 {
                    i as int
                } else {
                    i + 1
                },
            ),
    {
        if i == 4 {
            code.append("-");
            assert(code@ =~= code_text(raw@).take(5));
        }
        let at: usize = (raw[i] % 32) as usize;
        let ghost before = code@;
        code.append(CODE_ALPHABET.substring_ascii(at, at + 1));
        assert(code@ =~= code_text(raw@).take(
            if i + 1 <= 4 {
                i + 1
            } else {
                i + 2
            },
        ));
    }
    proof {
        assert(code_text(raw@).take(9) =~= code_text(raw@));
        lemma_code_text(raw@);
    }
    code
}

/// The codes and their hashes that random bytes and salts make: the `i`th code
/// comes of the `i`th bytes, and the `i`th hash of that code and the `i`th salt.
pub fn backup_codes_from(raws: &Vec<Vec<u8>>, salts: &Vec<Vec<u8>>) -> (r: Result<
    (Vec<String>, Vec<String>),
    &'static str,
>)
    requires
        raws@.len() == salts@.len(),
        forall|i: int| 0 <= i < raws@.len() ==> (#[trigger] raws@[i])@.len() == CODE_BYTES,
        forall|i: int| 0 <= i < salts@.len() ==> (#[trigger] salts@[i])@.len() == SALT_LEN,
    ensures
        r matches Ok((codes, hashes)) && {
            &&& codes@.len() == raws@.len()
            &&& hashes@.len() == raws@.len()
            &&& forall|i: int|
                0 <= i < raws@.len() ==> (#[trigger] codes@[i])@ == code_text(raws@[i]@)
            &&& forall|i: int|
                0 <= i < raws@.len() ==> hash_of(code_text(raws@[i]@), salts@[i]@) == Some(
                    (#[trigger] hashes@[i])@,
                )
            &&& forall|i: int|
                0 <= i < raws@.len() ==> accepts(
                    (#[trigger] hashes@[i])@,
                    code_text(raws@[i]@),
                )
            &&& forall|i: int|
                0 <= i < raws@.len() ==> PHC_PREFIX@.is_prefix_of((#[trigger] hashes@[i])@)
        },
{
    let mut codes: Vec<String> = Vec::new();
    let mut hashes: Vec<String> = Vec::new();
    for i in 0..raws.len()
        invariant
            raws@.len() == salts@.len(),
            forall|j: int| 0 <= j < raws@.len() ==> (#[trigger] raws@[j])@.len() == CODE_BYTES,
            forall|j: int| 0 <= j < salts@.len() ==> (#[trigger] salts@[j])@.len() == SALT_LEN,
            codes@.len() == i,
            hashes@.len() == i,
            forall|j: int| 0 <= j < i ==> (#[trigger] codes@[j])@ == code_text(raws@[j]@),
            forall|j: int|
                0 <= j < i ==> hash_of(code_text(raws@[j]@), salts@[j]@) == Some(
                    (#[trigger] hashes@[j])@,
                ),
            forall|j: int|
                0 <= j < i ==> accepts((#[trigger] hashes@[j])@, code_text(raws@[j]@)),
            forall|j: int| 0 <= j < i ==> PHC_PREFIX@.is_prefix_of((#[trigger] hashes@[j])@),
    {
        let code = backup_code(raws[i].as_slice());
        proof {
            lemma_code_text(raws@[i as int]@);
        }
        let hash = match hash_with_salt(code.as_str(), salts[i].as_slice()) {
            Ok(hash) => hash,
            Err(_) => {
                return Err(CODE_NOT_HASHED);
            },
        };
        codes.push(code);
        hashes.push(hash);
    }
    Ok((codes, hashes))
}

/// The codes are what these bytes make, eight bytes to a code and none used
/// twice.
pub open spec fn made_of(codes: Seq<Seq<char>>, bytes: Seq<u8>) -> bool {
    &&& bytes.len() == SET_BYTES
    &&& forall|i: int|
        0 <= i < codes.len() ==> #[trigger] codes[i] == code_text(
            bytes.subrange(i * CODE_BYTES, (i + 1) * CODE_BYTES),
        )
}

/// A set of backup codes with their hashes: as many as are issued at a time,
/// made of bytes that were drawn, each of the right form, each with its own
/// Argon2 hash, which accepts it.
pub open spec fn issued(codes: Seq<Seq<char>>, hashes: Seq<Seq<char>>) -> bool {
    &&& codes.len() == BACKUP_CODE_COUNT
    &&& hashes.len() == BACKUP_CODE_COUNT
    &&& exists|bytes: Seq<u8>| drawn(bytes) && #[trigger] made_of(codes, bytes)
    &&& forall|i: int| 0 <= i < codes.len() ==> is_backup_code(#[trigger] codes[i])
    &&& forall|i: int| 0 <= i < codes.len() ==> is_hash_of(hashes[i], #[trigger] codes[i])
    &&& forall|i: int| 0 <= i < codes.len() ==> accepts(hashes[i], #[trigger] codes[i])
    &&& forall|i: int| 0 <= i < hashes.len() ==> PHC_PREFIX@.is_prefix_of(#[trigger] hashes[i])
}

/// Issues a fresh set of backup codes: the codes themselves, to be shown once,
/// and their hashes, the only form in which they are kept.
pub fn generate_backup_codes() -> (r: Result<(Vec<String>, Vec<String>), &'static str>)
    ensures
        r matches Ok((codes, hashes)) && issued(texts(codes@), texts(hashes@)),
{
    let bytes = draw(SET_BYTES);
    let mut raws: Vec<Vec<u8>> = Vec::new();
    let mut salts: Vec<Vec<u8>> = Vec::new();
    for i in 0..BACKUP_CODE_COUNT
        invariant
            bytes@.len() == SET_BYTES,
            raws@.len() == i,
            salts@.len() == i,
            forall|j: int| 0 <= j < i ==> (#[trigger] raws@[j])@.len() == CODE_BYTES,
            forall|j: int|
                0 <= j < i ==> (#[trigger] raws@[j])@ == bytes@.subrange(
                    j * CODE_BYTES,
                    (j + 1) * CODE_BYTES,
                ),
            forall|j: int| 0 <= j < i ==> (#[trigger] salts@[j])@.len() == SALT_LEN,
            forall|j: int| 0 <= j < i ==> drawn_salt((#[trigger] salts@[j])@),
    {
        let mut raw: Vec<u8> = Vec::new();
        for k in 0..CODE_BYTES
            invariant
                i < BACKUP_CODE_COUNT,
                bytes@.len() == SET_BYTES,
                raw@.len() == k,
                forall|j: int| 0 <= j < k ==> raw@[j] == bytes@[i * CODE_BYTES + j],
        {
            raw.push(bytes[i * CODE_BYTES + k]);
        }
        assert(raw@ =~= bytes@.subrange(i * CODE_BYTES, (i + 1) * CODE_BYTES));
        raws.push(raw);
        salts.push(draw_salt());
    }
    let r = backup_codes_from(&raws, &salts);
    proof {
        let (codes, hashes) = r->Ok_0;
        assert forall|i: int| 0 <= i < 8 implies is_backup_code(#[trigger] texts(codes@)[i])
            && accepts(texts(hashes@)[i], texts(codes@)[i]) && is_hash_of(
            texts(hashes@)[i],
            texts(codes@)[i],
        ) by {
            lemma_code_text(raws@[i]@);
            assert(hash_of(code_text(raws@[i]@), salts@[i]@) == Some(hashes@[i]@));
            assert(PHC_PREFIX@.is_prefix_of(texts(hashes@)[i]));
            assert(codes@[i]@ == code_text(raws@[i]@));
            assert(accepts(hashes@[i]@, code_text(raws@[i]@)));
        }
        assert forall|i: int| 0 <= i < 8 implies #[trigger] texts(codes@)[i] == code_text(
            bytes@.subrange(i * CODE_BYTES, (i + 1) * CODE_BYTES),
        ) by {
            assert(codes@[i]@ == code_text(raws@[i]@));
        }
        assert(made_of(texts(codes@), bytes@));
    }
    r
}

/// The texts of a list of strings.
pub open spec fn texts(v: Seq<String>) -> Seq<Seq<char>> {
    v.map_values(|s: String| s@)
}

/// Nothing that is kept of a set of backup codes is one of the codes.
pub proof fn codes_themselves_are_not_kept(
    codes: Seq<Seq<char>>,
    hashes: Seq<Seq<char>>,
    i: int,
    j: int,
)
    requires
        issued(codes, hashes),
        0 <= i < codes.len(),
        0 <= j < hashes.len(),
    ensures
        hashes[j] != codes[i],
{
    reveal_strlit("ABCDEFGHJKLMNPQRSTUVWXYZ23456789");
    reveal_strlit("$argon2id$");
    assert(is_backup_code(codes[i]));
    assert(CODE_ALPHABET@.contains(codes[i][0]));
    let p = PHC_PREFIX@;
    assert(p.is_prefix_of(hashes[j]));
    if hashes[j].len() > 0 {
        assert(hashes[j].subrange(0, p.len() as int)[0] == p[0]);
    }
}

/// No character of a backup code is one of those that are easily misread.
pub proof fn backup_codes_are_easy_to_read(raw: Seq<u8>, i: int)
    requires
        raw.len() == CODE_BYTES,
        0 <= i < code_text(raw).len(),
    ensures
        code_text(raw)[i] != '0',
        code_text(raw)[i] != 'O',
        code_text(raw)[i] != '1',
        code_text(raw)[i] != 'I',
{
    reveal_strlit("ABCDEFGHJKLMNPQRSTUVWXYZ23456789");
    lemma_code_text(raw);
}

} // verus!
