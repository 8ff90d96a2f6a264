//! The session cookie: how it is set, cleared, and found again in a request.

use vstd::prelude::*;
use vstd::string::*;

use crate::policy::SESSION_LIFETIME_SECS;
use crate::text::{chars_of, trim_bounds};
#[allow(unused_imports)]
use crate::text::{lemma_first_index, split, trim};

verus! {

/// The name under which a browser keeps the session token.
pub const SESSION_COOKIE_NAME: &'static str = "claunote_session";

/// The decimal digits of `n`, without leading zeros.
pub open spec fn decimal(n: nat) -> Seq<char>
    decreases n,
{
    if n < 10 {
        seq![('0' as u32 + n) as char]
    } else {
        decimal(n / 10).push(('0' as u32 + n % 10) as char)
    }
}

/// What every session cookie starts with: its name and an equals sign.
pub open spec fn cookie_prefix() -> Seq<char> {
    SESSION_COOKIE_NAME@ + "="@
}

/// The attribute that confines a cookie to encrypted connections, if wanted.
pub open spec fn secure_attribute(secure: bool) -> Seq<char> {
    if secure {
        "; Secure"@
    } else {
        ""@
    }
}

/// A whole session cookie: its value, its fixed attributes and its age limit.
pub open spec fn cookie_text(value: Seq<char>, max_age: Seq<char>, secure: bool) -> Seq<char> {
    cookie_prefix() + value + "; HttpOnly; SameSite=Strict; Path=/; Max-Age="@ + max_age
        + secure_attribute(secure)
}

proof fn lemma_max_age_digits()
    ensures
        decimal(SESSION_LIFETIME_SECS as nat) == "1209600"@,
{
    reveal_strlit("1209600");
    reveal_with_fuel(decimal, 8);
    assert(decimal(1209600) =~= "1209600"@);
}

fn cookie_with(value: &str, max_age: &str, secure: bool) -> (cookie: String)
    ensures
        cookie@ == cookie_text(value@, max_age@, secure),
{
    let mut cookie = SESSION_COOKIE_NAME.to_owned();
    cookie.append("=");
    cookie.append(value);
    cookie.append("; HttpOnly; SameSite=Strict; Path=/; Max-Age=");
    cookie.append(max_age);
    cookie.append(
        if secure {
            "; Secure"
        } else {
            ""
        },
    );
    cookie
}

/// The `Set-Cookie` value that hands `token` to the browser for the lifetime of
/// a session.
pub fn build_session_cookie(token: &str, secure: bool) -> (cookie: String)
    ensures
        cookie@ == cookie_text(token@, decimal(SESSION_LIFETIME_SECS as nat), secure),
{
    proof {
        lemma_max_age_digits();
    }
    cookie_with(token, "1209600", secure)
}

/// The `Set-Cookie` value that makes the browser forget its session at once.
pub fn build_logout_cookie(secure: bool) -> (cookie: String)
    ensures
        cookie@ == cookie_text(""@, decimal(0), secure),
{
    proof {
        reveal_strlit("0");
        assert(decimal(0) =~= "0"@);
    }
    cookie_with("", "0", secure)
}

/// The session token that one piece of a `Cookie` header carries: what follows
/// the name and the equals sign, provided that it is not empty.
pub open spec fn token_in(part: Seq<char>) -> Option<Seq<char>> {
    let t = trim(part);
    let p = cookie_prefix();
    if p.is_prefix_of(t) && t.len() > p.len() {
        Some(t.skip(p.len() as int))
    } else {
        None
    }
}

/// The session token of the first of `parts` that carries one.
pub open spec fn first_token(parts: Seq<Seq<char>>) -> Option<Seq<char>>
    decreases parts.len(),
{
    if parts.len() == 0 {
        None
    } else if token_in(parts.first()) is Some {
        token_in(parts.first())
    } else {
        first_token(parts.drop_first())
    }
}

/// The session token in a `Cookie` header, whose pieces are set apart by
/// semicolons.
pub open spec fn session_token(header: Seq<char>) -> Option<Seq<char>> {
    first_token(split(header, ';'))
}

/// The bounds of the token that `chars[from..to]` carries, if it carries one.
fn token_bounds(chars: &Vec<char>, prefix: &Vec<char>, from: usize, to: usize) -> (r: Option<
    (usize, usize),
>)
    requires
        from <= to <= chars@.len(),
        prefix@ == cookie_prefix(),
    ensures
        match r {
            Some((a, b)) => a <= b <= chars@.len() && token_in(
                chars@.subrange(from as int, to as int),
            ) == Some(chars@.subrange(a as int, b as int)),
            None => token_in(chars@.subrange(from as int, to as int)) is None,
        },
{
    let (a, b) = trim_bounds(chars, from, to);
    let ghost t = chars@.subrange(a as int, b as int);
    let n = prefix.len();
    if b - a <= n {
        return None;
    }
    let mut i: usize = 0;
    while i < n
        invariant
            i <= n,
            n == prefix@.len(),
            n < b - a,
            a <= b <= chars@.len(),
            t == chars@.subrange(a as int, b as int),
            t == trim(chars@.subrange(from as int, to as int)),
            prefix@ == cookie_prefix(),
            forall|j: int| 0 <= j < i ==> t[j] == prefix@[j],
        decreases n - i,
    {
        if chars[a + i] != prefix[i] {
            assert(t[i as int] != prefix@[i as int]);
            assert(t.subrange(0, prefix@.len() as int)[i as int] != prefix@[i as int]);
            return None;
        }
        i = i + 1;
    }
    assert(t.subrange(0, n as int) =~= prefix@);
    assert(t.skip(n as int) =~= chars@.subrange(a + n, b as int));
    Some((a + n, b))
}

/// Finds the session token in a `Cookie` header. White space around a piece of
/// the header is not part of it, and the first piece with a token counts.
pub fn extract_session_token(cookie_header: Option<&str>) -> (token: Option<String>)
    ensures
        match cookie_header {
            Some(header) => match session_token(header@) {
                Some(t) => token matches Some(found) && found@ == t,
                None => token is None,
            },
            None => token is None,
        },
{
    let header = match cookie_header {
        Some(header) => header,
        None => {
            return None;
        },
    };
    let chars = chars_of(header);
    let mut name = SESSION_COOKIE_NAME.to_owned();
    name.append("=");
    let prefix = chars_of(name.as_str());
    let len = chars.len();
    let mut from: usize = 0;
    assert(chars@.skip(0) =~= chars@);
    loop
        invariant
            chars@ == header@,
            prefix@ == cookie_prefix(),
            len == chars@.len(),
            from <= len,
            cookie_header == Some(header),
            session_token(header@) == session_token(chars@.skip(from as int)),
        decreases len - from,
    {
        let ghost rest = chars@.skip(from as int);
        let mut to: usize = from;
        while to < len && chars[to] != ';'
            invariant
                from <= to <= len,
                len == chars@.len(),
                rest == chars@.skip(from as int),
                forall|j: int| 0 <= j < to - from ==> rest[j] != ';',
            decreases len - to,
        {
            to = to + 1;
        }
        proof {
            assert(to < len ==> rest[to - from] == ';');
            lemma_first_index(rest, ';', to - from);
            assert(chars@.subrange(from as int, to as int) =~= rest.take(to - from));
        }
        let found = token_bounds(&chars, &prefix, from, to);
        match found {
            Some((a, b)) => {
                return Some(header.substring_char(a, b).to_owned());
            },
            None => {},
        }
        if to >= len {
            proof {
                assert(rest.take(to - from) =~= rest);
                assert(split(rest, ';').drop_first() =~= Seq::empty());
                assert(first_token(split(rest, ';').drop_first()) is None);
            }
            return None;
        }
        proof {
            assert(split(rest, ';').drop_first() =~= split(rest.skip(to - from + 1), ';'));
            assert(rest.skip(to - from + 1) =~= chars@.skip(to + 1));
        }
        from = to + 1;
    }
}

} // verus!
