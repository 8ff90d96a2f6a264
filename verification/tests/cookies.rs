use claunote_auth::{
    build_logout_cookie, build_session_cookie, extract_session_token, SESSION_COOKIE_NAME,
};
use claunote_auth::text::is_white_space;
use claunote_auth::token::token_of;

#[test]
fn session_cookie_has_every_attribute() {
    assert_eq!(SESSION_COOKIE_NAME, "claunote_session");
    assert_eq!(
        build_session_cookie("abc", true),
        "claunote_session=abc; HttpOnly; SameSite=Strict; Path=/; Max-Age=1209600; Secure"
    );
    assert_eq!(
        build_session_cookie("abc", false),
        "claunote_session=abc; HttpOnly; SameSite=Strict; Path=/; Max-Age=1209600"
    );
}

#[test]
fn logout_cookie_is_empty_and_expires_at_once() {
    assert_eq!(
        build_logout_cookie(true),
        "claunote_session=; HttpOnly; SameSite=Strict; Path=/; Max-Age=0; Secure"
    );
    assert_eq!(
        build_logout_cookie(false),
        "claunote_session=; HttpOnly; SameSite=Strict; Path=/; Max-Age=0"
    );
}

#[test]
fn token_is_found_in_a_header() {
    let cases = [
        ("claunote_session=abc", Some("abc")),
        ("claunote_session=abc; theme=dark", Some("abc")),
        ("theme=dark; claunote_session=abc", Some("abc")),
        ("theme=dark;claunote_session=abc", Some("abc")),
        ("  claunote_session=abc  ", Some("abc")),
        ("\u{a0}claunote_session=abc\u{3000}", Some("abc")),
        ("claunote_session=a b", Some("a b")),
        ("claunote_session==", Some("=")),
        ("claunote_session= abc", Some(" abc")),
        ("claunote_session=\u{e9}", Some("\u{e9}")),
    ];
    for (header, token) in cases {
        assert_eq!(extract_session_token(Some(header)).as_deref(), token, "{header:?}");
    }
}

#[test]
fn header_without_a_token_gives_none() {
    assert_eq!(extract_session_token(None), None);
    for header in [
        "",
        ";",
        "; ;",
        "theme=dark",
        "claunote_session",
        "claunote_session=",
        "claunote_session= ",
        "claunote_session =abc",
        "Claunote_Session=abc",
        "xclaunote_session=abc",
    ] {
        assert_eq!(extract_session_token(Some(header)), None, "{header:?}");
    }
}

#[test]
fn first_cookie_with_a_token_counts() {
    let header = "claunote_session=; claunote_session=first; claunote_session=second";
    assert_eq!(extract_session_token(Some(header)).as_deref(), Some("first"));
}

#[test]
fn cookie_of_a_token_gives_the_token_back() {
    let token = token_of(&[0xa5; 32]);
    for secure in [true, false] {
        let cookie = build_session_cookie(&token, secure);
        assert_eq!(extract_session_token(Some(&cookie)), Some(token.clone()));
    }
}

#[test]
fn logout_cookie_gives_no_token() {
    for secure in [true, false] {
        assert_eq!(extract_session_token(Some(&build_logout_cookie(secure))), None);
    }
}

#[test]
fn white_space_is_that_of_unicode() {
    for c in '\0'..=char::MAX {
        assert_eq!(is_white_space(c), c.is_whitespace(), "{c:?}");
    }
}
