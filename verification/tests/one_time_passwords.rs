use claunote_auth::totp::{build_totp, enrol, judge_code, CodeVerdict, Enrolment, HashFunction};

/// Base32 of `12345678901234567890`.
const SECRET: &str = "GEZDGNBVGY3TQOJQGEZDGNBVGY3TQOJQ";

#[test]
fn parameters_are_the_usual_ones() {
    let totp = build_totp(SECRET, "admin").unwrap();
    assert_eq!(totp.algorithm, HashFunction::Sha1);
    assert_eq!(totp.digits, 6);
    assert_eq!(totp.skew, 1);
    assert_eq!(totp.step, 30);
    assert_eq!(totp.secret, b"12345678901234567890");
    assert_eq!(totp.issuer.as_deref(), Some("Claunote"));
    assert_eq!(totp.account_name, "admin");
}

#[test]
fn unusable_parameters_are_refused() {
    // Not Base32, too short, and a colon in the name.
    assert!(build_totp("not base32!", "admin").is_none());
    assert!(build_totp("GEZDGNBVGY3TQOJQGEZDGNBV", "admin").is_none());
    assert!(build_totp("", "admin").is_none());
    assert!(build_totp(SECRET, "ad:min").is_none());
    assert!(build_totp("GEZDGNBVGY3TQOJQGEZDGNBVGY", "admin").is_some());
}

#[test]
fn known_codes_are_right_at_their_times() {
    for (time, code) in [
        (59, "287082"),
        (1111111109, "081804"),
        (1111111111, "050471"),
        (1234567890, "005924"),
        (2000000000, "279037"),
        (20000000000, "353130"),
    ] {
        assert_eq!(judge_code(SECRET, "admin", code, Some(time)), CodeVerdict::Right, "{time}");
    }
}

#[test]
fn code_is_good_one_step_early_and_late() {
    // The code of the third step, which lasts from 90 to 119.
    let code = "969429";
    assert_eq!(judge_code(SECRET, "admin", code, Some(59)), CodeVerdict::Wrong);
    assert_eq!(judge_code(SECRET, "admin", code, Some(60)), CodeVerdict::Right);
    assert_eq!(judge_code(SECRET, "admin", code, Some(90)), CodeVerdict::Right);
    assert_eq!(judge_code(SECRET, "admin", code, Some(119)), CodeVerdict::Right);
    assert_eq!(judge_code(SECRET, "admin", code, Some(149)), CodeVerdict::Right);
    assert_eq!(judge_code(SECRET, "admin", code, Some(150)), CodeVerdict::Wrong);
}

#[test]
fn other_codes_are_wrong() {
    for code in ["", "28708", "2870820", "287083", " 287082", "28708\u{662}"] {
        assert_eq!(judge_code(SECRET, "admin", code, Some(59)), CodeVerdict::Wrong, "{code:?}");
    }
}

#[test]
fn code_of_another_secret_is_wrong() {
    let other = "GEZDGNBVGY3TQOJQGEZDGNBVGY3TQOJR";
    assert_eq!(judge_code(other, "admin", "287082", Some(59)), CodeVerdict::Wrong);
}

#[test]
fn unusable_secret_or_name_is_told_apart() {
    assert_eq!(judge_code("!", "admin", "287082", Some(59)), CodeVerdict::Unusable);
    assert_eq!(judge_code(SECRET, "ad:min", "287082", Some(59)), CodeVerdict::Unusable);
}

#[test]
fn no_code_is_right_without_a_usable_time() {
    assert_eq!(judge_code(SECRET, "admin", "755224", None), CodeVerdict::Wrong);
    assert_eq!(judge_code(SECRET, "admin", "755224", Some(0)), CodeVerdict::Wrong);
    assert_eq!(judge_code(SECRET, "admin", "755224", Some(29)), CodeVerdict::Wrong);
    assert_eq!(judge_code(SECRET, "admin", "755224", Some(30)), CodeVerdict::Right);
    assert_eq!(judge_code(SECRET, "admin", "755224", Some(u64::MAX)), CodeVerdict::Wrong);
    assert_eq!(judge_code(SECRET, "admin", "755224", Some(u64::MAX - 60)), CodeVerdict::Wrong);
}

#[test]
fn enrolment_tells_the_app_what_it_needs() {
    match enrol(SECRET, "ad min") {
        Enrolment::Ready { url, picture } => {
            assert_eq!(
                url,
                format!("otpauth://totp/Claunote:ad%20min?secret={SECRET}&issuer=Claunote")
            );
            assert!(picture.starts_with("iVBORw0KGgo"));
        }
        _ => panic!("not ready"),
    }
}

#[test]
fn picture_depends_on_the_address() {
    let pictures: Vec<String> = ["admin", "admin", "other"]
        .iter()
        .map(|name| match enrol(SECRET, name) {
            Enrolment::Ready { picture, .. } => picture,
            _ => panic!("not ready"),
        })
        .collect();
    assert_eq!(pictures[0], pictures[1]);
    assert_ne!(pictures[0], pictures[2]);
}

#[test]
fn enrolment_can_fail() {
    assert!(matches!(enrol(SECRET, "ad:min"), Enrolment::Unusable));
    assert!(matches!(enrol("!", "admin"), Enrolment::Unusable));
    assert!(matches!(enrol(SECRET, &"a".repeat(5000)), Enrolment::NoPicture));
}
